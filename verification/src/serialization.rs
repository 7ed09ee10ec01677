//! The two wire encodings of an aggregated bar: a self-describing JSON
//! document with a record-kind tag, and a compact tag-free binary form.
//! Each decoder accepts exactly the canonical form its encoder produces,
//! and the round trip is proved for every well-formed bar.

use vstd::prelude::*;
use crate::bar::{
    bar_type_str, lemma_bar_type_str_chars, lemma_parse_format_round_trip, parse_bar_type, Bar,
    BarType, BarView,
};
use crate::strutil::{
    all_ascii, dec_digits, digit_run_end, digit_run_end_exec, digits_val, find_char_from, first_index_from,
    i64_to_string, int_str, is_digit, lemma_dec_digits_val, lemma_digit_run_end_exact,
    lemma_all_ascii_concat, lemma_all_digits_ascii, lemma_digit_run_end_props,
    lemma_first_index_from_unique, match_at, match_lit, parse_u64,
    u64_to_string,
};
use crate::types::{Price, Quantity, MAX_PRECISION};

verus! {

/// A malformed encoded payload: the boundary error of the decoders, kept
/// distinct from the positioned error of the text grammar.
#[derive(Clone, Copy, PartialEq, Eq, Structural, Debug)]
pub enum DecodeError {
    /// The payload does not match the canonical encoded shape.
    Malformed,
}

/// The serialized tail of a fixed-point field inside the document: its raw
/// integer, its precision, and the closing brace.
pub open spec fn json_price_body(raw: int, precision: nat) -> Seq<char> {
    int_str(raw) + ",\"precision\":"@ + dec_digits(precision) + "}"@
}

/// The tail of the document from the volume field on.
pub open spec fn json_after_close(v: BarView) -> Seq<char> {
    ",\"volume\":{\"raw\":"@ + json_price_body(v.volume.raw as int, v.volume.precision as nat)
        + json_after_volume(v)
}

/// The tail of the document from the timestamps on.
pub open spec fn json_after_volume(v: BarView) -> Seq<char> {
    ",\"ts_event\":"@ + dec_digits(v.ts_event as nat) + ",\"ts_init\":"@ + dec_digits(
        v.ts_init as nat,
    ) + "}"@
}

/// The tail of the document from the low field on.
pub open spec fn json_after_high(v: BarView) -> Seq<char> {
    ",\"low\":{\"raw\":"@ + json_price_body(v.low.raw as int, v.low.precision as nat)
        + json_after_low(v)
}

/// The tail of the document from the close field on.
pub open spec fn json_after_low(v: BarView) -> Seq<char> {
    ",\"close\":{\"raw\":"@ + json_price_body(v.close.raw as int, v.close.precision as nat)
        + json_after_close(v)
}

/// The tail of the document from the high field on.
pub open spec fn json_after_open(v: BarView) -> Seq<char> {
    ",\"high\":{\"raw\":"@ + json_price_body(v.high.raw as int, v.high.precision as nat)
        + json_after_high(v)
}

/// The document encoding: a JSON object, opened by a record-kind tag.
pub open spec fn encode_json(v: BarView) -> Seq<char> {
    "{\"type\":\"Bar\",\"bar_type\":\""@ + bar_type_str(v.bar_type) + "\",\"open\":{\"raw\":"@
        + json_price_body(v.open.raw as int, v.open.precision as nat) + json_after_open(v)
}

/// Reads an unsigned decimal number at `pos`: success, value, end position.
pub open spec fn read_uint(s: Seq<char>, pos: int, max: int) -> (bool, int, int) {
    let e = digit_run_end(s, pos);
    let ds = s.subrange(pos, e);
    if e > pos && digits_val(ds) <= max {
        (true, digits_val(ds), e)
    } else {
        (false, 0, pos)
    }
}

/// Reads an optionally negated decimal number at `pos`.
pub open spec fn read_int(s: Seq<char>, pos: int, min: int, max: int) -> (bool, int, int) {
    if 0 <= pos < s.len() && s[pos] == '-' {
        let r = read_uint(s, pos + 1, -min);
        (r.0, -r.1, r.2)
    } else {
        read_uint(s, pos, max)
    }
}

/// Reads a fixed-point field: `lit` covers everything up to and including
/// `{"raw":`; the result is the value and the position after the `}`.
pub open spec fn read_price(s: Seq<char>, pos: int, lit: Seq<char>) -> Option<(Price, int)> {
    if !match_lit(s, pos, lit) {
        None
    } else {
        let r = read_int(s, pos + lit.len(), i64::MIN as int, i64::MAX as int);
        if !r.0 {
            None
        } else if !match_lit(s, r.2, ",\"precision\":"@) {
            None
        } else {
            let q = read_uint(s, r.2 + ",\"precision\":"@.len(), MAX_PRECISION as int);
            if !q.0 || !match_lit(s, q.2, "}"@) {
                None
            } else {
                Some((Price { raw: r.1 as i64, precision: q.1 as u8 }, q.2 + 1))
            }
        }
    }
}

/// Reads an unsigned fixed-point field, shaped like `read_price`.
pub open spec fn read_quantity(s: Seq<char>, pos: int, lit: Seq<char>) -> Option<(Quantity, int)> {
    if !match_lit(s, pos, lit) {
        None
    } else {
        let r = read_uint(s, pos + lit.len(), u64::MAX as int);
        if !r.0 {
            None
        } else if !match_lit(s, r.2, ",\"precision\":"@) {
            None
        } else {
            let q = read_uint(s, r.2 + ",\"precision\":"@.len(), MAX_PRECISION as int);
            if !q.0 || !match_lit(s, q.2, "}"@) {
                None
            } else {
                Some((Quantity { raw: r.1 as u64, precision: q.1 as u8 }, q.2 + 1))
            }
        }
    }
}

/// The document decoder: accepts exactly the canonical document shape and
/// yields the bar it encodes.
pub open spec fn decode_json(s: Seq<char>) -> Option<BarView> {
    let l0 = "{\"type\":\"Bar\",\"bar_type\":\""@;
    if !match_lit(s, 0, l0) {
        None
    } else {
        let qi = first_index_from(s, '"', l0.len() as int);
        if qi < 0 {
            None
        } else {
            let bt = parse_bar_type(s.subrange(l0.len() as int, qi));
            if bt is Err {
                None
            } else {
                match read_price(s, qi, "\",\"open\":{\"raw\":"@) {
                    None => None,
                    Some((open, p1)) => match read_price(s, p1, ",\"high\":{\"raw\":"@) {
                        None => None,
                        Some((high, p2)) => match read_price(s, p2, ",\"low\":{\"raw\":"@) {
                            None => None,
                            Some((low, p3)) => match read_price(s, p3, ",\"close\":{\"raw\":"@) {
                                None => None,
                                Some((close, p4)) => match read_quantity(
                                    s,
                                    p4,
                                    ",\"volume\":{\"raw\":"@,
                                ) {
                                    None => None,
                                    Some((volume, p5)) => decode_json_tail(
                                        s,
                                        p5,
                                        bt->Ok_0,
                                        open,
                                        high,
                                        low,
                                        close,
                                        volume,
                                    ),
                                },
                            },
                        },
                    },
                }
            }
        }
    }
}

/// The two timestamps and the closing brace of the document.
pub open spec fn decode_json_tail(
    s: Seq<char>,
    pos: int,
    bar_type: crate::bar::BarTypeView,
    open: Price,
    high: Price,
    low: Price,
    close: Price,
    volume: Quantity,
) -> Option<BarView> {
    if !match_lit(s, pos, ",\"ts_event\":"@) {
        None
    } else {
        let r = read_uint(s, pos + ",\"ts_event\":"@.len(), u64::MAX as int);
        if !r.0 || !match_lit(s, r.2, ",\"ts_init\":"@) {
            None
        } else {
            let q = read_uint(s, r.2 + ",\"ts_init\":"@.len(), u64::MAX as int);
            if !q.0 || !match_lit(s, q.2, "}"@) || q.2 + 1 != s.len() {
                None
            } else {
                Some(
                    BarView {
                        bar_type,
                        open,
                        high,
                        low,
                        close,
                        volume,
                        ts_event: r.1 as u64,
                        ts_init: q.1 as u64,
                    },
                )
            }
        }
    }
}

/// A signed decimal number followed by a non-digit reads back exactly.
proof fn lemma_read_int_at(s: Seq<char>, a: Seq<char>, x: int, rest: Seq<char>)
    requires
        s == a + int_str(x) + rest,
        i64::MIN <= x <= i64::MAX,
        rest.len() > 0,
        !is_digit(rest[0]),
    ensures
        read_int(s, a.len() as int, i64::MIN as int, i64::MAX as int) == (
            true,
            x,
            (a.len() + int_str(x).len()) as int,
        ),
{
    let pos = a.len() as int;
    if x < 0 {
        let d = dec_digits((-x) as nat);
        lemma_dec_digits_val((-x) as nat);
        assert(s[pos] == '-');
        assert(s.subrange(pos + 1, pos + 1 + d.len()) =~= d);
        assert(!is_digit(s[pos + 1 + d.len()]));
        lemma_digit_run_end_exact(s, pos + 1, d.len() as int);
        assert(digits_val(s.subrange(pos + 1, pos + 1 + d.len())) == -x);
    } else {
        let d = dec_digits(x as nat);
        lemma_dec_digits_val(x as nat);
        assert(s.subrange(pos, pos + d.len()) =~= d);
        assert(is_digit(s[pos])) by {
            assert(s[pos] == d[0]);
        }
        assert(s[pos] != '-');
        assert(!is_digit(s[pos + d.len()]));
        lemma_digit_run_end_exact(s, pos, d.len() as int);
        assert(digits_val(s.subrange(pos, pos + d.len())) == x);
    }
}

/// An unsigned decimal number followed by a non-digit reads back exactly.
proof fn lemma_read_uint_at(s: Seq<char>, a: Seq<char>, x: int, max: int, rest: Seq<char>)
    requires
        s == a + dec_digits(x as nat) + rest,
        0 <= x <= max,
        rest.len() > 0,
        !is_digit(rest[0]),
    ensures
        read_uint(s, a.len() as int, max) == (true, x, (a.len() + dec_digits(x as nat).len()) as int),
{
    let pos = a.len() as int;
    let d = dec_digits(x as nat);
    lemma_dec_digits_val(x as nat);
    assert(s.subrange(pos, pos + d.len()) =~= d);
    assert(!is_digit(s[pos + d.len()]));
    lemma_digit_run_end_exact(s, pos, d.len() as int);
    assert(digits_val(s.subrange(pos, pos + d.len())) == x);
}

/// A canonical fixed-point field reads back exactly.
proof fn lemma_read_price_at(s: Seq<char>, a: Seq<char>, lit: Seq<char>, p: Price, rest: Seq<char>)
    requires
        p.wf(),
        s == a + lit + json_price_body(p.raw as int, p.precision as nat) + rest,
    ensures
        read_price(s, a.len() as int, lit) == Some(
            (p, (a.len() + lit.len() + json_price_body(p.raw as int, p.precision as nat).len()) as int),
        ),
{
    let pos = a.len() as int;
    let body = json_price_body(p.raw as int, p.precision as nat);
    let lp = ",\"precision\":"@;
    let pd = dec_digits(p.precision as nat);
    reveal_strlit(",\"precision\":");
    reveal_strlit("}");
    assert(s.subrange(pos, pos + lit.len()) =~= lit);
    let a1 = a + lit;
    let rest1 = lp + pd + "}"@ + rest;
    assert(s =~= a1 + int_str(p.raw as int) + rest1);
    assert(rest1[0] == ',');
    assert(!is_digit(','));
    lemma_read_int_at(s, a1, p.raw as int, rest1);
    let e = a1.len() + int_str(p.raw as int).len();
    assert(s.subrange(e as int, (e + lp.len()) as int) =~= lp);
    let a2 = a1 + int_str(p.raw as int) + lp;
    let rest2 = "}"@ + rest;
    assert(s =~= a2 + pd + rest2);
    assert(rest2[0] == '}');
    assert(!is_digit('}'));
    lemma_read_uint_at(s, a2, p.precision as int, MAX_PRECISION as int, rest2);
    let e2 = a2.len() + pd.len();
    assert(s.subrange(e2 as int, (e2 + 1) as int) =~= "}"@);
}

/// A canonical unsigned fixed-point field reads back exactly.
proof fn lemma_read_quantity_at(
    s: Seq<char>,
    a: Seq<char>,
    lit: Seq<char>,
    q: Quantity,
    rest: Seq<char>,
)
    requires
        q.wf(),
        s == a + lit + json_price_body(q.raw as int, q.precision as nat) + rest,
    ensures
        read_quantity(s, a.len() as int, lit) == Some(
            (q, (a.len() + lit.len() + json_price_body(q.raw as int, q.precision as nat).len()) as int),
        ),
{
    let pos = a.len() as int;
    let lp = ",\"precision\":"@;
    let pd = dec_digits(q.precision as nat);
    reveal_strlit(",\"precision\":");
    reveal_strlit("}");
    assert(s.subrange(pos, pos + lit.len()) =~= lit);
    let a1 = a + lit;
    let rest1 = lp + pd + "}"@ + rest;
    assert(int_str(q.raw as int) == dec_digits(q.raw as nat));
    assert(s =~= a1 + dec_digits(q.raw as nat) + rest1);
    assert(rest1[0] == ',');
    assert(!is_digit(','));
    lemma_read_uint_at(s, a1, q.raw as int, u64::MAX as int, rest1);
    let e = a1.len() + dec_digits(q.raw as nat).len();
    assert(s.subrange(e as int, (e + lp.len()) as int) =~= lp);
    let a2 = a1 + dec_digits(q.raw as nat) + lp;
    let rest2 = "}"@ + rest;
    assert(s =~= a2 + pd + rest2);
    assert(rest2[0] == '}');
    assert(!is_digit('}'));
    lemma_read_uint_at(s, a2, q.precision as int, MAX_PRECISION as int, rest2);
    let e2 = a2.len() + pd.len();
    assert(s.subrange(e2 as int, (e2 + 1) as int) =~= "}"@);
}

/// Position of the closing quote of the bar-type string.
pub open spec fn json_qi(v: BarView) -> int {
    (("{\"type\":\"Bar\",\"bar_type\":\""@).len() + bar_type_str(v.bar_type).len()) as int
}

/// Position just after the encoded open field.
pub open spec fn json_p1(v: BarView) -> int {
    json_qi(v) + ("\",\"open\":{\"raw\":"@).len() + json_price_body(
        v.open.raw as int,
        v.open.precision as nat,
    ).len()
}

/// Position just after the encoded high field.
pub open spec fn json_p2(v: BarView) -> int {
    json_p1(v) + (",\"high\":{\"raw\":"@).len() + json_price_body(
        v.high.raw as int,
        v.high.precision as nat,
    ).len()
}

/// Position just after the encoded low field.
pub open spec fn json_p3(v: BarView) -> int {
    json_p2(v) + (",\"low\":{\"raw\":"@).len() + json_price_body(
        v.low.raw as int,
        v.low.precision as nat,
    ).len()
}

/// Position just after the encoded close field.
pub open spec fn json_p4(v: BarView) -> int {
    json_p3(v) + (",\"close\":{\"raw\":"@).len() + json_price_body(
        v.close.raw as int,
        v.close.precision as nat,
    ).len()
}

/// Position just after the encoded volume field.
pub open spec fn json_p5(v: BarView) -> int {
    json_p4(v) + (",\"volume\":{\"raw\":"@).len() + json_price_body(
        v.volume.raw as int,
        v.volume.precision as nat,
    ).len()
}

/// The prefix of the document up to and including the open field.
spec fn json_a2(v: BarView) -> Seq<char> {
    "{\"type\":\"Bar\",\"bar_type\":\""@ + bar_type_str(v.bar_type) + "\",\"open\":{\"raw\":"@
        + json_price_body(v.open.raw as int, v.open.precision as nat)
}

/// The prefix up to and including the high field.
spec fn json_a3(v: BarView) -> Seq<char> {
    json_a2(v) + ",\"high\":{\"raw\":"@ + json_price_body(
        v.high.raw as int,
        v.high.precision as nat,
    )
}

/// The prefix up to and including the low field.
spec fn json_a4(v: BarView) -> Seq<char> {
    json_a3(v) + ",\"low\":{\"raw\":"@ + json_price_body(v.low.raw as int, v.low.precision as nat)
}

/// The prefix up to and including the close field.
spec fn json_a5(v: BarView) -> Seq<char> {
    json_a4(v) + ",\"close\":{\"raw\":"@ + json_price_body(
        v.close.raw as int,
        v.close.precision as nat,
    )
}

/// The prefix up to and including the volume field.
spec fn json_a6(v: BarView) -> Seq<char> {
    json_a5(v) + ",\"volume\":{\"raw\":"@ + json_price_body(
        v.volume.raw as int,
        v.volume.precision as nat,
    )
}

#[verifier::rlimit(100)]
#[verifier::spinoff_prover]
proof fn lemma_json_rt_head(v: BarView)
    requires
        v.wf(),
    ensures
        match_lit(encode_json(v), 0, "{\"type\":\"Bar\",\"bar_type\":\""@),
        first_index_from(encode_json(v), '"', ("{\"type\":\"Bar\",\"bar_type\":\""@).len() as int)
            == json_qi(v),
        parse_bar_type(
            encode_json(v).subrange(
                ("{\"type\":\"Bar\",\"bar_type\":\""@).len() as int,
                json_qi(v),
            ),
        ) == Ok::<crate::bar::BarTypeView, crate::bar::BarTypeParseErrorView>(v.bar_type),
{
    let s = encode_json(v);
    let l0 = "{\"type\":\"Bar\",\"bar_type\":\""@;
    let l1 = "\",\"open\":{\"raw\":"@;
    let bts = bar_type_str(v.bar_type);
    reveal_strlit("{\"type\":\"Bar\",\"bar_type\":\"");
    reveal_strlit("\",\"open\":{\"raw\":");
    lemma_bar_type_str_chars(v.bar_type);
    assert(s.subrange(0, l0.len() as int) =~= l0);
    let qi = l0.len() + bts.len();
    assert(s[qi as int] == '"');
    assert forall|j: int| l0.len() <= j < qi implies s[j] != '"' by {
        assert(s[j] == bts[j - l0.len()]);
    }
    lemma_first_index_from_unique(s, '"', l0.len() as int, qi as int);
    assert(s.subrange(l0.len() as int, qi as int) =~= bts);
    lemma_parse_format_round_trip(v.bar_type);
}

#[verifier::rlimit(100)]
#[verifier::spinoff_prover]
proof fn lemma_json_rt_open(v: BarView)
    requires
        v.wf(),
    ensures
        read_price(encode_json(v), json_qi(v), "\",\"open\":{\"raw\":"@) == Some(
            (v.open, json_p1(v)),
        ),
{
    let s = encode_json(v);
    let a1 = "{\"type\":\"Bar\",\"bar_type\":\""@ + bar_type_str(v.bar_type);
    let l1 = "\",\"open\":{\"raw\":"@;
    let bo = json_price_body(v.open.raw as int, v.open.precision as nat);
    assert(s =~= a1 + l1 + bo + json_after_open(v));
    lemma_read_price_at(s, a1, l1, v.open, json_after_open(v));
}

#[verifier::rlimit(100)]
#[verifier::spinoff_prover]
proof fn lemma_json_rt_high(v: BarView)
    requires
        v.wf(),
    ensures
        read_price(encode_json(v), json_p1(v), ",\"high\":{\"raw\":"@) == Some(
            (v.high, json_p2(v)),
        ),
{
    let s = encode_json(v);
    let a = json_a2(v);
    let l = ",\"high\":{\"raw\":"@;
    let b = json_price_body(v.high.raw as int, v.high.precision as nat);
    assert(s =~= a + l + b + json_after_high(v));
    lemma_read_price_at(s, a, l, v.high, json_after_high(v));
}

#[verifier::rlimit(100)]
#[verifier::spinoff_prover]
proof fn lemma_json_rt_low(v: BarView)
    requires
        v.wf(),
    ensures
        read_price(encode_json(v), json_p2(v), ",\"low\":{\"raw\":"@) == Some((v.low, json_p3(v))),
{
    let s = encode_json(v);
    let a = json_a3(v);
    let l = ",\"low\":{\"raw\":"@;
    assert(s =~= a + l + json_price_body(v.low.raw as int, v.low.precision as nat)
        + json_after_low(v));
    lemma_read_price_at(s, a, l, v.low, json_after_low(v));
}

#[verifier::rlimit(100)]
#[verifier::spinoff_prover]
proof fn lemma_json_rt_close(v: BarView)
    requires
        v.wf(),
    ensures
        read_price(encode_json(v), json_p3(v), ",\"close\":{\"raw\":"@) == Some(
            (v.close, json_p4(v)),
        ),
{
    let s = encode_json(v);
    let a = json_a4(v);
    let l = ",\"close\":{\"raw\":"@;
    assert(s =~= a + l + json_price_body(v.close.raw as int, v.close.precision as nat)
        + json_after_close(v));
    lemma_read_price_at(s, a, l, v.close, json_after_close(v));
}

#[verifier::rlimit(100)]
#[verifier::spinoff_prover]
proof fn lemma_json_rt_volume(v: BarView)
    requires
        v.wf(),
    ensures
        read_quantity(encode_json(v), json_p4(v), ",\"volume\":{\"raw\":"@) == Some(
            (v.volume, json_p5(v)),
        ),
{
    let s = encode_json(v);
    let a = json_a5(v);
    let l = ",\"volume\":{\"raw\":"@;
    assert(s =~= a + l + json_price_body(v.volume.raw as int, v.volume.precision as nat)
        + json_after_volume(v));
    lemma_read_quantity_at(s, a, l, v.volume, json_after_volume(v));
}

#[verifier::rlimit(100)]
#[verifier::spinoff_prover]
proof fn lemma_json_rt_tail(v: BarView)
    requires
        v.wf(),
    ensures
        decode_json_tail(
            encode_json(v),
            json_p5(v),
            v.bar_type,
            v.open,
            v.high,
            v.low,
            v.close,
            v.volume,
        ) == Some(v),
{
    let s = encode_json(v);
    let l6 = ",\"ts_event\":"@;
    let l7 = ",\"ts_init\":"@;
    let de = dec_digits(v.ts_event as nat);
    let di = dec_digits(v.ts_init as nat);
    reveal_strlit(",\"ts_event\":");
    reveal_strlit(",\"ts_init\":");
    reveal_strlit("}");
    let a6 = json_a6(v);
    assert(a6.len() == json_p5(v));
    assert(s.subrange(a6.len() as int, (a6.len() + l6.len()) as int) =~= l6);
    let a7 = a6 + l6;
    let rest7 = l7 + di + "}"@;
    assert(s =~= a7 + de + rest7);
    assert(rest7[0] == ',');
    assert(!is_digit(','));
    lemma_read_uint_at(s, a7, v.ts_event as int, u64::MAX as int, rest7);
    let e7 = a7.len() + de.len();
    assert(s.subrange(e7 as int, (e7 + l7.len()) as int) =~= l7);
    let a8 = a7 + de + l7;
    let rest8 = "}"@;
    assert(s =~= a8 + di + rest8);
    assert(rest8[0] == '}');
    assert(!is_digit('}'));
    lemma_read_uint_at(s, a8, v.ts_init as int, u64::MAX as int, rest8);
    let e8 = a8.len() + di.len();
    assert(s.subrange(e8 as int, (e8 + 1) as int) =~= "}"@);
    assert(e8 + 1 == s.len());
}

/// Decoding the canonical document of a well-formed bar gives the bar back.
#[verifier::rlimit(100)]
#[verifier::spinoff_prover]
pub proof fn lemma_json_round_trip(v: BarView)
    requires
        v.wf(),
    ensures
        decode_json(encode_json(v)) == Some(v),
{
    lemma_json_rt_head(v);
    lemma_json_rt_open(v);
    lemma_json_rt_high(v);
    lemma_json_rt_low(v);
    lemma_json_rt_close(v);
    lemma_json_rt_volume(v);
    lemma_json_rt_tail(v);
}

/// Appends the serialized tail of a price field.
fn append_price_body(out: &mut String, p: &Price)
    requires
        p.wf(),
    ensures
        final(out)@ == old(out)@ + json_price_body(p.raw as int, p.precision as nat),
{
    let r = i64_to_string(p.raw);
    out.append(r.as_str());
    out.append(",\"precision\":");
    let d = u64_to_string(p.precision as u64);
    out.append(d.as_str());
    out.append("}");
    proof {
        assert(out@ =~= old(out)@ + json_price_body(p.raw as int, p.precision as nat));
    }
}

/// Appends the serialized tail of a quantity field.
fn append_quantity_body(out: &mut String, q: &Quantity)
    requires
        q.wf(),
    ensures
        final(out)@ == old(out)@ + json_price_body(q.raw as int, q.precision as nat),
{
    let r = u64_to_string(q.raw);
    out.append(r.as_str());
    out.append(",\"precision\":");
    let d = u64_to_string(q.precision as u64);
    out.append(d.as_str());
    out.append("}");
    proof {
        assert(int_str(q.raw as int) == dec_digits(q.raw as nat));
        assert(out@ =~= old(out)@ + json_price_body(q.raw as int, q.precision as nat));
    }
}

/// Reads an unsigned decimal number, executably.
fn read_uint_exec(s: &str, pos: usize, max: u64) -> (r: Option<(u64, usize)>)
    requires
        pos <= s@.len(),
    ensures
        match r {
            Some(v) => read_uint(s@, pos as int, max as int) == (true, v.0 as int, v.1 as int)
                && pos <= v.1 <= s@.len(),
            None => !read_uint(s@, pos as int, max as int).0,
        },
{
    proof {
        lemma_digit_run_end_props(s@, pos as int);
    }
    let e = digit_run_end_exec(s, pos);
    if e == pos {
        return None;
    }
    let tok = s.substring_char(pos, e);
    match parse_u64(tok) {
        None => None,
        Some(v) => {
            if v <= max {
                Some((v, e))
            } else {
                None
            }
        },
    }
}

/// Reads an optionally negated decimal number, executably.
fn read_int_exec(s: &str, pos: usize) -> (r: Option<(i64, usize)>)
    requires
        pos <= s@.len(),
    ensures
        match r {
            Some(v) => read_int(s@, pos as int, i64::MIN as int, i64::MAX as int) == (
                true,
                v.0 as int,
                v.1 as int,
            ) && pos <= v.1 <= s@.len(),
            None => !read_int(s@, pos as int, i64::MIN as int, i64::MAX as int).0,
        },
{
    let n = s.unicode_len();
    if pos < n && s.get_char(pos) == '-' {
        match read_uint_exec(s, pos + 1, 9223372036854775808u64) {
            None => None,
            Some((v, e)) => {
                let raw: i64 = ((-(v as i128)) as i64);
                Some((raw, e))
            },
        }
    } else {
        match read_uint_exec(s, pos, 9223372036854775807u64) {
            None => None,
            Some((v, e)) => Some(((v as i64), e)),
        }
    }
}

/// Reads a fixed-point price field, executably.
fn read_price_exec(s: &str, pos: usize, lit: &str) -> (r: Option<(Price, usize)>)
    requires
        pos <= s@.len(),
    ensures
        match r {
            Some(v) => read_price(s@, pos as int, lit@) == Some((v.0, v.1 as int)) && v.1
                <= s@.len() && v.0.wf(),
            None => read_price(s@, pos as int, lit@) is None,
        },
{
    if !match_at(s, pos, lit) {
        return None;
    }
    let n = s.unicode_len();
    let ll = lit.unicode_len();
    let (raw, e1) = match read_int_exec(s, pos + ll) {
        None => {
            return None;
        },
        Some(x) => x,
    };
    if !match_at(s, e1, ",\"precision\":") {
        return None;
    }
    let lp = ",\"precision\":".unicode_len();
    assert(e1 + lp <= n);
    let (prec, e2) = match read_uint_exec(s, e1 + lp, MAX_PRECISION as u64) {
        None => {
            return None;
        },
        Some(x) => x,
    };
    if !match_at(s, e2, "}") {
        return None;
    }
    proof {
        reveal_strlit("}");
    }
    Some((Price::from_raw(raw, prec as u8), e2 + 1))
}

/// Reads a fixed-point quantity field, executably.
fn read_quantity_exec(s: &str, pos: usize, lit: &str) -> (r: Option<(Quantity, usize)>)
    requires
        pos <= s@.len(),
    ensures
        match r {
            Some(v) => read_quantity(s@, pos as int, lit@) == Some((v.0, v.1 as int)) && v.1
                <= s@.len() && v.0.wf(),
            None => read_quantity(s@, pos as int, lit@) is None,
        },
{
    if !match_at(s, pos, lit) {
        return None;
    }
    let n = s.unicode_len();
    let ll = lit.unicode_len();
    let (raw, e1) = match read_uint_exec(s, pos + ll, u64::MAX) {
        None => {
            return None;
        },
        Some(x) => x,
    };
    if !match_at(s, e1, ",\"precision\":") {
        return None;
    }
    let lp = ",\"precision\":".unicode_len();
    assert(e1 + lp <= n);
    let (prec, e2) = match read_uint_exec(s, e1 + lp, MAX_PRECISION as u64) {
        None => {
            return None;
        },
        Some(x) => x,
    };
    if !match_at(s, e2, "}") {
        return None;
    }
    proof {
        reveal_strlit("}");
    }
    Some((Quantity::from_raw(raw, prec as u8), e2 + 1))
}

impl Bar {
    /// Renders the canonical document encoding as text.
    #[verifier::rlimit(100)]
    #[verifier::spinoff_prover]
    pub fn to_json_string(&self) -> (r: String)
        requires
            self@.wf(),
        ensures
            r@ == encode_json(self@),
    {
        let mut out = String::new();
        out.append("{\"type\":\"Bar\",\"bar_type\":\"");
        let bt = self.bar_type.to_string();
        out.append(bt.as_str());
        out.append("\",\"open\":{\"raw\":");
        append_price_body(&mut out, &self.open);
        out.append(",\"high\":{\"raw\":");
        append_price_body(&mut out, &self.high);
        out.append(",\"low\":{\"raw\":");
        append_price_body(&mut out, &self.low);
        out.append(",\"close\":{\"raw\":");
        append_price_body(&mut out, &self.close);
        out.append(",\"volume\":{\"raw\":");
        append_quantity_body(&mut out, &self.volume);
        out.append(",\"ts_event\":");
        let t1 = u64_to_string(self.ts_event);
        out.append(t1.as_str());
        out.append(",\"ts_init\":");
        let t2 = u64_to_string(self.ts_init);
        out.append(t2.as_str());
        out.append("}");
        proof {
            assert(out@ =~= encode_json(self@));
        }
        out
    }

    /// Parses the canonical document encoding from text; the result is
    /// exactly what the document decoder assigns to the input.
    pub fn from_json_str(s: &str) -> (r: Result<Bar, DecodeError>)
        ensures
            r matches Ok(b) ==> decode_json(s@) == Some(b@) && b@.wf(),
            r is Err ==> decode_json(s@) is None,
    {
        if !match_at(s, 0, "{\"type\":\"Bar\",\"bar_type\":\"") {
            return Err(DecodeError::Malformed);
        }
        let l0 = "{\"type\":\"Bar\",\"bar_type\":\"".unicode_len();
        let qi = match find_char_from(s, l0, '"') {
            None => {
                return Err(DecodeError::Malformed);
            },
            Some(i) => i,
        };
        let bt_str = s.substring_char(l0, qi);
        let bar_type = match BarType::from_str(bt_str) {
            Err(_) => {
                return Err(DecodeError::Malformed);
            },
            Ok(b) => b,
        };
        let (open, p1) = match read_price_exec(s, qi, "\",\"open\":{\"raw\":") {
            None => {
                return Err(DecodeError::Malformed);
            },
            Some(x) => x,
        };
        let (high, p2) = match read_price_exec(s, p1, ",\"high\":{\"raw\":") {
            None => {
                return Err(DecodeError::Malformed);
            },
            Some(x) => x,
        };
        let (low, p3) = match read_price_exec(s, p2, ",\"low\":{\"raw\":") {
            None => {
                return Err(DecodeError::Malformed);
            },
            Some(x) => x,
        };
        let (close, p4) = match read_price_exec(s, p3, ",\"close\":{\"raw\":") {
            None => {
                return Err(DecodeError::Malformed);
            },
            Some(x) => x,
        };
        let (volume, p5) = match read_quantity_exec(s, p4, ",\"volume\":{\"raw\":") {
            None => {
                return Err(DecodeError::Malformed);
            },
            Some(x) => x,
        };
        if !match_at(s, p5, ",\"ts_event\":") {
            return Err(DecodeError::Malformed);
        }
        let n = s.unicode_len();
        let l6 = ",\"ts_event\":".unicode_len();
        assert(p5 + l6 <= n);
        let (ts_event, e1) = match read_uint_exec(s, p5 + l6, u64::MAX) {
            None => {
                return Err(DecodeError::Malformed);
            },
            Some(x) => x,
        };
        if !match_at(s, e1, ",\"ts_init\":") {
            return Err(DecodeError::Malformed);
        }
        let l7 = ",\"ts_init\":".unicode_len();
        assert(e1 + l7 <= n);
        let (ts_init, e2) = match read_uint_exec(s, e1 + l7, u64::MAX) {
            None => {
                return Err(DecodeError::Malformed);
            },
            Some(x) => x,
        };
        if !match_at(s, e2, "}") {
            return Err(DecodeError::Malformed);
        }
        proof {
            reveal_strlit("}");
            assert(e2 < s@.len());
        }
        if e2 + 1 != n {
            return Err(DecodeError::Malformed);
        }
        Ok(Bar::new(bar_type, open, high, low, close, volume, ts_event, ts_init))
    }
}

/// Two hundred fifty-six to the power `n`.
pub open spec fn pow256(n: nat) -> nat
    decreases n,
{
    if n == 0 {
        1
    } else {
        256 * pow256((n - 1) as nat)
    }
}

/// The big-endian bytes of `x`, exactly `n` of them, most significant
/// first; high digits beyond `n` bytes are dropped.
pub open spec fn be_bytes(x: nat, n: nat) -> Seq<u8>
    decreases n,
{
    if n == 0 {
        Seq::<u8>::empty()
    } else {
        be_bytes(x / 256, (n - 1) as nat) + seq![(x % 256) as u8]
    }
}

/// The numeric value of big-endian bytes.
pub open spec fn be_val(s: Seq<u8>) -> int
    decreases s.len(),
{
    if s.len() == 0 {
        0
    } else {
        be_val(s.drop_last()) * 256 + s.last()
    }
}

pub proof fn lemma_be_val_bounds(s: Seq<u8>)
    ensures
        0 <= be_val(s) < pow256(s.len()),
    decreases s.len(),
{
    if s.len() > 0 {
        lemma_be_val_bounds(s.drop_last());
        assert(be_val(s.drop_last()) * 256 + 256 <= pow256((s.len() - 1) as nat) * 256)
            by (nonlinear_arith)
            requires
                be_val(s.drop_last()) < pow256((s.len() - 1) as nat),
        ;
    }
}

/// Writing a value in `n` bytes and reading them back gives the value,
/// whenever it fits.
pub proof fn lemma_be_bytes_val(x: nat, n: nat)
    requires
        x < pow256(n),
    ensures
        be_bytes(x, n).len() == n,
        be_val(be_bytes(x, n)) == x,
    decreases n,
{
    if n == 0 {
    } else {
        assert(x / 256 < pow256((n - 1) as nat)) by (nonlinear_arith)
            requires
                x < 256 * pow256((n - 1) as nat),
                x >= 0,
        ;
        lemma_be_bytes_val(x / 256, (n - 1) as nat);
        let s = be_bytes(x, n);
        assert(s.drop_last() =~= be_bytes(x / 256, (n - 1) as nat));
        assert(s.last() == (x % 256) as u8);
        assert(be_val(s) == (x / 256) * 256 + x % 256);
        assert((x / 256) * 256 + x % 256 == x) by (nonlinear_arith);
    }
}

pub proof fn lemma_be_bytes_len(x: nat, n: nat)
    ensures
        be_bytes(x, n).len() == n,
    decreases n,
{
    if n > 0 {
        lemma_be_bytes_len(x / 256, (n - 1) as nat);
    }
}

/// Appends the `n`-byte big-endian form of `x`.
fn push_be(out: &mut Vec<u8>, x: u64, n: u8)
    requires
        n <= 8,
    ensures
        final(out)@ == old(out)@ + be_bytes(x as nat, n as nat),
    decreases n,
{
    if n == 0 {
        proof {
            assert(out@ =~= old(out)@ + be_bytes(x as nat, 0));
        }
    } else {
        push_be(out, x / 256, n - 1);
        out.push((x % 256) as u8);
        proof {
            assert(out@ =~= old(out)@ + be_bytes(x as nat, n as nat));
        }
    }
}

/// Reads the 8-byte big-endian number at `pos`.
fn read_be8(data: &Vec<u8>, pos: usize) -> (r: u64)
    requires
        pos + 8 <= data@.len(),
    ensures
        r as int == be_val(data@.subrange(pos as int, pos as int + 8)),
{
    proof {
        reveal_with_fuel(pow256, 10);
    }
    let dn = data.len();
    let mut r: u64 = 0;
    let mut i: usize = 0;
    while i < 8
        invariant
            i <= 8,
            pos + 8 <= dn,
            dn == data@.len(),
            r as int == be_val(data@.subrange(pos as int, pos as int + i as int)),
            r < pow256(i as nat),
        decreases 8 - i,
    {
        proof {
            reveal_with_fuel(pow256, 10);
            let sub = data@.subrange(pos as int, pos as int + i as int + 1);
            assert(sub.drop_last() =~= data@.subrange(pos as int, pos as int + i as int));
            assert(sub.last() == data@[pos as int + i as int]);
            assert(r as int * 256 + 256 <= pow256(i as nat) * 256) by (nonlinear_arith)
                requires
                    r < pow256(i as nat),
            ;
        }
        r = r * 256 + (data[pos + i] as u64);
        i = i + 1;
    }
    proof {
        assert(data@.subrange(pos as int, pos as int + 8) =~= data@.subrange(
            pos as int,
            pos as int + i as int,
        ));
    }
    r
}

/// The bytes of an ASCII character sequence, one byte per character.
pub open spec fn ascii_seq_bytes(s: Seq<char>) -> Seq<u8> {
    Seq::new(s.len(), |i: int| s[i] as u8)
}

/// The characters of a byte sequence, one character per byte.
pub open spec fn chars_of_bytes(b: Seq<u8>) -> Seq<char> {
    Seq::new(b.len(), |i: int| b[i] as char)
}

/// True when every byte is an ASCII code.
pub open spec fn all_bytes_ascii(b: Seq<u8>) -> bool {
    forall|i: int| 0 <= i < b.len() ==> (#[trigger] b[i]) < 128
}

/// The sign byte of a price: 1 for negative, else 0.
pub open spec fn price_sign(p: Price) -> u8 {
    if p.raw < 0 {
        1
    } else {
        0
    }
}

/// The magnitude of a price's raw value.
pub open spec fn price_mag(p: Price) -> nat {
    if p.raw < 0 {
        (-(p.raw as int)) as nat
    } else {
        p.raw as nat
    }
}

/// The ten compact bytes of a price: sign, magnitude, precision.
pub open spec fn price_be(p: Price) -> Seq<u8> {
    seq![price_sign(p)] + be_bytes(price_mag(p), 8) + seq![p.precision]
}

/// The nine compact bytes of a quantity: magnitude, precision.
pub open spec fn quantity_be(q: Quantity) -> Seq<u8> {
    be_bytes(q.raw as nat, 8) + seq![q.precision]
}

/// The compact tail from the timestamps on.
pub open spec fn compact_tail_ts(v: BarView) -> Seq<u8> {
    be_bytes(v.ts_event as nat, 8) + be_bytes(v.ts_init as nat, 8)
}

/// The compact tail from the volume on.
pub open spec fn compact_tail_volume(v: BarView) -> Seq<u8> {
    quantity_be(v.volume) + compact_tail_ts(v)
}

/// The compact tail from the close price on.
pub open spec fn compact_tail_close(v: BarView) -> Seq<u8> {
    price_be(v.close) + compact_tail_volume(v)
}

/// The compact tail from the low price on.
pub open spec fn compact_tail_low(v: BarView) -> Seq<u8> {
    price_be(v.low) + compact_tail_close(v)
}

/// The compact tail from the high price on.
pub open spec fn compact_tail_high(v: BarView) -> Seq<u8> {
    price_be(v.high) + compact_tail_low(v)
}

/// The compact binary encoding: the length-prefixed bar-type text, then the
/// fixed-width fields in order, with no tags.
pub open spec fn encode_compact(v: BarView) -> Seq<u8> {
    be_bytes(bar_type_str(v.bar_type).len(), 8) + ascii_seq_bytes(bar_type_str(v.bar_type))
        + price_be(v.open) + compact_tail_high(v)
}

/// Reads the ten compact bytes of a price at `pos`.
pub open spec fn read_price_be(b: Seq<u8>, pos: int) -> Option<Price> {
    if !(0 <= pos && pos + 10 <= b.len()) {
        None
    } else {
        let sign = b[pos];
        let mag = be_val(b.subrange(pos + 1, pos + 9));
        let prec = b[pos + 9];
        if prec > MAX_PRECISION {
            None
        } else if sign == 0 {
            if mag > i64::MAX {
                None
            } else {
                Some(Price { raw: mag as i64, precision: prec })
            }
        } else if sign == 1 {
            if mag == 0 || mag > 0x8000000000000000 {
                None
            } else {
                Some(Price { raw: (-mag) as i64, precision: prec })
            }
        } else {
            None
        }
    }
}

/// Reads the nine compact bytes of a quantity at `pos`.
pub open spec fn read_quantity_be(b: Seq<u8>, pos: int) -> Option<Quantity> {
    if !(0 <= pos && pos + 9 <= b.len()) {
        None
    } else {
        let mag = be_val(b.subrange(pos, pos + 8));
        let prec = b[pos + 8];
        if prec > MAX_PRECISION {
            None
        } else {
            Some(Quantity { raw: mag as u64, precision: prec })
        }
    }
}

/// The compact decoder: accepts exactly the canonical compact shape.
pub open spec fn decode_compact(b: Seq<u8>) -> Option<BarView> {
    if b.len() < 8 {
        None
    } else {
        let bl = be_val(b.subrange(0, 8));
        if b.len() != 8 + bl + 65 {
            None
        } else {
            let sb = b.subrange(8, 8 + bl);
            if !all_bytes_ascii(sb) {
                None
            } else {
                let bt = parse_bar_type(chars_of_bytes(sb));
                if bt is Err {
                    None
                } else {
                    let p = 8 + bl;
                    match read_price_be(b, p) {
                        None => None,
                        Some(open) => match read_price_be(b, p + 10) {
                            None => None,
                            Some(high) => match read_price_be(b, p + 20) {
                                None => None,
                                Some(low) => match read_price_be(b, p + 30) {
                                    None => None,
                                    Some(close) => match read_quantity_be(b, p + 40) {
                                        None => None,
                                        Some(volume) => Some(
                                            BarView {
                                                bar_type: bt->Ok_0,
                                                open,
                                                high,
                                                low,
                                                close,
                                                volume,
                                                ts_event: be_val(
                                                    b.subrange(p + 49, p + 57),
                                                ) as u64,
                                                ts_init: be_val(b.subrange(p + 57, p + 65)) as u64,
                                            },
                                        ),
                                    },
                                },
                            },
                        },
                    }
                }
            }
        }
    }
}

/// An ASCII character casts to a byte and back without loss.
proof fn lemma_ascii_char_byte(c: char)
    requires
        (c as int) < 128,
    ensures
        ((c as u8) as int) == (c as int),
        ((c as u8) as char) == c,
        (c as u8) < 128,
{
    vstd::utf8::char_is_scalar(c);
    let b = (c as u8);
    assert((b as int) == (c as int));
    assert((b as u32) == (c as u32));
    vstd::utf8::char_u32_cast(c, c as u32);
    assert((b as char) == c);
}

/// ASCII characters map to bytes and back without loss.
proof fn lemma_ascii_bytes_chars(s: Seq<char>)
    requires
        crate::strutil::all_ascii(s),
    ensures
        all_bytes_ascii(ascii_seq_bytes(s)),
        chars_of_bytes(ascii_seq_bytes(s)) == s,
{
    assert forall|i: int| 0 <= i < s.len() implies (#[trigger] ascii_seq_bytes(s)[i]) < 128 by {
        assert((s[i] as int) < 128);
        lemma_ascii_char_byte(s[i]);
        assert(ascii_seq_bytes(s)[i] == s[i] as u8);
    }
    assert(chars_of_bytes(ascii_seq_bytes(s)) =~= s) by {
        assert forall|i: int| 0 <= i < s.len() implies chars_of_bytes(ascii_seq_bytes(s))[i]
            == s[i] by {
            assert((s[i] as int) < 128);
            lemma_ascii_char_byte(s[i]);
            assert(ascii_seq_bytes(s)[i] == s[i] as u8);
            assert(chars_of_bytes(ascii_seq_bytes(s))[i] == (s[i] as u8) as char);
        }
    }
}

/// A compact price field reads back exactly.
proof fn lemma_read_price_be_at(s: Seq<u8>, a: Seq<u8>, p: Price, rest: Seq<u8>)
    requires
        p.wf(),
        s == a + price_be(p) + rest,
    ensures
        read_price_be(s, a.len() as int) == Some(p),
{
    reveal_with_fuel(pow256, 10);
    lemma_be_bytes_len(price_mag(p), 8);
    let pos = a.len() as int;
    assert(s[pos] == price_sign(p));
    assert(s.subrange(pos + 1, pos + 9) =~= be_bytes(price_mag(p), 8));
    assert(s[pos + 9] == p.precision);
    lemma_be_bytes_val(price_mag(p), 8);
}

/// A compact quantity field reads back exactly.
proof fn lemma_read_quantity_be_at(s: Seq<u8>, a: Seq<u8>, q: Quantity, rest: Seq<u8>)
    requires
        q.wf(),
        s == a + quantity_be(q) + rest,
    ensures
        read_quantity_be(s, a.len() as int) == Some(q),
{
    reveal_with_fuel(pow256, 10);
    lemma_be_bytes_len(q.raw as nat, 8);
    let pos = a.len() as int;
    assert(s.subrange(pos, pos + 8) =~= be_bytes(q.raw as nat, 8));
    assert(s[pos + 8] == q.precision);
    lemma_be_bytes_val(q.raw as nat, 8);
}

/// Decoding the compact bytes of a well-formed bar gives the bar back.
#[verifier::rlimit(100)]
#[verifier::spinoff_prover]
pub proof fn lemma_compact_round_trip(v: BarView)
    requires
        v.wf(),
        bar_type_str(v.bar_type).len() <= u64::MAX,
    ensures
        decode_compact(encode_compact(v)) == Some(v),
{
    reveal_with_fuel(pow256, 10);
    let s = encode_compact(v);
    let bts = bar_type_str(v.bar_type);
    let len_b = bts.len();
    lemma_be_bytes_len(len_b, 8);
    lemma_be_bytes_len(price_mag(v.open), 8);
    lemma_be_bytes_len(price_mag(v.high), 8);
    lemma_be_bytes_len(price_mag(v.low), 8);
    lemma_be_bytes_len(price_mag(v.close), 8);
    lemma_be_bytes_len(v.volume.raw as nat, 8);
    lemma_be_bytes_len(v.ts_event as nat, 8);
    lemma_be_bytes_len(v.ts_init as nat, 8);
    assert(s.len() == 8 + len_b + 65);
    assert(s.subrange(0, 8) =~= be_bytes(len_b, 8));
    lemma_be_bytes_val(len_b, 8);
    assert(s.subrange(8, 8 + len_b as int) =~= ascii_seq_bytes(bts));
    lemma_bar_type_str_chars(v.bar_type);
    lemma_ascii_bytes_chars(bts);
    lemma_parse_format_round_trip(v.bar_type);
    let a0 = be_bytes(len_b, 8) + ascii_seq_bytes(bts);
    assert(a0.len() == 8 + len_b);
    assert(s =~= a0 + price_be(v.open) + compact_tail_high(v));
    lemma_read_price_be_at(s, a0, v.open, compact_tail_high(v));
    let a1 = a0 + price_be(v.open);
    assert(a1.len() == 8 + len_b + 10);
    assert(s =~= a1 + price_be(v.high) + compact_tail_low(v));
    lemma_read_price_be_at(s, a1, v.high, compact_tail_low(v));
    let a2 = a1 + price_be(v.high);
    assert(a2.len() == 8 + len_b + 20);
    assert(s =~= a2 + price_be(v.low) + compact_tail_close(v));
    lemma_read_price_be_at(s, a2, v.low, compact_tail_close(v));
    let a3 = a2 + price_be(v.low);
    assert(a3.len() == 8 + len_b + 30);
    assert(s =~= a3 + price_be(v.close) + compact_tail_volume(v));
    lemma_read_price_be_at(s, a3, v.close, compact_tail_volume(v));
    let a4 = a3 + price_be(v.close);
    assert(a4.len() == 8 + len_b + 40);
    assert(s =~= a4 + quantity_be(v.volume) + compact_tail_ts(v));
    lemma_read_quantity_be_at(s, a4, v.volume, compact_tail_ts(v));
    let p = 8 + len_b as int;
    assert(s.subrange(p + 49, p + 57) =~= be_bytes(v.ts_event as nat, 8));
    lemma_be_bytes_val(v.ts_event as nat, 8);
    assert(s.subrange(p + 57, p + 65) =~= be_bytes(v.ts_init as nat, 8));
    lemma_be_bytes_val(v.ts_init as nat, 8);
}

/// The canonical text of a signed integer is ASCII.
proof fn lemma_int_str_ascii(x: int)
    ensures
        all_ascii(int_str(x)),
{
    if x < 0 {
        lemma_dec_digits_val((-x) as nat);
        lemma_all_digits_ascii(dec_digits((-x) as nat));
        assert(all_ascii(seq!['-']));
        lemma_all_ascii_concat(seq!['-'], dec_digits((-x) as nat));
    } else {
        lemma_dec_digits_val(x as nat);
        lemma_all_digits_ascii(dec_digits(x as nat));
    }
}

/// The serialized tail of a fixed-point field is ASCII.
proof fn lemma_json_price_body_ascii(raw: int, precision: nat)
    ensures
        all_ascii(json_price_body(raw, precision)),
{
    reveal_strlit(",\"precision\":");
    reveal_strlit("}");
    lemma_int_str_ascii(raw);
    lemma_dec_digits_val(precision);
    lemma_all_digits_ascii(dec_digits(precision));
    assert(all_ascii(",\"precision\":"@));
    assert(all_ascii("}"@));
    lemma_all_ascii_concat(int_str(raw), ",\"precision\":"@);
    lemma_all_ascii_concat(int_str(raw) + ",\"precision\":"@, dec_digits(precision));
    lemma_all_ascii_concat(int_str(raw) + ",\"precision\":"@ + dec_digits(precision), "}"@);
}

/// The whole canonical document of a well-formed bar is ASCII.
proof fn lemma_encode_json_ascii(v: BarView)
    requires
        v.wf(),
    ensures
        all_ascii(encode_json(v)),
{
    reveal_strlit("{\"type\":\"Bar\",\"bar_type\":\"");
    reveal_strlit("\",\"open\":{\"raw\":");
    reveal_strlit(",\"high\":{\"raw\":");
    reveal_strlit(",\"low\":{\"raw\":");
    reveal_strlit(",\"close\":{\"raw\":");
    reveal_strlit(",\"volume\":{\"raw\":");
    reveal_strlit(",\"ts_event\":");
    reveal_strlit(",\"ts_init\":");
    reveal_strlit("}");
    lemma_bar_type_str_chars(v.bar_type);
    lemma_json_price_body_ascii(v.open.raw as int, v.open.precision as nat);
    lemma_json_price_body_ascii(v.high.raw as int, v.high.precision as nat);
    lemma_json_price_body_ascii(v.low.raw as int, v.low.precision as nat);
    lemma_json_price_body_ascii(v.close.raw as int, v.close.precision as nat);
    lemma_json_price_body_ascii(v.volume.raw as int, v.volume.precision as nat);
    lemma_dec_digits_val(v.ts_event as nat);
    lemma_all_digits_ascii(dec_digits(v.ts_event as nat));
    lemma_dec_digits_val(v.ts_init as nat);
    lemma_all_digits_ascii(dec_digits(v.ts_init as nat));
    let de = dec_digits(v.ts_event as nat);
    let di = dec_digits(v.ts_init as nat);
    assert(all_ascii(",\"ts_event\":"@));
    assert(all_ascii(",\"ts_init\":"@));
    assert(all_ascii("}"@));
    lemma_all_ascii_concat(",\"ts_event\":"@, de);
    lemma_all_ascii_concat(",\"ts_event\":"@ + de, ",\"ts_init\":"@);
    lemma_all_ascii_concat(",\"ts_event\":"@ + de + ",\"ts_init\":"@, di);
    lemma_all_ascii_concat(",\"ts_event\":"@ + de + ",\"ts_init\":"@ + di, "}"@);
    assert(all_ascii(json_after_volume(v)));
    let bv = json_price_body(v.volume.raw as int, v.volume.precision as nat);
    assert(all_ascii(",\"volume\":{\"raw\":"@));
    lemma_all_ascii_concat(",\"volume\":{\"raw\":"@, bv);
    lemma_all_ascii_concat(",\"volume\":{\"raw\":"@ + bv, json_after_volume(v));
    assert(all_ascii(json_after_close(v)));
    let bc = json_price_body(v.close.raw as int, v.close.precision as nat);
    assert(all_ascii(",\"close\":{\"raw\":"@));
    lemma_all_ascii_concat(",\"close\":{\"raw\":"@, bc);
    lemma_all_ascii_concat(",\"close\":{\"raw\":"@ + bc, json_after_close(v));
    assert(all_ascii(json_after_low(v)));
    let bl = json_price_body(v.low.raw as int, v.low.precision as nat);
    assert(all_ascii(",\"low\":{\"raw\":"@));
    lemma_all_ascii_concat(",\"low\":{\"raw\":"@, bl);
    lemma_all_ascii_concat(",\"low\":{\"raw\":"@ + bl, json_after_low(v));
    assert(all_ascii(json_after_high(v)));
    let bh = json_price_body(v.high.raw as int, v.high.precision as nat);
    assert(all_ascii(",\"high\":{\"raw\":"@));
    lemma_all_ascii_concat(",\"high\":{\"raw\":"@, bh);
    lemma_all_ascii_concat(",\"high\":{\"raw\":"@ + bh, json_after_high(v));
    assert(all_ascii(json_after_open(v)));
    let bo = json_price_body(v.open.raw as int, v.open.precision as nat);
    let bts = bar_type_str(v.bar_type);
    assert(all_ascii("{\"type\":\"Bar\",\"bar_type\":\""@));
    assert(all_ascii("\",\"open\":{\"raw\":"@));
    lemma_all_ascii_concat("{\"type\":\"Bar\",\"bar_type\":\""@, bts);
    lemma_all_ascii_concat("{\"type\":\"Bar\",\"bar_type\":\""@ + bts, "\",\"open\":{\"raw\":"@);
    lemma_all_ascii_concat(
        "{\"type\":\"Bar\",\"bar_type\":\""@ + bts + "\",\"open\":{\"raw\":"@,
        bo,
    );
    lemma_all_ascii_concat(
        "{\"type\":\"Bar\",\"bar_type\":\""@ + bts + "\",\"open\":{\"raw\":"@ + bo,
        json_after_open(v),
    );
}

/// The document encoding as bytes: one byte per ASCII character.
pub open spec fn encode_json_bytes(v: BarView) -> Seq<u8> {
    ascii_seq_bytes(encode_json(v))
}

/// The document decoder on bytes: ASCII bytes are read as characters, and
/// anything else is rejected.
pub open spec fn decode_json_bytes(b: Seq<u8>) -> Option<BarView> {
    if all_bytes_ascii(b) {
        decode_json(chars_of_bytes(b))
    } else {
        None
    }
}

/// Decoding the canonical document bytes of a well-formed bar gives the bar
/// back.
pub proof fn lemma_json_bytes_round_trip(v: BarView)
    requires
        v.wf(),
    ensures
        decode_json_bytes(encode_json_bytes(v)) == Some(v),
{
    lemma_encode_json_ascii(v);
    lemma_ascii_bytes_chars(encode_json(v));
    lemma_json_round_trip(v);
}

/// Relies on `String::from_utf8`: a sequence of ASCII bytes is valid UTF-8
/// and decodes to the character with the same code for each byte.
#[verifier::external_body]
fn string_from_ascii(v: Vec<u8>) -> (r: String)
    requires
        forall|i: int| 0 <= i < v@.len() ==> v@[i] < 128,
    ensures
        r@ == chars_of_bytes(v@),
{
    String::from_utf8(v).unwrap()
}

/// Appends the ten compact bytes of a price.
fn push_price_be(out: &mut Vec<u8>, p: &Price)
    requires
        p.wf(),
    ensures
        final(out)@ == old(out)@ + price_be(*p),
{
    if p.raw < 0 {
        out.push(1);
    } else {
        out.push(0);
    }
    let mag: u64 = if p.raw >= 0 {
        p.raw as u64
    } else {
        ((-(p.raw as i128)) as u64)
    };
    push_be(out, mag, 8);
    out.push(p.precision);
    proof {
        assert(out@ =~= old(out)@ + price_be(*p));
    }
}

/// Appends the nine compact bytes of a quantity.
fn push_quantity_be(out: &mut Vec<u8>, q: &Quantity)
    requires
        q.wf(),
    ensures
        final(out)@ == old(out)@ + quantity_be(*q),
{
    push_be(out, q.raw, 8);
    out.push(q.precision);
    proof {
        assert(out@ =~= old(out)@ + quantity_be(*q));
    }
}

/// Reads the ten compact bytes of a price, executably.
fn read_price_be_exec(data: &Vec<u8>, pos: usize) -> (r: Option<Price>)
    requires
        pos + 10 <= data@.len(),
    ensures
        r == read_price_be(data@, pos as int),
        r matches Some(p) ==> p.wf(),
{
    let _len = data.len();
    let sign = data[pos];
    let mag = read_be8(data, pos + 1);
    let prec = data[pos + 9];
    if prec > MAX_PRECISION {
        None
    } else if sign == 0 {
        if mag > 0x7fffffffffffffffu64 {
            None
        } else {
            Some(Price::from_raw(mag as i64, prec))
        }
    } else if sign == 1 {
        if mag == 0 || mag > 0x8000000000000000u64 {
            None
        } else {
            Some(Price::from_raw((-(mag as i128)) as i64, prec))
        }
    } else {
        None
    }
}

/// Reads the nine compact bytes of a quantity, executably.
fn read_quantity_be_exec(data: &Vec<u8>, pos: usize) -> (r: Option<Quantity>)
    requires
        pos + 9 <= data@.len(),
    ensures
        r == read_quantity_be(data@, pos as int),
        r matches Some(q) ==> q.wf(),
{
    let _len = data.len();
    let mag = read_be8(data, pos);
    let prec = data[pos + 8];
    if prec > MAX_PRECISION {
        None
    } else {
        Some(Quantity::from_raw(mag, prec))
    }
}

impl Bar {
    /// The document encoding as bytes.
    pub fn as_json_bytes(&self) -> (r: Vec<u8>)
        requires
            self@.wf(),
        ensures
            r@ == encode_json_bytes(self@),
    {
        let js = self.to_json_string();
        proof {
            lemma_encode_json_ascii(self@);
        }
        let sref = js.as_str();
        proof {
            vstd::string::is_ascii_spec_bytes(sref);
            assert(vstd::string::is_ascii(sref)) by {
                assert forall|i: int|
                    0 <= i < sref@.len() implies '\0' <= #[trigger] sref@[i] <= '\u{7f}' by {
                    lemma_ascii_char_byte(sref@[i]);
                    vstd::utf8::char_is_scalar(sref@[i]);
                }
            }
        }
        let out = sref.as_bytes_vec();
        proof {
            assert(out@ =~= encode_json_bytes(self@));
        }
        out
    }

    /// Decodes the document encoding from bytes; the result is exactly what
    /// the document decoder assigns to the payload.
    pub fn from_json_bytes(data: Vec<u8>) -> (r: Result<Bar, DecodeError>)
        ensures
            r matches Ok(b) ==> decode_json_bytes(data@) == Some(b@) && b@.wf(),
            r is Err ==> decode_json_bytes(data@) is None,
    {
        let n = data.len();
        let mut i: usize = 0;
        while i < n
            invariant
                i <= n,
                n == data@.len(),
                forall|j: int| 0 <= j < i ==> (#[trigger] data@[j]) < 128,
            decreases n - i,
        {
            if data[i] >= 128 {
                assert(!all_bytes_ascii(data@));
                return Err(DecodeError::Malformed);
            }
            i = i + 1;
        }
        let s = string_from_ascii(data);
        Bar::from_json_str(s.as_str())
    }

    /// The compact binary encoding as bytes.
    pub fn as_compact_bytes(&self) -> (r: Vec<u8>)
        requires
            self@.wf(),
        ensures
            r@ == encode_compact(self@),
    {
        let mut out: Vec<u8> = Vec::new();
        let bt = self.bar_type.to_string();
        let n = bt.as_str().unicode_len();
        push_be(&mut out, n as u64, 8);
        proof {
            lemma_bar_type_str_chars(self@.bar_type);
        }
        let sref = bt.as_str();
        proof {
            vstd::string::is_ascii_spec_bytes(sref);
            assert(vstd::string::is_ascii(sref)) by {
                assert forall|i: int|
                    0 <= i < sref@.len() implies '\0' <= #[trigger] sref@[i] <= '\u{7f}' by {
                    lemma_ascii_char_byte(sref@[i]);
                    vstd::utf8::char_is_scalar(sref@[i]);
                }
            }
        }
        let bb = sref.as_bytes_vec();
        proof {
            assert(bb@ =~= ascii_seq_bytes(bar_type_str(self@.bar_type)));
        }
        let m = bb.len();
        let mut i: usize = 0;
        while i < m
            invariant
                i <= m,
                m == bb@.len(),
                out@ == be_bytes(bar_type_str(self@.bar_type).len(), 8) + bb@.subrange(
                    0,
                    i as int,
                ),
            decreases m - i,
        {
            out.push(bb[i]);
            proof {
                assert(bb@.subrange(0, i as int + 1) =~= bb@.subrange(0, i as int) + seq![
                    bb@[i as int],
                ]);
            }
            i = i + 1;
        }
        proof {
            assert(bb@.subrange(0, m as int) =~= bb@);
        }
        push_price_be(&mut out, &self.open);
        push_price_be(&mut out, &self.high);
        push_price_be(&mut out, &self.low);
        push_price_be(&mut out, &self.close);
        push_quantity_be(&mut out, &self.volume);
        push_be(&mut out, self.ts_event, 8);
        push_be(&mut out, self.ts_init, 8);
        proof {
            assert(out@ =~= encode_compact(self@));
        }
        out
    }

    /// Decodes the compact binary encoding; the result is exactly what the
    /// compact decoder assigns to the payload.
    pub fn from_compact_bytes(data: &Vec<u8>) -> (r: Result<Bar, DecodeError>)
        ensures
            r matches Ok(b) ==> decode_compact(data@) == Some(b@) && b@.wf(),
            r is Err ==> decode_compact(data@) is None,
    {
        let dn = data.len();
        if dn < 8 {
            return Err(DecodeError::Malformed);
        }
        let bl64 = read_be8(data, 0);
        if (dn as u128) != 8 + (bl64 as u128) + 65 {
            return Err(DecodeError::Malformed);
        }
        let bl = bl64 as usize;
        let mut sv: Vec<u8> = Vec::new();
        let mut i: usize = 0;
        while i < bl
            invariant
                i <= bl,
                bl + 73 == dn,
                dn == data@.len(),
                sv@ == data@.subrange(8, 8 + i as int),
                forall|j: int| 0 <= j < i ==> (#[trigger] sv@[j]) < 128,
            decreases bl - i,
        {
            let b = data[8 + i];
            if b >= 128 {
                proof {
                    assert(data@.subrange(8, 8 + bl as int)[i as int] == b);
                    assert(!all_bytes_ascii(data@.subrange(8, 8 + bl as int)));
                }
                return Err(DecodeError::Malformed);
            }
            sv.push(b);
            proof {
                assert(data@.subrange(8, 8 + i as int + 1) =~= data@.subrange(8, 8 + i as int)
                    + seq![data@[8 + i as int]]);
            }
            i = i + 1;
        }
        proof {
            assert(sv@ =~= data@.subrange(8, 8 + bl as int));
            assert(all_bytes_ascii(sv@));
        }
        let st = string_from_ascii(sv);
        let bar_type = match BarType::from_str(st.as_str()) {
            Err(_) => {
                return Err(DecodeError::Malformed);
            },
            Ok(b) => b,
        };
        let p = 8 + bl;
        let open = match read_price_be_exec(data, p) {
            None => {
                return Err(DecodeError::Malformed);
            },
            Some(x) => x,
        };
        let high = match read_price_be_exec(data, p + 10) {
            None => {
                return Err(DecodeError::Malformed);
            },
            Some(x) => x,
        };
        let low = match read_price_be_exec(data, p + 20) {
            None => {
                return Err(DecodeError::Malformed);
            },
            Some(x) => x,
        };
        let close = match read_price_be_exec(data, p + 30) {
            None => {
                return Err(DecodeError::Malformed);
            },
            Some(x) => x,
        };
        let volume = match read_quantity_be_exec(data, p + 40) {
            None => {
                return Err(DecodeError::Malformed);
            },
            Some(x) => x,
        };
        let ts_event = read_be8(data, p + 49);
        let ts_init = read_be8(data, p + 57);
        Ok(Bar::new(bar_type, open, high, low, close, volume, ts_event, ts_init))
    }
}

} // verus!
