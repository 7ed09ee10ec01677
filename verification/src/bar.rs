//! Bar specifications and bar types: the canonical `instrument-step-method-
//! price_type-source` grammar, its strict parser with positioned errors, the
//! canonical formatter, and the total order on bar types.

use vstd::prelude::*;
use crate::enums::{
    agg_code, agg_of_str, agg_str, lemma_agg_token_round_trip, lemma_price_type_token_round_trip,
    lemma_source_token_round_trip, price_type_code, price_type_of_str, price_type_str, source_code,
    source_of_str, source_str, AggregationSource, BarAggregation, PriceType,
};
use crate::identifiers::{
    parse_instrument, lemma_instrument_round_trip, lemma_instrument_order_total, valid_id_char,
    InstrumentId, InstrumentIdView,
};
use crate::strutil::{
    after_last, all_digits, before_last, dec_digits, digits_val, find_last, has_char,
    lemma_dec_digits_no_char, lemma_dec_digits_val, lemma_last_index_of_props,
    lemma_split_at_last_concat, parse_u64, u64_to_string,
};
use crate::strutil::{all_ascii, lemma_all_ascii_concat, lemma_all_digits_ascii, lemma_has_char_concat};
use crate::types::{decimal_str, unsigned_decimal_str, Price, Quantity};

verus! {

/// A bar aggregation specification: a step, an aggregation method and a
/// price type, ordered lexicographically in that field order.
#[derive(Clone, Copy, PartialEq, Eq, Structural, Debug, Hash)]
pub struct BarSpecification {
    /// The step for binning samples for bar aggregation.
    pub step: usize,
    /// The type of bar aggregation.
    pub aggregation: BarAggregation,
    /// The price type to use for aggregation.
    pub price_type: PriceType,
}

/// Canonical text of a bar specification: `step-METHOD-PRICE_TYPE`.
pub open spec fn bar_spec_str(s: BarSpecification) -> Seq<char> {
    dec_digits(s.step as nat) + seq!['-'] + agg_str(s.aggregation) + seq!['-'] + price_type_str(
        s.price_type,
    )
}

/// Lexicographic order on `(step, aggregation, price_type)`.
pub open spec fn bar_spec_lt(a: BarSpecification, b: BarSpecification) -> bool {
    ||| a.step < b.step
    ||| (a.step == b.step && agg_code(a.aggregation) < agg_code(b.aggregation))
    ||| (a.step == b.step && a.aggregation == b.aggregation && price_type_code(a.price_type)
        < price_type_code(b.price_type))
}

impl BarSpecification {
    /// Renders the canonical text `step-METHOD-PRICE_TYPE`.
    pub fn to_string(&self) -> (r: String)
        ensures
            r@ == bar_spec_str(*self),
    {
        let mut out = u64_to_string(self.step as u64);
        proof {
            reveal_strlit("-");
        }
        out.append("-");
        out.append(self.aggregation.as_str());
        out.append("-");
        out.append(self.price_type.as_str());
        proof {
            assert(out@ =~= bar_spec_str(*self)) by {
                reveal_strlit("-");
            }
        }
        out
    }
}

impl PartialOrd for BarSpecification {
    fn partial_cmp(&self, other: &BarSpecification) -> (r: Option<core::cmp::Ordering>) {
        if self.step < other.step {
            Some(core::cmp::Ordering::Less)
        } else if self.step > other.step {
            Some(core::cmp::Ordering::Greater)
        } else {
            let ca = self.aggregation.code();
            let cb = other.aggregation.code();
            if ca < cb {
                Some(core::cmp::Ordering::Less)
            } else if ca > cb {
                Some(core::cmp::Ordering::Greater)
            } else {
                proof {
                    lemma_agg_code_inj(self.aggregation, other.aggregation);
                }
                let pa = self.price_type.code();
                let pb = other.price_type.code();
                if pa < pb {
                    Some(core::cmp::Ordering::Less)
                } else if pa > pb {
                    Some(core::cmp::Ordering::Greater)
                } else {
                    proof {
                        lemma_price_type_code_inj(self.price_type, other.price_type);
                    }
                    Some(core::cmp::Ordering::Equal)
                }
            }
        }
    }
}

impl vstd::std_specs::cmp::PartialOrdSpecImpl for BarSpecification {
    open spec fn obeys_partial_cmp_spec() -> bool {
        true
    }

    open spec fn partial_cmp_spec(&self, other: &BarSpecification) -> Option<core::cmp::Ordering> {
        if bar_spec_lt(*self, *other) {
            Some(core::cmp::Ordering::Less)
        } else if bar_spec_lt(*other, *self) {
            Some(core::cmp::Ordering::Greater)
        } else {
            Some(core::cmp::Ordering::Equal)
        }
    }
}

proof fn lemma_agg_code_inj(a: BarAggregation, b: BarAggregation)
    requires
        agg_code(a) == agg_code(b),
    ensures
        a == b,
{
}

proof fn lemma_price_type_code_inj(a: PriceType, b: PriceType)
    requires
        price_type_code(a) == price_type_code(b),
    ensures
        a == b,
{
}

/// The mathematical value of a bar type.
pub struct BarTypeView {
    pub instrument_id: InstrumentIdView,
    pub spec: BarSpecification,
    pub aggregation_source: AggregationSource,
}

impl BarTypeView {
    /// Well-formedness: the instrument identifier is well formed.
    pub open spec fn wf(self) -> bool {
        self.instrument_id.wf()
    }

    /// Lexicographic order on `(instrument_id, spec, aggregation_source)`.
    pub open spec fn lt(self, other: BarTypeView) -> bool {
        ||| self.instrument_id.lt(other.instrument_id)
        ||| (self.instrument_id == other.instrument_id && bar_spec_lt(self.spec, other.spec))
        ||| (self.instrument_id == other.instrument_id && self.spec == other.spec && source_code(
            self.aggregation_source,
        ) < source_code(other.aggregation_source))
    }
}

/// Canonical text of a bar type: `instrument-step-METHOD-PRICE_TYPE-SOURCE`.
pub open spec fn bar_type_str(v: BarTypeView) -> Seq<char> {
    v.instrument_id.to_seq() + seq!['-'] + bar_spec_str(v.spec) + seq!['-'] + source_str(
        v.aggregation_source,
    )
}

/// The mathematical value of a positioned parse error.
pub struct BarTypeParseErrorView {
    pub input: Seq<char>,
    pub token: Seq<char>,
    pub position: int,
}

/// A failed bar-type parse: the whole input, the offending token (empty for
/// a wrong field count) and the zero-based field position that failed.
#[derive(Debug)]
pub struct BarTypeParseError {
    input: String,
    token: String,
    position: usize,
}

impl View for BarTypeParseError {
    type V = BarTypeParseErrorView;

    closed spec fn view(&self) -> BarTypeParseErrorView {
        BarTypeParseErrorView {
            input: self.input@,
            token: self.token@,
            position: self.position as int,
        }
    }
}

/// The error raised when the input does not split into exactly five fields.
pub open spec fn structure_error(s: Seq<char>) -> BarTypeParseErrorView {
    BarTypeParseErrorView { input: s, token: Seq::<char>::empty(), position: 0 }
}

/// The error raised when field `position` holds the unparsable `token`.
pub open spec fn token_error(s: Seq<char>, token: Seq<char>, position: int) -> BarTypeParseErrorView {
    BarTypeParseErrorView { input: s, token: token, position: position }
}

/// The grammar: split the input on `-` from the right into five fields, then
/// read the instrument, step, method, price type and source in order. The
/// first failing field decides the error.
pub open spec fn parse_bar_type(s: Seq<char>) -> Result<BarTypeView, BarTypeParseErrorView> {
    if !has_char(s, '-') {
        Err(structure_error(s))
    } else {
        let r1 = before_last(s, '-');
        let t4 = after_last(s, '-');
        if !has_char(r1, '-') {
            Err(structure_error(s))
        } else {
            let r2 = before_last(r1, '-');
            let t3 = after_last(r1, '-');
            if !has_char(r2, '-') {
                Err(structure_error(s))
            } else {
                let r3 = before_last(r2, '-');
                let t2 = after_last(r2, '-');
                if !has_char(r3, '-') {
                    Err(structure_error(s))
                } else {
                    let t0 = before_last(r3, '-');
                    let t1 = after_last(r3, '-');
                    parse_bar_type_fields(s, t0, t1, t2, t3, t4)
                }
            }
        }
    }
}

/// Reads the five fields of the grammar, left to right.
pub open spec fn parse_bar_type_fields(
    s: Seq<char>,
    t0: Seq<char>,
    t1: Seq<char>,
    t2: Seq<char>,
    t3: Seq<char>,
    t4: Seq<char>,
) -> Result<BarTypeView, BarTypeParseErrorView> {
    if parse_instrument(t0) is None {
        Err(token_error(s, t0, 0))
    } else if !(t1.len() > 0 && all_digits(t1) && digits_val(t1) <= usize::MAX as int) {
        Err(token_error(s, t1, 1))
    } else if agg_of_str(t2) is None {
        Err(token_error(s, t2, 2))
    } else if price_type_of_str(t3) is None {
        Err(token_error(s, t3, 3))
    } else if source_of_str(t4) is None {
        Err(token_error(s, t4, 4))
    } else {
        Ok(
            BarTypeView {
                instrument_id: parse_instrument(t0)->Some_0,
                spec: BarSpecification {
                    step: digits_val(t1) as usize,
                    aggregation: agg_of_str(t2)->Some_0,
                    price_type: price_type_of_str(t3)->Some_0,
                },
                aggregation_source: source_of_str(t4)->Some_0,
            },
        )
    }
}

/// A bar type: an instrument identifier, a bar specification and an
/// aggregation source, with the canonical text form of the grammar.
#[derive(Clone, Debug, Hash)]
pub struct BarType {
    /// The instrument the bar series is built over.
    pub instrument_id: InstrumentId,
    /// The bar specification.
    pub spec: BarSpecification,
    /// Whether the series is aggregated externally or internally.
    pub aggregation_source: AggregationSource,
}

impl View for BarType {
    type V = BarTypeView;

    open spec fn view(&self) -> BarTypeView {
        BarTypeView {
            instrument_id: self.instrument_id@,
            spec: self.spec,
            aggregation_source: self.aggregation_source,
        }
    }
}

impl BarType {
    /// Parses the canonical text form; the result is exactly what the
    /// grammar assigns to the input.
    pub fn from_str(s: &str) -> (r: Result<BarType, BarTypeParseError>)
        ensures
            r matches Ok(bt) ==> parse_bar_type(s@) == Ok::<BarTypeView, BarTypeParseErrorView>(
                bt@,
            ) && bt@.wf(),
            r matches Err(e) ==> parse_bar_type(s@) == Err::<BarTypeView, BarTypeParseErrorView>(
                e@,
            ),
    {
        let n = s.unicode_len();
        let h1 = match find_last(s, '-') {
            None => {
                return Err(structure_err(s));
            },
            Some(i) => i,
        };
        proof {
            lemma_last_index_of_props(s@, '-');
        }
        let rest1 = s.substring_char(0, h1);
        let t4 = s.substring_char(h1 + 1, n);
        let h2 = match find_last(rest1, '-') {
            None => {
                return Err(structure_err(s));
            },
            Some(i) => i,
        };
        proof {
            lemma_last_index_of_props(rest1@, '-');
        }
        let n1 = rest1.unicode_len();
        let rest2 = rest1.substring_char(0, h2);
        let t3 = rest1.substring_char(h2 + 1, n1);
        let h3 = match find_last(rest2, '-') {
            None => {
                return Err(structure_err(s));
            },
            Some(i) => i,
        };
        proof {
            lemma_last_index_of_props(rest2@, '-');
        }
        let n2 = rest2.unicode_len();
        let rest3 = rest2.substring_char(0, h3);
        let t2 = rest2.substring_char(h3 + 1, n2);
        let h4 = match find_last(rest3, '-') {
            None => {
                return Err(structure_err(s));
            },
            Some(i) => i,
        };
        proof {
            lemma_last_index_of_props(rest3@, '-');
        }
        let n3 = rest3.unicode_len();
        let t0 = rest3.substring_char(0, h4);
        let t1 = rest3.substring_char(h4 + 1, n3);

        let instrument_id = match InstrumentId::from_str(t0) {
            None => {
                return Err(token_err(s, t0, 0));
            },
            Some(id) => id,
        };
        let step_wide = match parse_u64(t1) {
            None => {
                return Err(token_err(s, t1, 1));
            },
            Some(v) => v,
        };
        if step_wide > usize::MAX as u64 {
            return Err(token_err(s, t1, 1));
        }
        let step = step_wide as usize;
        let aggregation = match BarAggregation::from_token(t2) {
            None => {
                return Err(token_err(s, t2, 2));
            },
            Some(a) => a,
        };
        let price_type = match PriceType::from_token(t3) {
            None => {
                return Err(token_err(s, t3, 3));
            },
            Some(p) => p,
        };
        let aggregation_source = match AggregationSource::from_token(t4) {
            None => {
                return Err(token_err(s, t4, 4));
            },
            Some(src) => src,
        };
        Ok(
            BarType {
                instrument_id,
                spec: BarSpecification { step, aggregation, price_type },
                aggregation_source,
            },
        )
    }

    /// Renders the canonical text form of the grammar.
    pub fn to_string(&self) -> (r: String)
        ensures
            r@ == bar_type_str(self@),
    {
        let mut out = self.instrument_id.to_string();
        proof {
            reveal_strlit("-");
        }
        out.append("-");
        let spec_part = self.spec.to_string();
        out.append(spec_part.as_str());
        out.append("-");
        out.append(self.aggregation_source.as_str());
        proof {
            assert(out@ =~= bar_type_str(self@)) by {
                reveal_strlit("-");
            }
        }
        out
    }
}

/// Builds the wrong-field-count error.
fn structure_err(s: &str) -> (r: BarTypeParseError)
    ensures
        r@ == structure_error(s@),
{
    BarTypeParseError { input: s.to_owned(), token: String::new(), position: 0 }
}

/// Builds a positioned token error.
fn token_err(s: &str, token: &str, position: usize) -> (r: BarTypeParseError)
    ensures
        r@ == token_error(s@, token@, position as int),
{
    BarTypeParseError { input: s.to_owned(), token: token.to_owned(), position }
}

impl BarTypeParseError {
    /// The whole input that failed to parse.
    pub fn input(&self) -> (r: &str)
        ensures
            r@ == self@.input,
    {
        self.input.as_str()
    }

    /// The offending token; empty when the field count was wrong.
    pub fn token(&self) -> (r: &str)
        ensures
            r@ == self@.token,
    {
        self.token.as_str()
    }

    /// The zero-based field position that failed.
    pub fn position(&self) -> (r: usize)
        ensures
            r as int == self@.position,
    {
        self.position
    }

    /// The human-readable description of the failure.
    pub fn message(&self) -> (r: String)
        ensures
            r@ == error_message_str(self@),
    {
        proof {
            reveal_strlit("Error parsing `BarType` from '");
            reveal_strlit("', invalid token: '");
            reveal_strlit("' at position ");
        }
        let mut out = String::new();
        out.append("Error parsing `BarType` from '");
        out.append(self.input.as_str());
        out.append("', invalid token: '");
        out.append(self.token.as_str());
        out.append("' at position ");
        let num = u64_to_string(self.position as u64);
        out.append(num.as_str());
        proof {
            assert(out@ =~= error_message_str(self@));
        }
        out
    }
}

/// The text of a parse-error message.
pub open spec fn error_message_str(e: BarTypeParseErrorView) -> Seq<char> {
    "Error parsing `BarType` from '"@ + e.input + "', invalid token: '"@ + e.token
        + "' at position "@ + dec_digits(e.position as nat)
}

impl PartialEq for BarType {
    fn eq(&self, other: &BarType) -> (r: bool) {
        self.instrument_id == other.instrument_id && self.spec == other.spec
            && self.aggregation_source == other.aggregation_source
    }
}

impl vstd::std_specs::cmp::PartialEqSpecImpl for BarType {
    open spec fn obeys_eq_spec() -> bool {
        true
    }

    open spec fn eq_spec(&self, other: &BarType) -> bool {
        self@ == other@
    }
}

impl PartialOrd for BarType {
    fn partial_cmp(&self, other: &BarType) -> (r: Option<core::cmp::Ordering>) {
        proof {
            lemma_bar_type_order_total(self@, other@);
            lemma_instrument_order_total(self@.instrument_id, other@.instrument_id);
        }
        match self.instrument_id.partial_cmp(&other.instrument_id) {
            Some(core::cmp::Ordering::Equal) => {
                match self.spec.partial_cmp(&other.spec) {
                    Some(core::cmp::Ordering::Equal) => {
                        let ca = self.aggregation_source.code();
                        let cb = other.aggregation_source.code();
                        if ca < cb {
                            Some(core::cmp::Ordering::Less)
                        } else if ca > cb {
                            Some(core::cmp::Ordering::Greater)
                        } else {
                            proof {
                                lemma_source_code_inj(
                                    self.aggregation_source,
                                    other.aggregation_source,
                                );
                            }
                            Some(core::cmp::Ordering::Equal)
                        }
                    },
                    other_cmp => other_cmp,
                }
            },
            other_cmp => other_cmp,
        }
    }
}

impl vstd::std_specs::cmp::PartialOrdSpecImpl for BarType {
    open spec fn obeys_partial_cmp_spec() -> bool {
        true
    }

    open spec fn partial_cmp_spec(&self, other: &BarType) -> Option<core::cmp::Ordering> {
        if self@.lt(other@) {
            Some(core::cmp::Ordering::Less)
        } else if other@.lt(self@) {
            Some(core::cmp::Ordering::Greater)
        } else {
            Some(core::cmp::Ordering::Equal)
        }
    }
}

proof fn lemma_source_code_inj(a: AggregationSource, b: AggregationSource)
    requires
        source_code(a) == source_code(b),
    ensures
        a == b,
{
}

/// The order on bar types is total: for distinct values exactly one
/// direction holds, and it agrees with the field-by-field lexicographic
/// comparison of `(instrument_id, spec, aggregation_source)`.
pub proof fn lemma_bar_type_order_total(a: BarTypeView, b: BarTypeView)
    ensures
        a.lt(b) || b.lt(a) || a == b,
        a.lt(b) ==> !b.lt(a) && a != b,
        b.lt(a) ==> !a.lt(b) && a != b,
        a == b ==> !a.lt(b) && !b.lt(a),
{
    lemma_instrument_order_total(a.instrument_id, b.instrument_id);
}

/// The order on bar types is transitive.
pub proof fn lemma_bar_type_order_trans(a: BarTypeView, b: BarTypeView, c: BarTypeView)
    requires
        a.lt(b),
        b.lt(c),
    ensures
        a.lt(c),
{
    lemma_instrument_order_total(a.instrument_id, b.instrument_id);
    lemma_instrument_order_total(b.instrument_id, c.instrument_id);
    lemma_instrument_order_total(a.instrument_id, c.instrument_id);
    if a.instrument_id.lt(b.instrument_id) && b.instrument_id.lt(c.instrument_id) {
        crate::identifiers::lemma_instrument_order_trans(
            a.instrument_id,
            b.instrument_id,
            c.instrument_id,
        );
    }
}

/// Parsing the canonical text of a well-formed bar type gives the bar type
/// back.
pub proof fn lemma_parse_format_round_trip(v: BarTypeView)
    requires
        v.wf(),
    ensures
        parse_bar_type(bar_type_str(v)) == Ok::<BarTypeView, BarTypeParseErrorView>(v),
{
    let t0 = v.instrument_id.to_seq();
    let t1 = dec_digits(v.spec.step as nat);
    let t2 = agg_str(v.spec.aggregation);
    let t3 = price_type_str(v.spec.price_type);
    let t4 = source_str(v.aggregation_source);
    let s = bar_type_str(v);
    lemma_agg_token_round_trip(v.spec.aggregation);
    lemma_price_type_token_round_trip(v.spec.price_type);
    lemma_source_token_round_trip(v.aggregation_source);
    lemma_dec_digits_val(v.spec.step as nat);
    lemma_dec_digits_no_char(v.spec.step as nat, '-');
    let a1 = t0 + seq!['-'] + t1 + seq!['-'] + t2 + seq!['-'] + t3;
    let a2 = t0 + seq!['-'] + t1 + seq!['-'] + t2;
    let a3 = t0 + seq!['-'] + t1;
    assert(s =~= a1 + seq!['-'] + t4);
    lemma_split_at_last_concat(a1, '-', t4);
    assert(a1 =~= a2 + seq!['-'] + t3);
    lemma_split_at_last_concat(a2, '-', t3);
    assert(a2 =~= a3 + seq!['-'] + t2);
    lemma_split_at_last_concat(a3, '-', t2);
    lemma_split_at_last_concat(t0, '-', t1);
    lemma_instrument_round_trip(v.instrument_id);
}

/// Round trip as seen from the text side: every string the formatter can
/// produce parses back, and formatting the parse result gives the string.
pub proof fn lemma_format_parse_round_trip(s: Seq<char>, v: BarTypeView)
    requires
        v.wf(),
        s == bar_type_str(v),
    ensures
        parse_bar_type(s) matches Ok(w) && bar_type_str(w) == s,
{
    lemma_parse_format_round_trip(v);
}

/// The canonical text of a well-formed bar type is ASCII and holds no
/// quote, so it can stand between delimiters in an encoded document.
pub proof fn lemma_bar_type_str_chars(v: BarTypeView)
    requires
        v.wf(),
    ensures
        all_ascii(bar_type_str(v)),
        !has_char(bar_type_str(v), '"'),
{
    let id = v.instrument_id;
    let digits = dec_digits(v.spec.step as nat);
    let agg = agg_str(v.spec.aggregation);
    let pt = price_type_str(v.spec.price_type);
    let src = source_str(v.aggregation_source);
    lemma_agg_token_round_trip(v.spec.aggregation);
    lemma_price_type_token_round_trip(v.spec.price_type);
    lemma_source_token_round_trip(v.aggregation_source);
    lemma_dec_digits_val(v.spec.step as nat);
    lemma_all_digits_ascii(digits);
    assert(all_ascii(id.symbol) && !has_char(id.symbol, '"')) by {
        assert(forall|i: int|
            0 <= i < id.symbol.len() ==> valid_id_char(#[trigger] id.symbol[i]));
    }
    assert(all_ascii(id.venue) && !has_char(id.venue, '"')) by {
        assert(forall|i: int| 0 <= i < id.venue.len() ==> valid_id_char(#[trigger] id.venue[i]));
    }
    let dash = seq!['-'];
    let dot = seq!['.'];
    assert(all_ascii(dash) && !has_char(dash, '"'));
    assert(all_ascii(dot) && !has_char(dot, '"'));
    lemma_all_ascii_concat(id.symbol, dot);
    lemma_has_char_concat(id.symbol, dot, '"');
    lemma_all_ascii_concat(id.symbol + dot, id.venue);
    lemma_has_char_concat(id.symbol + dot, id.venue, '"');
    let p1 = id.to_seq();
    lemma_all_ascii_concat(p1, dash);
    lemma_has_char_concat(p1, dash, '"');
    lemma_all_ascii_concat(p1 + dash, digits);
    lemma_has_char_concat(p1 + dash, digits, '"');
    let p2 = p1 + dash + digits;
    lemma_all_ascii_concat(p2, dash);
    lemma_has_char_concat(p2, dash, '"');
    lemma_all_ascii_concat(p2 + dash, agg);
    lemma_has_char_concat(p2 + dash, agg, '"');
    let p3 = p2 + dash + agg;
    lemma_all_ascii_concat(p3, dash);
    lemma_has_char_concat(p3, dash, '"');
    lemma_all_ascii_concat(p3 + dash, pt);
    lemma_has_char_concat(p3 + dash, pt, '"');
    let p4 = p3 + dash + pt;
    lemma_all_ascii_concat(p4, dash);
    lemma_has_char_concat(p4, dash, '"');
    lemma_all_ascii_concat(p4 + dash, src);
    lemma_has_char_concat(p4 + dash, src, '"');
    assert(bar_type_str(v) =~= p4 + dash + src);
}

/// The mathematical value of an aggregated bar.
pub struct BarView {
    pub bar_type: BarTypeView,
    pub open: Price,
    pub high: Price,
    pub low: Price,
    pub close: Price,
    pub volume: Quantity,
    pub ts_event: u64,
    pub ts_init: u64,
}

impl BarView {
    /// Well-formedness: the bar type and every fixed-point field are well
    /// formed. The open/high/low/close ordering is deliberately not
    /// constrained: it is the producer's responsibility.
    pub open spec fn wf(self) -> bool {
        &&& self.bar_type.wf()
        &&& self.open.wf()
        &&& self.high.wf()
        &&& self.low.wf()
        &&& self.close.wf()
        &&& self.volume.wf()
    }
}

/// An aggregated bar: an immutable OHLCV record tagged by its bar type.
#[derive(Clone, Debug, Hash)]
pub struct Bar {
    /// The bar type for this bar.
    pub bar_type: BarType,
    /// The bars open price.
    pub open: Price,
    /// The bars high price.
    pub high: Price,
    /// The bars low price.
    pub low: Price,
    /// The bars close price.
    pub close: Price,
    /// The bars volume.
    pub volume: Quantity,
    /// The UNIX timestamp (nanoseconds) when the data event occurred.
    pub ts_event: u64,
    /// The UNIX timestamp (nanoseconds) when the data object was initialized.
    pub ts_init: u64,
}

impl View for Bar {
    type V = BarView;

    open spec fn view(&self) -> BarView {
        BarView {
            bar_type: self.bar_type@,
            open: self.open,
            high: self.high,
            low: self.low,
            close: self.close,
            volume: self.volume,
            ts_event: self.ts_event,
            ts_init: self.ts_init,
        }
    }
}

/// The diagnostic one-line text of a bar, comma separated.
pub open spec fn bar_display_str(v: BarView) -> Seq<char> {
    bar_type_str(v.bar_type) + seq![','] + decimal_str(v.open.raw as int, v.open.precision as nat)
        + seq![','] + decimal_str(v.high.raw as int, v.high.precision as nat) + seq![',']
        + decimal_str(v.low.raw as int, v.low.precision as nat) + seq![','] + decimal_str(
        v.close.raw as int,
        v.close.precision as nat,
    ) + seq![','] + unsigned_decimal_str(v.volume.raw as nat, v.volume.precision as nat)
        + seq![','] + dec_digits(v.ts_event as nat)
}

impl Bar {
    /// Builds a bar from its already-typed fields; construction never
    /// validates and never fails.
    pub fn new(
        bar_type: BarType,
        open: Price,
        high: Price,
        low: Price,
        close: Price,
        volume: Quantity,
        ts_event: u64,
        ts_init: u64,
    ) -> (r: Bar)
        ensures
            r == (Bar { bar_type, open, high, low, close, volume, ts_event, ts_init }),
    {
        Bar { bar_type, open, high, low, close, volume, ts_event, ts_init }
    }

    /// Returns the metadata for the type, for use with serialization
    /// formats: key/value pairs in a fixed order.
    pub fn get_metadata(bar_type: &BarType, price_precision: u8, size_precision: u8) -> (r: Vec<
        (String, String),
    >)
        ensures
            r@.len() == 4,
            r@[0].0@ == "bar_type"@ && r@[0].1@ == bar_type_str(bar_type@),
            r@[1].0@ == "instrument_id"@ && r@[1].1@ == bar_type@.instrument_id.to_seq(),
            r@[2].0@ == "price_precision"@ && r@[2].1@ == dec_digits(price_precision as nat),
            r@[3].0@ == "size_precision"@ && r@[3].1@ == dec_digits(size_precision as nat),
    {
        let mut metadata: Vec<(String, String)> = Vec::new();
        proof {
            reveal_strlit("bar_type");
            reveal_strlit("instrument_id");
            reveal_strlit("price_precision");
            reveal_strlit("size_precision");
        }
        metadata.push(("bar_type".to_owned(), bar_type.to_string()));
        metadata.push(("instrument_id".to_owned(), bar_type.instrument_id.to_string()));
        metadata.push(("price_precision".to_owned(), u64_to_string(price_precision as u64)));
        metadata.push(("size_precision".to_owned(), u64_to_string(size_precision as u64)));
        metadata
    }

    /// Renders the diagnostic one-line text, comma separated.
    pub fn to_string(&self) -> (r: String)
        requires
            self@.wf(),
        ensures
            r@ == bar_display_str(self@),
    {
        proof {
            reveal_strlit(",");
        }
        let mut out = self.bar_type.to_string();
        out.append(",");
        let open_s = self.open.to_string();
        out.append(open_s.as_str());
        out.append(",");
        let high_s = self.high.to_string();
        out.append(high_s.as_str());
        out.append(",");
        let low_s = self.low.to_string();
        out.append(low_s.as_str());
        out.append(",");
        let close_s = self.close.to_string();
        out.append(close_s.as_str());
        out.append(",");
        let volume_s = self.volume.to_string();
        out.append(volume_s.as_str());
        out.append(",");
        let ts_s = u64_to_string(self.ts_event);
        out.append(ts_s.as_str());
        proof {
            assert(out@ =~= bar_display_str(self@)) by {
                reveal_strlit(",");
            }
        }
        out
    }
}

impl PartialEq for Bar {
    fn eq(&self, other: &Bar) -> (r: bool) {
        self.bar_type == other.bar_type && self.open == other.open && self.high == other.high
            && self.low == other.low && self.close == other.close && self.volume == other.volume
            && self.ts_event == other.ts_event && self.ts_init == other.ts_init
    }
}

impl vstd::std_specs::cmp::PartialEqSpecImpl for Bar {
    open spec fn obeys_eq_spec() -> bool {
        true
    }

    open spec fn eq_spec(&self, other: &Bar) -> bool {
        self@ == other@
    }
}

} // verus!
