//! The instrument identifier: a symbol and a venue joined by a dot, with a
//! strict parser, a canonical formatter, and a total lexicographic order.

use vstd::prelude::*;
use crate::strutil::{
    after_last, before_last, find_last, has_char, last_index_of, lemma_last_index_of_props,
    lemma_seq_char_lt_trans, lemma_seq_char_lt_trichotomy, lemma_split_at_last_concat,
    seq_char_lt, str_compare,
};

verus! {

/// The mathematical value of an instrument identifier.
pub struct InstrumentIdView {
    pub symbol: Seq<char>,
    pub venue: Seq<char>,
}

/// True when `c` may occur in a symbol or venue: printable ASCII other than
/// space, quote and backslash.
pub open spec fn valid_id_char(c: char) -> bool {
    let n = c as int;
    33 <= n && n < 127 && n != 34 && n != 92
}

/// True when `s` is a non-empty run of identifier characters.
pub open spec fn valid_id_part(s: Seq<char>) -> bool {
    s.len() >= 1 && forall|i: int| 0 <= i < s.len() ==> valid_id_char(#[trigger] s[i])
}

impl InstrumentIdView {
    /// Well-formedness: both parts valid, and the venue free of dots so that
    /// the canonical form splits back at the separating dot.
    pub open spec fn wf(self) -> bool {
        &&& valid_id_part(self.symbol)
        &&& valid_id_part(self.venue)
        &&& !has_char(self.venue, '.')
    }

    /// The canonical text form `symbol.venue`.
    pub open spec fn to_seq(self) -> Seq<char> {
        self.symbol + seq!['.'] + self.venue
    }

    /// Lexicographic order on `(symbol, venue)`.
    pub open spec fn lt(self, other: InstrumentIdView) -> bool {
        ||| seq_char_lt(self.symbol, other.symbol)
        ||| (self.symbol == other.symbol && seq_char_lt(self.venue, other.venue))
    }
}

/// The identifier whose canonical form is `s`: the text around the last dot,
/// when both sides are valid parts.
pub open spec fn parse_instrument(s: Seq<char>) -> Option<InstrumentIdView> {
    if has_char(s, '.') && valid_id_part(before_last(s, '.')) && valid_id_part(
        after_last(s, '.'),
    ) {
        Some(
            InstrumentIdView {
                symbol: before_last(s, '.'),
                venue: after_last(s, '.'),
            },
        )
    } else {
        None
    }
}

/// A parsed identifier is well formed: everything after the last dot holds
/// no further dot.
pub proof fn lemma_parse_instrument_wf(s: Seq<char>)
    requires
        parse_instrument(s) is Some,
    ensures
        parse_instrument(s)->Some_0.wf(),
{
    lemma_last_index_of_props(s, '.');
    let li = last_index_of(s, '.');
    let ven = after_last(s, '.');
    assert forall|i: int| 0 <= i < ven.len() implies ven[i] != '.' by {
        assert(ven[i] == s[li + 1 + i]);
    }
}

/// Parsing the canonical form of a well-formed identifier gives it back.
pub proof fn lemma_instrument_round_trip(v: InstrumentIdView)
    requires
        v.wf(),
    ensures
        parse_instrument(v.to_seq()) == Some(v),
{
    lemma_split_at_last_concat(v.symbol, '.', v.venue);
}

/// Identifies an instrument: a symbol on a venue, rendered `symbol.venue`.
#[derive(Clone, Debug, Hash)]
pub struct InstrumentId {
    symbol: String,
    venue: String,
}

impl View for InstrumentId {
    type V = InstrumentIdView;

    closed spec fn view(&self) -> InstrumentIdView {
        InstrumentIdView { symbol: self.symbol@, venue: self.venue@ }
    }
}

/// Checks that `s` is a non-empty run of identifier characters.
fn check_id_part(s: &str) -> (r: bool)
    ensures
        r == valid_id_part(s@),
{
    let n = s.unicode_len();
    if n == 0 {
        return false;
    }
    let mut i: usize = 0;
    while i < n
        invariant
            i <= n,
            n == s@.len(),
            forall|j: int| 0 <= j < i ==> valid_id_char(#[trigger] s@[j]),
        decreases n - i,
    {
        let c = s.get_char(i);
        let code = c as u32;
        if code < 33 || code >= 127 || code == 34 || code == 92 {
            assert(!valid_id_char(s@[i as int]));
            return false;
        }
        i = i + 1;
    }
    true
}

impl InstrumentId {
    /// Builds an identifier from its two parts, validating both; the venue
    /// must also be free of dots.
    pub fn new(symbol: &str, venue: &str) -> (r: Option<InstrumentId>)
        ensures
            (r is Some) == (valid_id_part(symbol@) && valid_id_part(venue@) && !has_char(
                venue@,
                '.',
            )),
            r matches Some(id) ==> id@ == (InstrumentIdView { symbol: symbol@, venue: venue@ })
                && id@.wf(),
    {
        if !check_id_part(symbol) || !check_id_part(venue) {
            return None;
        }
        proof {
            lemma_last_index_of_props(venue@, '.');
        }
        if let Some(_) = find_last(venue, '.') {
            return None;
        }
        Some(InstrumentId { symbol: symbol.to_owned(), venue: venue.to_owned() })
    }

    /// The symbol part.
    pub fn symbol(&self) -> (r: &str)
        ensures
            r@ == self@.symbol,
    {
        self.symbol.as_str()
    }

    /// The venue part.
    pub fn venue(&self) -> (r: &str)
        ensures
            r@ == self@.venue,
    {
        self.venue.as_str()
    }

    /// Parses the canonical form `symbol.venue`, splitting at the last dot.
    pub fn from_str(s: &str) -> (r: Option<InstrumentId>)
        ensures
            r matches Some(id) ==> parse_instrument(s@) == Some(id@) && id@.wf(),
            r is None ==> parse_instrument(s@) is None,
    {
        match find_last(s, '.') {
            None => None,
            Some(i) => {
                proof {
                    lemma_last_index_of_props(s@, '.');
                }
                let n = s.unicode_len();
                let symbol = s.substring_char(0, i);
                let venue = s.substring_char(i + 1, n);
                assert(symbol@ == before_last(s@, '.'));
                assert(venue@ == after_last(s@, '.'));
                assert(has_char(s@, '.'));
                if check_id_part(symbol) && check_id_part(venue) {
                    proof {
                        lemma_parse_instrument_wf(s@);
                    }
                    Some(InstrumentId { symbol: symbol.to_owned(), venue: venue.to_owned() })
                } else {
                    None
                }
            },
        }
    }

    /// Renders the canonical form `symbol.venue`.
    pub fn to_string(&self) -> (r: String)
        ensures
            r@ == self@.to_seq(),
    {
        let mut out = self.symbol.clone();
        proof {
            reveal_strlit(".");
        }
        out.append(".");
        out.append(self.venue.as_str());
        proof {
            assert(out@ =~= self@.to_seq());
        }
        out
    }
}

impl PartialEq for InstrumentId {
    fn eq(&self, other: &InstrumentId) -> (r: bool) {
        self.symbol == other.symbol && self.venue == other.venue
    }
}

impl vstd::std_specs::cmp::PartialEqSpecImpl for InstrumentId {
    open spec fn obeys_eq_spec() -> bool {
        true
    }

    open spec fn eq_spec(&self, other: &InstrumentId) -> bool {
        self@ == other@
    }
}

impl PartialOrd for InstrumentId {
    fn partial_cmp(&self, other: &InstrumentId) -> (r: Option<core::cmp::Ordering>) {
        proof {
            lemma_instrument_order_total(self@, other@);
        }
        let c = str_compare(self.symbol.as_str(), other.symbol.as_str());
        match c {
            core::cmp::Ordering::Equal => Some(
                str_compare(self.venue.as_str(), other.venue.as_str()),
            ),
            _ => Some(c),
        }
    }
}

impl vstd::std_specs::cmp::PartialOrdSpecImpl for InstrumentId {
    open spec fn obeys_partial_cmp_spec() -> bool {
        true
    }

    open spec fn partial_cmp_spec(&self, other: &InstrumentId) -> Option<core::cmp::Ordering> {
        if self@.lt(other@) {
            Some(core::cmp::Ordering::Less)
        } else if other@.lt(self@) {
            Some(core::cmp::Ordering::Greater)
        } else {
            Some(core::cmp::Ordering::Equal)
        }
    }
}

/// The order on identifiers is transitive.
pub proof fn lemma_instrument_order_trans(a: InstrumentIdView, b: InstrumentIdView, c: InstrumentIdView)
    requires
        a.lt(b),
        b.lt(c),
    ensures
        a.lt(c),
{
    lemma_seq_char_lt_trichotomy(a.symbol, b.symbol);
    lemma_seq_char_lt_trichotomy(b.symbol, c.symbol);
    lemma_seq_char_lt_trichotomy(a.venue, b.venue);
    lemma_seq_char_lt_trichotomy(b.venue, c.venue);
    if seq_char_lt(a.symbol, b.symbol) && seq_char_lt(b.symbol, c.symbol) {
        lemma_seq_char_lt_trans(a.symbol, b.symbol, c.symbol);
    }
    if a.symbol == b.symbol && b.symbol == c.symbol && seq_char_lt(a.venue, b.venue)
        && seq_char_lt(b.venue, c.venue) {
        lemma_seq_char_lt_trans(a.venue, b.venue, c.venue);
    }
}

/// The order on identifiers is total: for distinct values exactly one
/// direction holds, and it agrees with the field-by-field comparison.
pub proof fn lemma_instrument_order_total(a: InstrumentIdView, b: InstrumentIdView)
    ensures
        a.lt(b) || b.lt(a) || a == b,
        a.lt(b) ==> !b.lt(a) && a != b,
        b.lt(a) ==> !a.lt(b) && a != b,
        a == b ==> !a.lt(b) && !b.lt(a),
{
    lemma_seq_char_lt_trichotomy(a.symbol, b.symbol);
    lemma_seq_char_lt_trichotomy(a.venue, b.venue);
}

} // verus!
