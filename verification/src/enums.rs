//! The closed enumerations of the bar grammar: aggregation method, price
//! type and aggregation source, each with an explicit bidirectional mapping
//! to its canonical text token.

use vstd::prelude::*;
use crate::strutil::{all_ascii, has_char, str_eq};

verus! {

/// The rule by which raw market events are binned into a bar.
#[derive(Clone, Copy, PartialEq, Eq, Structural, Debug, Hash)]
pub enum BarAggregation {
    Tick,
    Volume,
    Value,
    TickRun,
    VolumeRun,
    ValueRun,
    Millisecond,
    Second,
    Minute,
    Hour,
    Day,
    Week,
    Month,
    Year,
}

/// Which quoted price stream a bar is derived from.
#[derive(Clone, Copy, PartialEq, Eq, Structural, Debug, Hash)]
pub enum PriceType {
    Bid,
    Ask,
    Mid,
    Last,
}

/// Whether a bar series is computed externally or internally.
#[derive(Clone, Copy, PartialEq, Eq, Structural, Debug, Hash)]
pub enum AggregationSource {
    External,
    Internal,
}

/// Declaration-order discriminant of an aggregation method.
pub open spec fn agg_code(m: BarAggregation) -> int {
    match m {
        BarAggregation::Tick => 0,
        BarAggregation::Volume => 1,
        BarAggregation::Value => 2,
        BarAggregation::TickRun => 3,
        BarAggregation::VolumeRun => 4,
        BarAggregation::ValueRun => 5,
        BarAggregation::Millisecond => 6,
        BarAggregation::Second => 7,
        BarAggregation::Minute => 8,
        BarAggregation::Hour => 9,
        BarAggregation::Day => 10,
        BarAggregation::Week => 11,
        BarAggregation::Month => 12,
        BarAggregation::Year => 13,
    }
}

/// Declaration-order discriminant of a price type.
pub open spec fn price_type_code(p: PriceType) -> int {
    match p {
        PriceType::Bid => 0,
        PriceType::Ask => 1,
        PriceType::Mid => 2,
        PriceType::Last => 3,
    }
}

/// Declaration-order discriminant of an aggregation source.
pub open spec fn source_code(s: AggregationSource) -> int {
    match s {
        AggregationSource::External => 0,
        AggregationSource::Internal => 1,
    }
}

/// The canonical token of an aggregation method.
pub open spec fn agg_str(m: BarAggregation) -> Seq<char> {
    match m {
        BarAggregation::Tick => "TICK"@,
        BarAggregation::Volume => "VOLUME"@,
        BarAggregation::Value => "VALUE"@,
        BarAggregation::TickRun => "TICK_RUN"@,
        BarAggregation::VolumeRun => "VOLUME_RUN"@,
        BarAggregation::ValueRun => "VALUE_RUN"@,
        BarAggregation::Millisecond => "MILLISECOND"@,
        BarAggregation::Second => "SECOND"@,
        BarAggregation::Minute => "MINUTE"@,
        BarAggregation::Hour => "HOUR"@,
        BarAggregation::Day => "DAY"@,
        BarAggregation::Week => "WEEK"@,
        BarAggregation::Month => "MONTH"@,
        BarAggregation::Year => "YEAR"@,
    }
}

/// The canonical token of a price type.
pub open spec fn price_type_str(p: PriceType) -> Seq<char> {
    match p {
        PriceType::Bid => "BID"@,
        PriceType::Ask => "ASK"@,
        PriceType::Mid => "MID"@,
        PriceType::Last => "LAST"@,
    }
}

/// The canonical token of an aggregation source.
pub open spec fn source_str(s: AggregationSource) -> Seq<char> {
    match s {
        AggregationSource::External => "EXTERNAL"@,
        AggregationSource::Internal => "INTERNAL"@,
    }
}

/// The aggregation method whose token is `t`, if any.
pub open spec fn agg_of_str(t: Seq<char>) -> Option<BarAggregation> {
    if t == agg_str(BarAggregation::Tick) {
        Some(BarAggregation::Tick)
    } else if t == agg_str(BarAggregation::Volume) {
        Some(BarAggregation::Volume)
    } else if t == agg_str(BarAggregation::Value) {
        Some(BarAggregation::Value)
    } else if t == agg_str(BarAggregation::TickRun) {
        Some(BarAggregation::TickRun)
    } else if t == agg_str(BarAggregation::VolumeRun) {
        Some(BarAggregation::VolumeRun)
    } else if t == agg_str(BarAggregation::ValueRun) {
        Some(BarAggregation::ValueRun)
    } else if t == agg_str(BarAggregation::Millisecond) {
        Some(BarAggregation::Millisecond)
    } else if t == agg_str(BarAggregation::Second) {
        Some(BarAggregation::Second)
    } else if t == agg_str(BarAggregation::Minute) {
        Some(BarAggregation::Minute)
    } else if t == agg_str(BarAggregation::Hour) {
        Some(BarAggregation::Hour)
    } else if t == agg_str(BarAggregation::Day) {
        Some(BarAggregation::Day)
    } else if t == agg_str(BarAggregation::Week) {
        Some(BarAggregation::Week)
    } else if t == agg_str(BarAggregation::Month) {
        Some(BarAggregation::Month)
    } else if t == agg_str(BarAggregation::Year) {
        Some(BarAggregation::Year)
    } else {
        None
    }
}

/// The price type whose token is `t`, if any.
pub open spec fn price_type_of_str(t: Seq<char>) -> Option<PriceType> {
    if t == price_type_str(PriceType::Bid) {
        Some(PriceType::Bid)
    } else if t == price_type_str(PriceType::Ask) {
        Some(PriceType::Ask)
    } else if t == price_type_str(PriceType::Mid) {
        Some(PriceType::Mid)
    } else if t == price_type_str(PriceType::Last) {
        Some(PriceType::Last)
    } else {
        None
    }
}

/// The aggregation source whose token is `t`, if any.
pub open spec fn source_of_str(t: Seq<char>) -> Option<AggregationSource> {
    if t == source_str(AggregationSource::External) {
        Some(AggregationSource::External)
    } else if t == source_str(AggregationSource::Internal) {
        Some(AggregationSource::Internal)
    } else {
        None
    }
}

proof fn reveal_enum_tokens()
    ensures
        "TICK"@ =~= seq!['T', 'I', 'C', 'K'],
        "VOLUME"@ =~= seq!['V', 'O', 'L', 'U', 'M', 'E'],
        "VALUE"@ =~= seq!['V', 'A', 'L', 'U', 'E'],
        "TICK_RUN"@ =~= seq!['T', 'I', 'C', 'K', '_', 'R', 'U', 'N'],
        "VOLUME_RUN"@ =~= seq!['V', 'O', 'L', 'U', 'M', 'E', '_', 'R', 'U', 'N'],
        "VALUE_RUN"@ =~= seq!['V', 'A', 'L', 'U', 'E', '_', 'R', 'U', 'N'],
        "MILLISECOND"@ =~= seq!['M', 'I', 'L', 'L', 'I', 'S', 'E', 'C', 'O', 'N', 'D'],
        "SECOND"@ =~= seq!['S', 'E', 'C', 'O', 'N', 'D'],
        "MINUTE"@ =~= seq!['M', 'I', 'N', 'U', 'T', 'E'],
        "HOUR"@ =~= seq!['H', 'O', 'U', 'R'],
        "DAY"@ =~= seq!['D', 'A', 'Y'],
        "WEEK"@ =~= seq!['W', 'E', 'E', 'K'],
        "MONTH"@ =~= seq!['M', 'O', 'N', 'T', 'H'],
        "YEAR"@ =~= seq!['Y', 'E', 'A', 'R'],
        "BID"@ =~= seq!['B', 'I', 'D'],
        "ASK"@ =~= seq!['A', 'S', 'K'],
        "MID"@ =~= seq!['M', 'I', 'D'],
        "LAST"@ =~= seq!['L', 'A', 'S', 'T'],
        "EXTERNAL"@ =~= seq!['E', 'X', 'T', 'E', 'R', 'N', 'A', 'L'],
        "INTERNAL"@ =~= seq!['I', 'N', 'T', 'E', 'R', 'N', 'A', 'L'],
{
    reveal_strlit("TICK");
    reveal_strlit("VOLUME");
    reveal_strlit("VALUE");
    reveal_strlit("TICK_RUN");
    reveal_strlit("VOLUME_RUN");
    reveal_strlit("VALUE_RUN");
    reveal_strlit("MILLISECOND");
    reveal_strlit("SECOND");
    reveal_strlit("MINUTE");
    reveal_strlit("HOUR");
    reveal_strlit("DAY");
    reveal_strlit("WEEK");
    reveal_strlit("MONTH");
    reveal_strlit("YEAR");
    reveal_strlit("BID");
    reveal_strlit("ASK");
    reveal_strlit("MID");
    reveal_strlit("LAST");
    reveal_strlit("EXTERNAL");
    reveal_strlit("INTERNAL");
}

/// Distinct methods have distinct tokens.
proof fn lemma_agg_str_inj(a: BarAggregation, b: BarAggregation)
    requires
        agg_str(a) == agg_str(b),
    ensures
        a == b,
{
    reveal_enum_tokens();
    assert("TICK"@.len() == 4);
    assert("VOLUME"@.len() == 6);
    assert("VALUE"@.len() == 5);
    assert("TICK_RUN"@.len() == 8);
    assert("VOLUME_RUN"@.len() == 10);
    assert("VALUE_RUN"@.len() == 9);
    assert("MILLISECOND"@.len() == 11);
    assert("SECOND"@.len() == 6);
    assert("MINUTE"@.len() == 6);
    assert("HOUR"@.len() == 4);
    assert("DAY"@.len() == 3);
    assert("WEEK"@.len() == 4);
    assert("MONTH"@.len() == 5);
    assert("YEAR"@.len() == 4);
    assert("TICK"@[0] == 'T' && "HOUR"@[0] == 'H' && "WEEK"@[0] == 'W' && "YEAR"@[0] == 'Y');
    assert("VALUE"@[0] == 'V' && "MONTH"@[0] == 'M');
    assert("VOLUME"@[0] == 'V' && "SECOND"@[0] == 'S' && "MINUTE"@[0] == 'M');
    assert(agg_str(a).len() == agg_str(b).len());
    assert(agg_str(a)[0] == agg_str(b)[0]);
}

/// Reading a canonical method token back yields the method it renders, and
/// no token of the grammar contains a hyphen or a quote.
pub proof fn lemma_agg_token_round_trip(m: BarAggregation)
    ensures
        agg_of_str(agg_str(m)) == Some(m),
        !has_char(agg_str(m), '-'),
        !has_char(agg_str(m), '"'),
        agg_str(m).len() >= 1,
        all_ascii(agg_str(m)),
{
    reveal_enum_tokens();
    assert forall|x: BarAggregation| agg_str(x) == agg_str(m) implies x == m by {
        lemma_agg_str_inj(x, m);
    }
}

/// Reading a canonical price-type token back yields the price type.
pub proof fn lemma_price_type_token_round_trip(p: PriceType)
    ensures
        price_type_of_str(price_type_str(p)) == Some(p),
        !has_char(price_type_str(p), '-'),
        !has_char(price_type_str(p), '"'),
        price_type_str(p).len() >= 1,
        all_ascii(price_type_str(p)),
{
    reveal_enum_tokens();
}

/// Reading a canonical source token back yields the source.
pub proof fn lemma_source_token_round_trip(s: AggregationSource)
    ensures
        source_of_str(source_str(s)) == Some(s),
        !has_char(source_str(s), '-'),
        !has_char(source_str(s), '"'),
        source_str(s).len() >= 1,
        all_ascii(source_str(s)),
{
    reveal_enum_tokens();
}

impl BarAggregation {
    /// Declaration-order discriminant, for the lexicographic order.
    pub fn code(&self) -> (r: u8)
        ensures
            r as int == agg_code(*self),
    {
        match self {
            BarAggregation::Tick => 0,
            BarAggregation::Volume => 1,
            BarAggregation::Value => 2,
            BarAggregation::TickRun => 3,
            BarAggregation::VolumeRun => 4,
            BarAggregation::ValueRun => 5,
            BarAggregation::Millisecond => 6,
            BarAggregation::Second => 7,
            BarAggregation::Minute => 8,
            BarAggregation::Hour => 9,
            BarAggregation::Day => 10,
            BarAggregation::Week => 11,
            BarAggregation::Month => 12,
            BarAggregation::Year => 13,
        }
    }

    /// The canonical token, as rendered by the formatter.
    pub fn as_str(&self) -> (r: &'static str)
        ensures
            r@ == agg_str(*self),
    {
        match self {
            BarAggregation::Tick => "TICK",
            BarAggregation::Volume => "VOLUME",
            BarAggregation::Value => "VALUE",
            BarAggregation::TickRun => "TICK_RUN",
            BarAggregation::VolumeRun => "VOLUME_RUN",
            BarAggregation::ValueRun => "VALUE_RUN",
            BarAggregation::Millisecond => "MILLISECOND",
            BarAggregation::Second => "SECOND",
            BarAggregation::Minute => "MINUTE",
            BarAggregation::Hour => "HOUR",
            BarAggregation::Day => "DAY",
            BarAggregation::Week => "WEEK",
            BarAggregation::Month => "MONTH",
            BarAggregation::Year => "YEAR",
        }
    }

    /// Looks a token up in the method table.
    pub fn from_token(t: &str) -> (r: Option<BarAggregation>)
        ensures
            r == agg_of_str(t@),
    {
        if str_eq(t, "TICK") {
            Some(BarAggregation::Tick)
        } else if str_eq(t, "VOLUME") {
            Some(BarAggregation::Volume)
        } else if str_eq(t, "VALUE") {
            Some(BarAggregation::Value)
        } else if str_eq(t, "TICK_RUN") {
            Some(BarAggregation::TickRun)
        } else if str_eq(t, "VOLUME_RUN") {
            Some(BarAggregation::VolumeRun)
        } else if str_eq(t, "VALUE_RUN") {
            Some(BarAggregation::ValueRun)
        } else if str_eq(t, "MILLISECOND") {
            Some(BarAggregation::Millisecond)
        } else if str_eq(t, "SECOND") {
            Some(BarAggregation::Second)
        } else if str_eq(t, "MINUTE") {
            Some(BarAggregation::Minute)
        } else if str_eq(t, "HOUR") {
            Some(BarAggregation::Hour)
        } else if str_eq(t, "DAY") {
            Some(BarAggregation::Day)
        } else if str_eq(t, "WEEK") {
            Some(BarAggregation::Week)
        } else if str_eq(t, "MONTH") {
            Some(BarAggregation::Month)
        } else if str_eq(t, "YEAR") {
            Some(BarAggregation::Year)
        } else {
            None
        }
    }
}

impl PriceType {
    /// Declaration-order discriminant, for the lexicographic order.
    pub fn code(&self) -> (r: u8)
        ensures
            r as int == price_type_code(*self),
    {
        match self {
            PriceType::Bid => 0,
            PriceType::Ask => 1,
            PriceType::Mid => 2,
            PriceType::Last => 3,
        }
    }

    /// The canonical token, as rendered by the formatter.
    pub fn as_str(&self) -> (r: &'static str)
        ensures
            r@ == price_type_str(*self),
    {
        match self {
            PriceType::Bid => "BID",
            PriceType::Ask => "ASK",
            PriceType::Mid => "MID",
            PriceType::Last => "LAST",
        }
    }

    /// Looks a token up in the price-type table.
    pub fn from_token(t: &str) -> (r: Option<PriceType>)
        ensures
            r == price_type_of_str(t@),
    {
        if str_eq(t, "BID") {
            Some(PriceType::Bid)
        } else if str_eq(t, "ASK") {
            Some(PriceType::Ask)
        } else if str_eq(t, "MID") {
            Some(PriceType::Mid)
        } else if str_eq(t, "LAST") {
            Some(PriceType::Last)
        } else {
            None
        }
    }
}

impl AggregationSource {
    /// Declaration-order discriminant, for the lexicographic order.
    pub fn code(&self) -> (r: u8)
        ensures
            r as int == source_code(*self),
    {
        match self {
            AggregationSource::External => 0,
            AggregationSource::Internal => 1,
        }
    }

    /// The canonical token, as rendered by the formatter.
    pub fn as_str(&self) -> (r: &'static str)
        ensures
            r@ == source_str(*self),
    {
        match self {
            AggregationSource::External => "EXTERNAL",
            AggregationSource::Internal => "INTERNAL",
        }
    }

    /// Looks a token up in the source table.
    pub fn from_token(t: &str) -> (r: Option<AggregationSource>)
        ensures
            r == source_of_str(t@),
    {
        if str_eq(t, "EXTERNAL") {
            Some(AggregationSource::External)
        } else if str_eq(t, "INTERNAL") {
            Some(AggregationSource::Internal)
        } else {
            None
        }
    }
}

} // verus!
