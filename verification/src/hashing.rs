//! Hand-written hash combinators. Every hash here is a pure function of the
//! same fields that equality compares, so hashing stays in lockstep with
//! equality by construction, and provably so.

use vstd::prelude::*;
use crate::bar::{Bar, BarSpecification, BarType, BarTypeView, BarView};
use crate::enums::{agg_code, price_type_code, source_code};
use crate::identifiers::{InstrumentId, InstrumentIdView};
use crate::types::{Price, Quantity};

verus! {

/// The initial state of the hash accumulator.
pub const HASH_SEED: u64 = 0xcbf29ce484222325;

/// The multiplier folded in at every combining step.
pub const HASH_PRIME: u64 = 0x100000001b3;

/// One combining step: fold `x` into the accumulator `h`.
pub open spec fn hash_mix(h: u64, x: u64) -> u64 {
    vstd::wrapping::u64_specs::wrapping_mul(h ^ x, HASH_PRIME)
}

/// Folds `x` into the accumulator `h`, executably.
pub fn mix(h: u64, x: u64) -> (r: u64)
    ensures
        r == hash_mix(h, x),
{
    (h ^ x).wrapping_mul(HASH_PRIME)
}

/// Folds a character sequence into the accumulator, left to right.
pub open spec fn hash_chars(h: u64, s: Seq<char>) -> u64
    decreases s.len(),
{
    if s.len() == 0 {
        h
    } else {
        hash_mix(hash_chars(h, s.drop_last()), s.last() as u64)
    }
}

/// Folds a string into the accumulator, left to right.
pub fn hash_str(h: u64, s: &str) -> (r: u64)
    ensures
        r == hash_chars(h, s@),
{
    let n = s.unicode_len();
    let mut i: usize = 0;
    let mut acc = h;
    while i < n
        invariant
            i <= n,
            n == s@.len(),
            acc == hash_chars(h, s@.subrange(0, i as int)),
        decreases n - i,
    {
        let c = s.get_char(i);
        proof {
            assert(s@.subrange(0, i as int + 1).drop_last() =~= s@.subrange(0, i as int));
            assert(s@.subrange(0, i as int + 1).last() == s@[i as int]);
        }
        acc = mix(acc, c as u64);
        i = i + 1;
    }
    proof {
        assert(s@.subrange(0, n as int) =~= s@);
    }
    acc
}

/// Hash of an instrument identifier: a function of symbol and venue alone.
pub open spec fn instrument_hash(v: InstrumentIdView) -> u64 {
    hash_chars(hash_mix(hash_chars(HASH_SEED, v.symbol), 0), v.venue)
}

/// Hash of a bar specification: a function of its three fields.
pub open spec fn bar_spec_hash(s: BarSpecification) -> u64 {
    hash_mix(
        hash_mix(hash_mix(HASH_SEED, s.step as u64), agg_code(s.aggregation) as u64),
        price_type_code(s.price_type) as u64,
    )
}

/// Hash of a bar type: a function of instrument, specification and source.
pub open spec fn bar_type_hash(v: BarTypeView) -> u64 {
    hash_mix(
        hash_mix(instrument_hash(v.instrument_id), bar_spec_hash(v.spec)),
        source_code(v.aggregation_source) as u64,
    )
}

/// Hash of a price: a function of raw value and precision.
pub open spec fn price_hash(h: u64, p: Price) -> u64 {
    hash_mix(hash_mix(h, p.raw as u64), p.precision as u64)
}

/// Hash of a quantity: a function of raw value and precision.
pub open spec fn quantity_hash(h: u64, q: Quantity) -> u64 {
    hash_mix(hash_mix(h, q.raw), q.precision as u64)
}

/// Hash of a bar: a function of every field equality compares.
pub open spec fn bar_hash(v: BarView) -> u64 {
    hash_mix(
        hash_mix(
            quantity_hash(
                price_hash(
                    price_hash(price_hash(price_hash(bar_type_hash(v.bar_type), v.open), v.high), v.low),
                    v.close,
                ),
                v.volume,
            ),
            v.ts_event,
        ),
        v.ts_init,
    )
}

impl InstrumentId {
    /// The hash of the identifier, a pure function of its two parts.
    pub fn hash_u64(&self) -> (r: u64)
        ensures
            r == instrument_hash(self@),
    {
        let h = hash_str(HASH_SEED, self.symbol());
        hash_str(mix(h, 0), self.venue())
    }
}

impl BarSpecification {
    /// The hash of the specification, a pure function of its fields.
    pub fn hash_u64(&self) -> (r: u64)
        ensures
            r == bar_spec_hash(*self),
    {
        let h = mix(HASH_SEED, self.step as u64);
        let h = mix(h, self.aggregation.code() as u64);
        mix(h, self.price_type.code() as u64)
    }
}

impl BarType {
    /// The hash of the bar type, a pure function of its fields.
    pub fn hash_u64(&self) -> (r: u64)
        ensures
            r == bar_type_hash(self@),
    {
        let h = mix(self.instrument_id.hash_u64(), self.spec.hash_u64());
        mix(h, self.aggregation_source.code() as u64)
    }
}

impl Bar {
    /// The hash of the bar, a pure function of every field.
    pub fn hash_u64(&self) -> (r: u64)
        ensures
            r == bar_hash(self@),
    {
        let h = self.bar_type.hash_u64();
        let h = mix(mix(h, self.open.raw as u64), self.open.precision as u64);
        let h = mix(mix(h, self.high.raw as u64), self.high.precision as u64);
        let h = mix(mix(h, self.low.raw as u64), self.low.precision as u64);
        let h = mix(mix(h, self.close.raw as u64), self.close.precision as u64);
        let h = mix(mix(h, self.volume.raw), self.volume.precision as u64);
        let h = mix(h, self.ts_event);
        mix(h, self.ts_init)
    }
}

/// Hash agrees with equality on bar specifications: equal values hash
/// equally.
pub proof fn lemma_bar_spec_hash_consistent(a: BarSpecification, b: BarSpecification)
    requires
        a == b,
    ensures
        bar_spec_hash(a) == bar_spec_hash(b),
{
}

/// Hash agrees with equality on bar types: equal values hash equally.
pub proof fn lemma_bar_type_hash_consistent(a: BarTypeView, b: BarTypeView)
    requires
        a == b,
    ensures
        bar_type_hash(a) == bar_type_hash(b),
{
}

/// Hash agrees with equality on bars: equal values hash equally.
pub proof fn lemma_bar_hash_consistent(a: BarView, b: BarView)
    requires
        a == b,
    ensures
        bar_hash(a) == bar_hash(b),
{
}

} // verus!
