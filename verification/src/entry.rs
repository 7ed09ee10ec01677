//! A versioned price-level entry: one price level of a book whose only
//! mutation replaces the quantity and the version, never the price.

use vstd::prelude::*;
use crate::types::{Price, Quantity};

verus! {

/// A single versioned `(price, quantity, version)` record. The price is
/// immutable after creation; callers serialize updates per entry and are
/// responsible for issuing versions in increasing order.
#[derive(Clone, Copy, PartialEq, Eq, Structural, Debug)]
pub struct PriceLevelEntry {
    /// The price of the level; never changed by an update.
    pub price: Price,
    /// The quantity standing at the level.
    pub quantity: Quantity,
    /// The update id of the last update applied to the level.
    pub version: u64,
}

/// The state of an entry after one update.
pub open spec fn updated(e: PriceLevelEntry, quantity: Quantity, version: u64) -> PriceLevelEntry {
    PriceLevelEntry { price: e.price, quantity, version }
}

/// The state of an entry after a whole stream of updates, applied in order.
pub open spec fn apply_updates(e: PriceLevelEntry, us: Seq<(Quantity, u64)>) -> PriceLevelEntry
    decreases us.len(),
{
    if us.len() == 0 {
        e
    } else {
        updated(apply_updates(e, us.drop_last()), us.last().0, us.last().1)
    }
}

impl PriceLevelEntry {
    /// Creates an entry at first sight of a price level.
    pub fn new(price: Price, quantity: Quantity, version: u64) -> (r: PriceLevelEntry)
        ensures
            r == (PriceLevelEntry { price, quantity, version }),
    {
        PriceLevelEntry { price, quantity, version }
    }

    /// Unconditionally overwrites quantity and version; the price is
    /// untouched and no monotonicity is validated here.
    pub fn update(&mut self, quantity: Quantity, version: u64)
        ensures
            *final(self) == updated(*old(self), quantity, version),
            final(self).price == old(self).price,
            final(self).quantity == quantity,
            final(self).version == version,
    {
        self.quantity = quantity;
        self.version = version;
    }
}

/// Applying the same update twice leaves the entry exactly as after one
/// call.
pub proof fn lemma_update_idempotent(e: PriceLevelEntry, quantity: Quantity, version: u64)
    ensures
        updated(updated(e, quantity, version), quantity, version) == updated(e, quantity, version),
{
}

/// The price survives any number of updates.
pub proof fn lemma_updates_preserve_price(e: PriceLevelEntry, us: Seq<(Quantity, u64)>)
    ensures
        apply_updates(e, us).price == e.price,
    decreases us.len(),
{
    if us.len() > 0 {
        lemma_updates_preserve_price(e, us.drop_last());
    }
}

} // verus!
