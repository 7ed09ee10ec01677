//! Market-data identity and versioning layer.
//!
//! The crate defines the canonical textual grammar for bar-type identifiers,
//! a strict parser with positioned errors, fixed-point price and quantity
//! values, versioned price-level entries, and two byte encodings for
//! aggregated bars, each with a proved round trip.

pub mod bar;
pub mod entry;
pub mod enums;
pub mod hashing;
pub mod identifiers;
pub mod serialization;
pub mod strutil;
pub mod types;
