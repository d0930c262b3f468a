//! A row of the `products` table.
use vstd::prelude::*;

verus! {

/// An instant, as whole seconds since the Unix epoch and the nanoseconds past
/// them (the database's `timestamptz`).
#[derive(Debug, Clone, Copy, PartialEq, Eq, Structural)]
pub struct Timestamp {
    pub secs: i64,
    pub nanos: u32,
}

/// A product as stored.
#[derive(Debug, Clone)]
pub struct ProductEntity {
    pub id: i64,
    pub name: String,
    pub description: String,
    pub price: i64,
    pub created_at: Timestamp,
    pub updated_at: Timestamp,
}

} // verus!
