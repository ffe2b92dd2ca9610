//! What the two blocklist tables have in common.

use vstd::prelude::*;

verus! {

/// Opaque value stored beside a blocked key; the filter never reads it.
pub type Marker = u32;

/// Most entries a blocklist table can hold.
pub const CAPACITY: usize = 1024;

/// A table already holds `CAPACITY` entries and the key is not among them.
#[derive(Clone, Copy, Debug, PartialEq, Eq, Structural)]
pub struct TableFull;

} // verus!
