//! Type identifiers of PostgreSQL's `bytea` type.

use vstd::prelude::*;

verus! {

/// The type identifier that `bytea` values are sent as.
pub const TO: i16 = 17;

/// The type identifiers that are read as `bytea`.
pub const FROM: [i16; 1] = [17];

} // verus!
