//! Vendor prefixes and source locations.

use vstd::prelude::*;

verus! {

/// The bit of the unprefixed form.
pub const PREFIX_NONE: u8 = 1;

/// The bit of `-webkit-`.
pub const PREFIX_WEBKIT: u8 = 2;

/// The bit of `-moz-`.
pub const PREFIX_MOZ: u8 = 4;

/// The bit of `-ms-`.
pub const PREFIX_MS: u8 = 8;

/// The bit of `-o-`.
pub const PREFIX_O: u8 = 16;

/// A set of vendor prefixes, one bit each.
#[derive(Clone, Copy, Debug, PartialEq, Eq, Structural)]
pub struct VendorPrefix {
    pub bits: u8,
}

/// The single-prefix sets in the order in which rules are printed for them.
pub open spec fn prefix_fields() -> Seq<u8> {
    seq![PREFIX_NONE, PREFIX_WEBKIT, PREFIX_MOZ, PREFIX_MS, PREFIX_O]
}

impl VendorPrefix {
    /// Whether every prefix of `other` is in `self`.
    pub open spec fn spec_contains(self, other: VendorPrefix) -> bool {
        self.bits & other.bits == other.bits
    }

    /// The empty set.
    pub fn empty() -> (r: VendorPrefix)
        ensures
            r.bits == 0,
    {
        VendorPrefix { bits: 0 }
    }

    /// The set that holds only the given bits.
    pub fn from_bits(bits: u8) -> (r: VendorPrefix)
        ensures
            r.bits == bits,
    {
        VendorPrefix { bits }
    }

    /// Whether the set is empty.
    pub fn is_empty(self) -> (r: bool)
        ensures
            r == (self.bits == 0),
    {
        self.bits == 0
    }

    /// Whether every prefix of `other` is in `self`.
    pub fn contains(self, other: VendorPrefix) -> (r: bool)
        ensures
            r == self.spec_contains(other),
    {
        self.bits & other.bits == other.bits
    }

    /// The union of both sets.
    pub fn union(self, other: VendorPrefix) -> (r: VendorPrefix)
        ensures
            r.bits == self.bits | other.bits,
    {
        VendorPrefix { bits: self.bits | other.bits }
    }
}

/// A position in a source file.
#[derive(Clone, Copy, Debug, PartialEq, Eq, Structural)]
pub struct Location {
    /// The index of the source file.
    pub source_index: u32,
    /// The line, counted from zero.
    pub line: u32,
    /// The column, counted from one.
    pub column: u32,
}

} // verus!
