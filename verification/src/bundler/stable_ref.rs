//! References that sort the same way in every build.

use vstd::prelude::*;
use core::cmp::Ordering;
use vstd::std_specs::cmp::{PartialEqSpecImpl, PartialOrdSpecImpl};
use crate::bundler::types::{IndexInt, Ref};

verus! {

/// A symbol reference together with the stable index of its source file.
#[derive(Clone, Copy, Debug)]
pub struct StableRef {
    pub stable_source_index: IndexInt,
    pub ref_: Ref,
}

/// How two pairs of integers compare, the first components first.
pub open spec fn pair_order(a0: u32, a1: u32, b0: u32, b1: u32) -> Ordering {
    if a0 < b0 {
        Ordering::Less
    } else if a0 > b0 {
        Ordering::Greater
    } else if a1 < b1 {
        Ordering::Less
    } else if a1 > b1 {
        Ordering::Greater
    } else {
        Ordering::Equal
    }
}

impl StableRef {
    /// How `a` and `b` are ordered: by source index, then by the symbol's
    /// index in its file.
    pub open spec fn order(a: StableRef, b: StableRef) -> Ordering {
        pair_order(a.stable_source_index, a.ref_.inner_index, b.stable_source_index, b.ref_.inner_index)
    }

    /// Whether `a` sorts before `b`.
    pub fn is_less_than(_ctx: (), a: StableRef, b: StableRef) -> (r: bool)
        ensures
            r == (StableRef::order(a, b) == Ordering::Less),
    {
        let (a_idx, b_idx) = (a.stable_source_index, b.stable_source_index);
        a_idx < b_idx || (a_idx == b_idx && a.ref_.inner_index() < b.ref_.inner_index())
    }

    /// How `self` and `other` are ordered.
    pub fn compare(&self, other: &Self) -> (r: Ordering)
        ensures
            r == StableRef::order(*self, *other),
    {
        let (a_idx, a_inner) = (self.stable_source_index, self.ref_.inner_index());
        let (b_idx, b_inner) = (other.stable_source_index, other.ref_.inner_index());
        if a_idx < b_idx {
            Ordering::Less
        } else if a_idx > b_idx {
            Ordering::Greater
        } else if a_inner < b_inner {
            Ordering::Less
        } else if a_inner > b_inner {
            Ordering::Greater
        } else {
            Ordering::Equal
        }
    }
}

impl PartialEq for StableRef {
    fn eq(&self, other: &Self) -> (r: bool) {
        self.stable_source_index == other.stable_source_index && self.ref_ == other.ref_
    }
}

impl PartialEqSpecImpl for StableRef {
    open spec fn obeys_eq_spec() -> bool {
        true
    }

    open spec fn eq_spec(&self, other: &Self) -> bool {
        self.stable_source_index == other.stable_source_index && self.ref_ == other.ref_
    }
}

impl Eq for StableRef {
}

impl PartialOrd for StableRef {
    fn partial_cmp(&self, other: &Self) -> (r: Option<Ordering>) {
        Some(self.compare(other))
    }
}

impl PartialOrdSpecImpl for StableRef {
    open spec fn obeys_partial_cmp_spec() -> bool {
        true
    }

    open spec fn partial_cmp_spec(&self, other: &Self) -> Option<Ordering> {
        Some(StableRef::order(*self, *other))
    }
}

/// Stable references are totally ordered: `a` sorts before `b` exactly when
/// `b` sorts after `a`.
pub proof fn lemma_order_antisymmetric(a: StableRef, b: StableRef)
    ensures
        (StableRef::order(a, b) == Ordering::Less) <==> (StableRef::order(b, a) == Ordering::Greater),
        (StableRef::order(a, b) == Ordering::Equal) <==> (StableRef::order(b, a) == Ordering::Equal),
{
}

/// The order of stable references is transitive.
pub proof fn lemma_order_transitive(a: StableRef, b: StableRef, c: StableRef)
    requires
        StableRef::order(a, b) == Ordering::Less,
        StableRef::order(b, c) == Ordering::Less,
    ensures
        StableRef::order(a, c) == Ordering::Less,
{
}

/// Equal stable references compare as equal; references that compare as
/// equal have the same source index and symbol index.
pub proof fn lemma_order_equal(a: StableRef, b: StableRef)
    ensures
        (a.stable_source_index == b.stable_source_index && a.ref_ == b.ref_) ==> StableRef::order(a, b) == Ordering::Equal,
        StableRef::order(a, b) == Ordering::Equal <==> (a.stable_source_index == b.stable_source_index
            && a.ref_.inner_index == b.ref_.inner_index),
{
}

} // verus!
