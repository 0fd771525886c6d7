//! Composition rules for forgetting levels.
//!
//! When two workflows combine, the forgetting level of the combination
//! depends on the shape of the combination: sequencing, divergent
//! oscillation and fusion decay to the deeper of the two levels, while
//! convergent oscillation and parallel composition keep the shallower one.

use vstd::prelude::*;

use crate::levels::ForgetLevel;

verus! {

/// Deeper of two depths.
pub open spec fn depth_max(a: u8, b: u8) -> u8 {
    if a >= b {
        a
    } else {
        b
    }
}

/// Shallower of two depths.
pub open spec fn depth_min(a: u8, b: u8) -> u8 {
    if a <= b {
        a
    } else {
        b
    }
}

/// Sequencing decays: the combination forgets as much as the deeper part.
pub fn sequence_compose<L1: ForgetLevel, L2: ForgetLevel>() -> (r: u8)
    ensures
        r == depth_max(L1::DEPTH, L2::DEPTH),
{
    if L1::DEPTH >= L2::DEPTH {
        L1::DEPTH
    } else {
        L2::DEPTH
    }
}

/// Convergent oscillation recovers: the shallower side survives.
pub fn convergent_compose<L1: ForgetLevel, L2: ForgetLevel>() -> (r: u8)
    ensures
        r == depth_min(L1::DEPTH, L2::DEPTH),
{
    if L1::DEPTH <= L2::DEPTH {
        L1::DEPTH
    } else {
        L2::DEPTH
    }
}

/// Divergent oscillation scatters: the deeper side wins.
pub fn divergent_compose<L1: ForgetLevel, L2: ForgetLevel>() -> (r: u8)
    ensures
        r == depth_max(L1::DEPTH, L2::DEPTH),
{
    if L1::DEPTH >= L2::DEPTH {
        L1::DEPTH
    } else {
        L2::DEPTH
    }
}

/// Fusion is conservative: the deeper side wins.
pub fn fusion_compose<L1: ForgetLevel, L2: ForgetLevel>() -> (r: u8)
    ensures
        r == depth_max(L1::DEPTH, L2::DEPTH),
{
    if L1::DEPTH >= L2::DEPTH {
        L1::DEPTH
    } else {
        L2::DEPTH
    }
}

/// Parallel composition keeps the branch that preserves the most.
pub fn parallel_compose<L1: ForgetLevel, L2: ForgetLevel>() -> (r: u8)
    ensures
        r == depth_min(L1::DEPTH, L2::DEPTH),
{
    if L1::DEPTH <= L2::DEPTH {
        L1::DEPTH
    } else {
        L2::DEPTH
    }
}

/// Sequencing over a run of depths: the deepest one; an empty run keeps
/// the middle default depth 2.
pub fn seq_compose_dyn(depths: &[u8]) -> (r: u8)
    ensures
        depths.view().len() == 0 ==> r == 2,
        depths.view().len() > 0 ==> (exists|i: int|
            0 <= i < depths.view().len() && r == depths.view()[i]) && (forall|i: int|
            0 <= i < depths.view().len() ==> depths.view()[i] <= r),
{
    if depths.len() == 0 {
        return 2;
    }
    let mut best: u8 = depths[0];
    let mut i: usize = 1;
    while i < depths.len()
        invariant
            1 <= i <= depths.view().len(),
            exists|j: int| 0 <= j < i && best == depths.view()[j],
            forall|j: int| 0 <= j < i ==> depths.view()[j] <= best,
        decreases depths.view().len() - i,
    {
        if depths[i] > best {
            best = depths[i];
        }
        i = i + 1;
    }
    best
}

/// Oscillation of two depths: the shallower one.
pub fn osc_compose_dyn(left: u8, right: u8) -> (r: u8)
    ensures
        r == depth_min(left, right),
{
    if left <= right {
        left
    } else {
        right
    }
}

} // verus!
