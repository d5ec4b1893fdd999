//! Sequences of operations on an allocator, for the laws that speak of
//! every state an allocator can reach.

use vstd::prelude::*;
use crate::base::Allocator;
use crate::layout::Layout;

verus! {

/// One operation of the allocator contract.
pub enum Op {
    /// `allocate(layout)`.
    Allocate { layout: Layout },
    /// `deallocate(addr, layout)`.
    Deallocate { addr: usize, layout: Layout },
    /// `grow(addr, old_layout, new_layout)`.
    Grow { addr: usize, old_layout: Layout, new_layout: Layout },
    /// `shrink(addr, old_layout, new_layout)`.
    Shrink { addr: usize, old_layout: Layout, new_layout: Layout },
}

/// Whether the contract lets `op` be applied in state `v`.
pub open spec fn permitted<A: Allocator>(v: A::V, op: Op) -> bool {
    match op {
        Op::Allocate { layout } => layout.wf(),
        Op::Deallocate { addr, layout } => layout.wf() && A::accepts_model(v, addr, layout),
        Op::Grow { addr, old_layout, new_layout } => {
            &&& old_layout.wf()
            &&& new_layout.wf()
            &&& A::resizes_model(v, addr, old_layout)
        },
        Op::Shrink { addr, old_layout, new_layout } => {
            &&& old_layout.wf()
            &&& new_layout.wf()
            &&& new_layout.size() <= old_layout.size()
            &&& A::resizes_model(v, addr, old_layout)
        },
    }
}

/// The state after `op` in state `v`.
pub open spec fn step<A: Allocator>(v: A::V, op: Op) -> A::V {
    match op {
        Op::Allocate { layout } => A::allocate_model(v, layout).0,
        Op::Deallocate { addr, layout } => A::deallocate_model(v, addr, layout),
        Op::Grow { addr, old_layout, new_layout } => A::grow_model(
            v,
            addr,
            old_layout,
            new_layout,
        ).0,
        Op::Shrink { addr, old_layout, new_layout } => A::shrink_model(
            v,
            addr,
            old_layout,
            new_layout,
        ).0,
    }
}

/// Whether `op` in state `v` is an `allocate` that hands out a block.
pub open spec fn hands_out<A: Allocator>(v: A::V, op: Op) -> bool {
    op matches Op::Allocate { layout } && A::allocate_model(v, layout).1 is Ok
}

/// The state after `ops`, applied one after the other from state `v`.
pub open spec fn run<A: Allocator>(v: A::V, ops: Seq<Op>) -> A::V
    decreases ops.len(),
{
    if ops.len() == 0 {
        v
    } else {
        step::<A>(run::<A>(v, ops.drop_last()), ops.last())
    }
}

/// Whether the contract lets each of `ops` be applied in its turn, from
/// state `v`.
pub open spec fn permitted_run<A: Allocator>(v: A::V, ops: Seq<Op>) -> bool
    decreases ops.len(),
{
    ops.len() > 0 ==> permitted_run::<A>(v, ops.drop_last()) && permitted::<A>(
        run::<A>(v, ops.drop_last()),
        ops.last(),
    )
}

/// The number of blocks that the `allocate` operations among `ops` hand out,
/// from state `v`.
pub open spec fn allocations<A: Allocator>(v: A::V, ops: Seq<Op>) -> nat
    decreases ops.len(),
{
    if ops.len() == 0 {
        0
    } else {
        allocations::<A>(v, ops.drop_last()) + if hands_out::<A>(
            run::<A>(v, ops.drop_last()),
            ops.last(),
        ) {
            1nat
        } else {
            0nat
        }
    }
}

/// The number of `deallocate` operations among `ops`.
pub open spec fn deallocations(ops: Seq<Op>) -> nat
    decreases ops.len(),
{
    if ops.len() == 0 {
        0
    } else {
        deallocations(ops.drop_last()) + if ops.last() is Deallocate {
            1nat
        } else {
            0nat
        }
    }
}

} // verus!
