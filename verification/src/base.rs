//! The allocator contract and the predicates that route requests between
//! composed allocators.

use vstd::prelude::*;
use crate::history::{step, Op};
use crate::layout::{AllocError, Block, Layout, Resized};

verus! {

/// An allocator of address ranges.
///
/// The view of an allocator is its mathematical state. What each operation
/// does is given by a function on views (`allocate_model` and the like); the
/// executable operations are held to those functions.
///
/// An allocator hands out addresses and never touches the bytes behind
/// them. So a block of zeroed memory is a block whose bytes the caller
/// clears, and a block that moved is reported with the number of bytes that
/// the caller has to carry over.
pub trait Allocator: View + Sized {
    /// The invariant of the allocator's state.
    spec fn wf(&self) -> bool;

    /// Whether, in state `v`, the block at `addr` may be given back with
    /// `layout`.
    spec fn accepts_model(v: Self::V, addr: usize, layout: Layout) -> bool;

    /// Whether, in state `v`, the block at `addr` may be handed to `grow` or
    /// `shrink` with `layout` as its old layout. Every block that may be
    /// given back may.
    spec fn resizes_model(v: Self::V, addr: usize, layout: Layout) -> bool;

    /// The state after `allocate(layout)` in state `v`, and its result.
    spec fn allocate_model(v: Self::V, layout: Layout) -> (Self::V, Result<Block, AllocError>);

    /// The state after `deallocate(addr, layout)` in state `v`.
    spec fn deallocate_model(v: Self::V, addr: usize, layout: Layout) -> Self::V;

    /// The state after `grow(addr, old_layout, new_layout)` in state `v`,
    /// and its result.
    spec fn grow_model(v: Self::V, addr: usize, old_layout: Layout, new_layout: Layout) -> (
        Self::V,
        Result<Resized, AllocError>,
    );

    /// The state after `shrink(addr, old_layout, new_layout)` in state `v`,
    /// and its result.
    spec fn shrink_model(v: Self::V, addr: usize, old_layout: Layout, new_layout: Layout) -> (
        Self::V,
        Result<Resized, AllocError>,
    );

    /// A block that may be given back may be resized.
    proof fn lemma_accepted_resizes(v: Self::V, addr: usize, layout: Layout)
        ensures
            Self::accepts_model(v, addr, layout) ==> Self::resizes_model(v, addr, layout),
    ;

    /// An operation that fails changes nothing.
    proof fn lemma_failure_changes_nothing(
        v: Self::V,
        addr: usize,
        old_layout: Layout,
        new_layout: Layout,
    )
        ensures
            Self::allocate_model(v, new_layout).1 is Err ==> Self::allocate_model(v, new_layout).0
                == v,
            Self::grow_model(v, addr, old_layout, new_layout).1 is Err ==> Self::grow_model(
                v,
                addr,
                old_layout,
                new_layout,
            ).0 == v,
            Self::shrink_model(v, addr, old_layout, new_layout).1 is Err ==> Self::shrink_model(
                v,
                addr,
                old_layout,
                new_layout,
            ).0 == v,
    ;

    /// Tells whether the block at `addr` may be given back with `layout`.
    fn accepts(&self, addr: usize, layout: Layout) -> (r: bool)
        requires
            self.wf(),
        ensures
            r == Self::accepts_model(self@, addr, layout),
    ;

    /// Hands out a block for `layout`, or fails. A block that is handed out
    /// starts at a multiple of the alignment and holds at least the size
    /// asked for. A failure changes nothing.
    fn allocate(&mut self, layout: Layout) -> (r: Result<Block, AllocError>)
        requires
            old(self).wf(),
        ensures
            final(self).wf(),
            final(self)@ == Self::allocate_model(old(self)@, layout).0,
            r == Self::allocate_model(old(self)@, layout).1,
            r matches Ok(b) ==> b.addr % layout.align() == 0 && b.size >= layout.size(),
            r is Err ==> final(self)@ == old(self)@,
    ;

    /// Takes back the block at `addr`.
    fn deallocate(&mut self, addr: usize, layout: Layout)
        requires
            old(self).wf(),
            Self::accepts_model(old(self)@, addr, layout),
        ensures
            final(self).wf(),
            final(self)@ == Self::deallocate_model(old(self)@, addr, layout),
    ;

    /// Makes the block at `addr` fit `new_layout`, which is meant to ask for
    /// no less than `old_layout`. The block may move. A failure changes
    /// nothing: the block at `addr` is still there.
    fn grow(&mut self, addr: usize, old_layout: Layout, new_layout: Layout) -> (r: Result<
        Resized,
        AllocError,
    >)
        requires
            old(self).wf(),
            Self::resizes_model(old(self)@, addr, old_layout),
        ensures
            final(self).wf(),
            final(self)@ == Self::grow_model(old(self)@, addr, old_layout, new_layout).0,
            r == Self::grow_model(old(self)@, addr, old_layout, new_layout).1,
            r matches Ok(g) ==> g.block.addr % new_layout.align() == 0 && g.block.size
                >= new_layout.size(),
            r is Err ==> final(self)@ == old(self)@,
    ;

    /// Makes the block at `addr` fit `new_layout`, which asks for no more
    /// than `old_layout`. The block may move. A failure changes nothing: the
    /// block at `addr` is still there.
    fn shrink(&mut self, addr: usize, old_layout: Layout, new_layout: Layout) -> (r: Result<
        Resized,
        AllocError,
    >)
        requires
            old(self).wf(),
            Self::resizes_model(old(self)@, addr, old_layout),
            new_layout.size() <= old_layout.size(),
        ensures
            final(self).wf(),
            final(self)@ == Self::shrink_model(old(self)@, addr, old_layout, new_layout).0,
            r == Self::shrink_model(old(self)@, addr, old_layout, new_layout).1,
            r matches Ok(g) ==> g.block.addr % new_layout.align() == 0 && g.block.size
                >= new_layout.size(),
            r is Err ==> final(self)@ == old(self)@,
    ;
}

/// An allocator that can stand first in a chain: it can tell its own blocks
/// from those of another allocator, and says whether a request that it failed
/// may be passed on.
pub trait Fallbackable: Allocator {
    /// Whether, in state `v`, the block at `addr` with `layout` is this
    /// allocator's to take back.
    spec fn has_allocated_model(v: Self::V, addr: usize, layout: Layout) -> bool;

    /// Whether a request for `layout` that this allocator failed may be tried
    /// on another one.
    spec fn allows_fallback_model(v: Self::V, layout: Layout) -> bool;

    /// Tells whether the block at `addr` with `layout` is this allocator's.
    fn has_allocated(&self, addr: usize, layout: Layout) -> (r: bool)
        requires
            self.wf(),
        ensures
            r == Self::has_allocated_model(self@, addr, layout),
    ;

    /// Tells whether a failed request for `layout` may go to another
    /// allocator.
    fn allows_fallback(&self, layout: Layout) -> (r: bool)
        requires
            self.wf(),
        ensures
            r == Self::allows_fallback_model(self@, layout),
    ;

    /// Whether a failed request for a layout may go to another allocator is
    /// settled once and for all: no operation changes it.
    proof fn lemma_fallback_is_settled(v: Self::V, op: Op, layout: Layout)
        ensures
            Self::allows_fallback_model(step::<Self>(v, op), layout) == Self::allows_fallback_model(
                v,
                layout,
            ),
    ;

    /// An allocator that refuses fallback for a layout claims every block of
    /// that layout.
    proof fn lemma_refusal_claims(v: Self::V, addr: usize, layout: Layout)
        ensures
            !Self::allows_fallback_model(v, layout) ==> Self::has_allocated_model(v, addr, layout),
    ;
}

} // verus!
