//! The shape of a global allocator around an allocator of this library:
//! failure becomes the null address.

use vstd::prelude::*;
use crate::base::Allocator;
use crate::layout::{valid_layout, AllocError, Block, Layout, Resized};

verus! {

/// An allocator behind the interface of a global allocator, which speaks of
/// addresses only and reports a failure as the null address.
pub struct AsGlobal<A: Allocator>(pub A);

/// The answer of [`AsGlobal::realloc`].
#[derive(Clone, Copy, Debug, PartialEq, Eq, Structural)]
pub struct Reallocated {
    /// The address of the resized block, or null where resizing failed.
    pub addr: usize,
    /// Number of bytes that the caller still has to copy from the start of
    /// the old block to `addr`.
    pub copy: usize,
}

/// The address that stands for the result of an allocation.
pub open spec fn address_of(r: Result<Block, AllocError>) -> usize {
    match r {
        Ok(b) => b.addr,
        Err(_) => 0,
    }
}

/// The answer that stands for the result of resizing.
pub open spec fn answer_of(r: Result<Resized, AllocError>) -> Reallocated {
    match r {
        Ok(g) => Reallocated { addr: g.block.addr, copy: g.copy },
        Err(_) => Reallocated { addr: 0, copy: 0 },
    }
}

impl<A: Allocator> AsGlobal<A> {
    /// What `realloc(addr, layout, new_size)` does in state `v`: nothing
    /// where `new_size` makes no layout with the alignment of `layout`;
    /// else `grow` where `new_size` is larger than the size of `layout`, and
    /// `shrink` where it is not.
    pub open spec fn realloc_model(v: A::V, addr: usize, layout: Layout, new_size: usize) -> (
        A::V,
        Reallocated,
    ) {
        let new_layout = Layout::of(new_size, layout.align());
        if !valid_layout(new_size as int, layout.align() as int) {
            (v, Reallocated { addr: 0, copy: 0 })
        } else if new_size > layout.size() {
            let (v1, r) = A::grow_model(v, addr, layout, new_layout);
            (v1, answer_of(r))
        } else {
            let (v1, r) = A::shrink_model(v, addr, layout, new_layout);
            (v1, answer_of(r))
        }
    }

    /// Allocates a block for `layout` and returns its address, or null.
    pub fn allocate(&mut self, layout: Layout) -> (r: usize)
        requires
            old(self).0.wf(),
        ensures
            final(self).0.wf(),
            final(self).0@ == A::allocate_model(old(self).0@, layout).0,
            r == address_of(A::allocate_model(old(self).0@, layout).1),
    {
        match self.0.allocate(layout) {
            Ok(block) => block.addr,
            Err(_) => 0,
        }
    }

    /// Gives back the block at `addr`.
    pub fn dealloc(&mut self, addr: usize, layout: Layout)
        requires
            old(self).0.wf(),
            A::accepts_model(old(self).0@, addr, layout),
        ensures
            final(self).0.wf(),
            final(self).0@ == A::deallocate_model(old(self).0@, addr, layout),
    {
        self.0.deallocate(addr, layout)
    }

    /// Resizes the block at `addr` to `new_size` bytes, keeping its
    /// alignment, and returns the address of the resized block, or null.
    pub fn realloc(&mut self, addr: usize, layout: Layout, new_size: usize) -> (r: Reallocated)
        requires
            old(self).0.wf(),
            A::resizes_model(old(self).0@, addr, layout),
        ensures
            final(self).0.wf(),
            final(self).0@ == Self::realloc_model(old(self).0@, addr, layout, new_size).0,
            r == Self::realloc_model(old(self).0@, addr, layout, new_size).1,
    {
        let new_layout = match Layout::from_size_align(new_size, layout.align()) {
            Ok(new_layout) => new_layout,
            Err(_) => { return Reallocated { addr: 0, copy: 0 }; },
        };
        let r = if new_size > layout.size() {
            self.0.grow(addr, layout, new_layout)
        } else {
            self.0.shrink(addr, layout, new_layout)
        };
        match r {
            Ok(g) => Reallocated { addr: g.block.addr, copy: g.copy },
            Err(_) => Reallocated { addr: 0, copy: 0 },
        }
    }
}

} // verus!
