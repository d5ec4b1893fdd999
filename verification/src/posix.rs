//! The POSIX heap: which call serves a request, and what its outcome means.
//!
//! The calls themselves are made by the program around this library. Here
//! stands what is decided before a call and after it.

use vstd::prelude::*;
use vstd::layout::size_of;
use crate::layout::{AllocError, Block, Layout};

verus! {

/// The call that serves an allocation.
#[derive(Clone, Copy, Debug, PartialEq, Eq, Structural)]
pub enum HeapCall {
    /// No call: a block of no bytes takes no memory.
    Dangling,
    /// `malloc(size)`.
    Malloc { size: usize },
    /// `posix_memalign(_, align, size)`.
    Memalign { align: usize, size: usize },
}

/// The POSIX heap.
#[derive(Debug, Copy, Clone)]
pub struct Posix;

impl Default for Posix {
    fn default() -> Self {
        Posix
    }
}

/// Turns the status that a call returned into a result: zero is success.
pub fn zero(r: libc::c_int) -> (res: Result<(), AllocError>)
    ensures
        res is Ok <==> r == 0,
{
    if r == 0 {
        Ok(())
    } else {
        Err(AllocError)
    }
}

/// Whether `malloc` and `realloc` align their blocks to `align` without
/// being asked: they do so up to twice the size of a machine word.
pub open spec fn native_align(align: usize) -> bool {
    align <= 2 * size_of::<usize>()
}

/// Tells whether `malloc` and `realloc` align their blocks to `align`.
pub fn is_native_align(align: usize) -> (r: bool)
    ensures
        r == native_align(align),
{
    broadcast use vstd::layout::layout_of_primitives;

    align <= 2 * core::mem::size_of::<usize>()
}

impl Posix {
    /// The call that serves a request for `layout`.
    pub open spec fn allocate_call_model(layout: Layout) -> HeapCall {
        if layout.size() == 0 {
            HeapCall::Dangling
        } else if !native_align(layout.align()) {
            HeapCall::Memalign { align: layout.align(), size: layout.size() }
        } else {
            HeapCall::Malloc { size: layout.size() }
        }
    }

    /// Picks the call that serves a request for `layout`.
    pub fn allocate_call(layout: Layout) -> (r: HeapCall)
        ensures
            r == Self::allocate_call_model(layout),
    {
        if layout.size() == 0 {
            HeapCall::Dangling
        } else if !is_native_align(layout.align()) {
            HeapCall::Memalign { align: layout.align(), size: layout.size() }
        } else {
            HeapCall::Malloc { size: layout.size() }
        }
    }

    /// The block of no bytes for `layout`: it stands at the least address
    /// that is aligned for it and is not null.
    pub fn dangling(layout: Layout) -> (r: Block)
        ensures
            r == (Block { addr: layout.align(), size: 0 }),
            r.addr % layout.align() == 0,
            r.addr != 0,
    {
        proof {
            use_type_invariant(&layout);
            crate::layout::lemma_power_of_two_bound(layout.align());
            vstd::arithmetic::div_mod::lemma_mod_self_0(layout.align() as int);
        }
        Block { addr: layout.align(), size: 0 }
    }

    /// What `malloc` or `realloc` achieved for `layout` when it returned
    /// `addr`: a block, unless `addr` is null or not aligned for `layout`.
    pub fn malloc_done(layout: Layout, addr: usize) -> (r: Result<Block, AllocError>)
        ensures
            r is Ok <==> addr != 0 && addr % layout.align() == 0,
            r is Ok ==> r == Ok::<Block, AllocError>(Block { addr, size: layout.size() }),
    {
        proof {
            use_type_invariant(&layout);
            crate::layout::lemma_power_of_two_bound(layout.align());
        }
        if addr == 0 {
            return Err(AllocError);
        }
        if addr % layout.align() != 0 {
            return Err(AllocError);
        }
        Ok(Block { addr, size: layout.size() })
    }

    /// What `posix_memalign` achieved for `layout` when it returned `status`
    /// and stored `addr`: a block, unless `status` reports a failure.
    pub fn memalign_done(layout: Layout, status: libc::c_int, addr: usize) -> (r: Result<
        Block,
        AllocError,
    >)
        ensures
            r is Ok <==> status == 0,
            r is Ok ==> r == Ok::<Block, AllocError>(Block { addr, size: layout.size() }),
    {
        match zero(status) {
            Ok(()) => Ok(Block { addr, size: layout.size() }),
            Err(e) => Err(e),
        }
    }

    /// Tells whether giving back a block of `layout` takes a call of `free`:
    /// it does unless the block has no bytes.
    pub fn deallocate_call(layout: Layout) -> (r: bool)
        ensures
            r == (layout.size() != 0),
    {
        layout.size() != 0
    }

    /// Tells whether `realloc` serves a `grow` from `old_layout` to
    /// `new_layout`: it does where the old block has bytes and both
    /// alignments are native. Otherwise a new block is allocated, the old
    /// bytes are copied and the old block is freed.
    pub fn grow_call(old_layout: Layout, new_layout: Layout) -> (r: bool)
        ensures
            r == (old_layout.size() != 0 && native_align(old_layout.align()) && native_align(
                new_layout.align(),
            )),
    {
        old_layout.size() != 0 && is_native_align(old_layout.align()) && is_native_align(
            new_layout.align(),
        )
    }

    /// Tells whether `realloc` serves a `shrink` from `old_layout` to
    /// `new_layout`: it does where the new block has bytes and both
    /// alignments are native. Otherwise a new block is allocated, the bytes
    /// that stay are copied and the old block is freed.
    pub fn shrink_call(old_layout: Layout, new_layout: Layout) -> (r: bool)
        ensures
            r == (new_layout.size() != 0 && native_align(old_layout.align()) && native_align(
                new_layout.align(),
            )),
    {
        new_layout.size() != 0 && is_native_align(old_layout.align()) && is_native_align(
            new_layout.align(),
        )
    }
}

} // verus!
