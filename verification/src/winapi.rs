//! The Windows process heap: how a block with a wide alignment is placed in
//! a larger block of the heap, and how the larger block is found again.
//!
//! The calls themselves are made by the program around this library. Here
//! stands what is decided before a call and after it.

use vstd::prelude::*;
use vstd::layout::{align_of, size_of};
use crate::layout::{
    lemma_padding, lemma_power_of_two_bound, padding_for, AllocError, Block, Layout,
};

verus! {

/// The Windows process heap.
#[derive(Debug, Copy, Clone)]
pub struct WinApi;

impl Default for WinApi {
    fn default() -> Self {
        WinApi
    }
}

/// The word in front of a block with a wide alignment.
#[derive(Clone, Copy, Debug, PartialEq, Eq, Structural)]
pub struct Header {
    /// Where the word stands.
    pub addr: usize,
    /// What it holds: the number of bytes between the word that follows the
    /// start of the heap's block and the start of the block handed out.
    pub offset: usize,
}

/// A block, placed in a block of the heap.
#[derive(Clone, Copy, Debug, PartialEq, Eq, Structural)]
pub struct Placement {
    /// The block to hand out.
    pub block: Block,
    /// The header to write in front of it, where the alignment is wide.
    pub header: Option<Header>,
}

/// Turns the flag that a call returned into a result: zero is failure.
pub fn non_zero(r: i32) -> (res: Result<i32, AllocError>)
    ensures
        res == if r == 0 {
            Err::<i32, AllocError>(AllocError)
        } else {
            Ok::<i32, AllocError>(r)
        },
{
    if r == 0 {
        Err(AllocError)
    } else {
        Ok(r)
    }
}

/// The size of a machine word.
pub open spec fn word() -> nat {
    size_of::<usize>()
}

/// The alignment of every block of the heap: two machine words.
pub open spec fn heap_align() -> nat {
    2 * word()
}

/// The alignment of every block of the heap.
pub fn memory_allocation_alignment() -> (r: usize)
    ensures
        r == heap_align(),
{
    broadcast use vstd::layout::layout_of_primitives;

    2 * core::mem::size_of::<usize>()
}

/// Tells whether the heap aligns its blocks to `align` without being asked.
pub fn is_native_align(align: usize) -> (r: bool)
    ensures
        r == (align <= heap_align()),
{
    align <= memory_allocation_alignment()
}

impl WinApi {
    /// The number of bytes to ask the heap for, to serve `layout`: its size,
    /// and as many bytes more as its alignment where that one is wide.
    pub open spec fn request_size_model(layout: Layout) -> Result<usize, AllocError> {
        if align_of::<usize>() > word() {
            Err(AllocError)
        } else if layout.align() <= heap_align() {
            Ok(layout.size())
        } else if layout.size() + layout.align() > usize::MAX {
            Err(AllocError)
        } else {
            Ok((layout.size() + layout.align()) as usize)
        }
    }

    /// Computes the number of bytes to ask the heap for, to serve `layout`.
    pub fn request_size(layout: Layout) -> (r: Result<usize, AllocError>)
        ensures
            r == Self::request_size_model(layout),
    {
        if memory_allocation_alignment() < core::mem::size_of::<usize>() || core::mem::align_of::<
            usize,
        >() > core::mem::size_of::<usize>() {
            return Err(AllocError);
        }
        if is_native_align(layout.align()) {
            Ok(layout.size())
        } else {
            match layout.size().checked_add(layout.align()) {
                Some(size) => Ok(size),
                None => Err(AllocError),
            }
        }
    }

    /// Where the block for `layout` stands in the heap's block at `raw`.
    ///
    /// With a native alignment it is the heap's block. With a wide one, a
    /// word is skipped, the address is rounded up to the alignment, and the
    /// word in front of the result holds the distance rounded. There is no
    /// placement where the heap returned null, or where the heap's block is
    /// too small for it or leaves the address space.
    pub open spec fn place_model(layout: Layout, raw: usize) -> Result<Placement, AllocError> {
        if raw == 0 {
            Err(AllocError)
        } else if layout.align() <= heap_align() {
            Ok(Placement { block: Block { addr: raw, size: layout.size() }, header: None })
        } else {
            let size = layout.size() + layout.align();
            let offset = padding_for(raw + word(), layout.align() as int);
            let addr = raw + word() + offset;
            if raw + size > usize::MAX || word() + offset > size {
                Err(AllocError)
            } else {
                Ok(
                    Placement {
                        block: Block {
                            addr: addr as usize,
                            size: (size - word() - offset) as usize,
                        },
                        header: Some(
                            Header { addr: (addr - word()) as usize, offset: offset as usize },
                        ),
                    },
                )
            }
        }
    }

    /// Places the block for `layout` in the heap's block at `raw`.
    pub fn place(layout: Layout, raw: usize) -> (r: Result<Placement, AllocError>)
        ensures
            r == Self::place_model(layout, raw),
    {
        broadcast use vstd::layout::layout_of_primitives;

        proof {
            use_type_invariant(&layout);
            lemma_power_of_two_bound(layout.align());
        }
        if raw == 0 {
            return Err(AllocError);
        }
        if is_native_align(layout.align()) {
            return Ok(Placement { block: Block { addr: raw, size: layout.size() }, header: None });
        }
        let word = core::mem::size_of::<usize>();
        let size = match layout.size().checked_add(layout.align()) {
            Some(size) => size,
            None => { return Err(AllocError); },
        };
        if size > usize::MAX - raw {
            return Err(AllocError);
        }
        if size < word {
            proof {
                lemma_padding(raw + word, layout.align() as int);
            }
            return Err(AllocError);
        }
        let skipped = raw + word;
        let offset = (layout.align() - skipped % layout.align()) % layout.align();
        if offset > size - word {
            return Err(AllocError);
        }
        let addr = skipped + offset;
        Ok(
            Placement {
                block: Block { addr, size: size - word - offset },
                header: Some(Header { addr: addr - word, offset }),
            },
        )
    }

    /// The address of the header of the block at `addr`, where `layout` has
    /// one.
    pub fn header_addr(addr: usize, layout: Layout) -> (r: Option<usize>)
        ensures
            r == if layout.align() <= heap_align() || addr < word() {
                None::<usize>
            } else {
                Some((addr - word()) as usize)
            },
    {
        if is_native_align(layout.align()) {
            None
        } else {
            addr.checked_sub(core::mem::size_of::<usize>())
        }
    }

    /// The start of the heap's block around the block at `addr`, whose
    /// header holds `offset`.
    pub open spec fn heap_addr_model(addr: usize, layout: Layout, offset: usize) -> Result<
        usize,
        AllocError,
    > {
        if layout.align() <= heap_align() {
            Ok(addr)
        } else if addr < word() + offset {
            Err(AllocError)
        } else {
            Ok((addr - word() - offset) as usize)
        }
    }

    /// Finds the start of the heap's block around the block at `addr`,
    /// whose header holds `offset`.
    pub fn heap_addr(addr: usize, layout: Layout, offset: usize) -> (r: Result<usize, AllocError>)
        ensures
            r == Self::heap_addr_model(addr, layout, offset),
    {
        if is_native_align(layout.align()) {
            return Ok(addr);
        }
        match addr.checked_sub(core::mem::size_of::<usize>()) {
            Some(header) => match header.checked_sub(offset) {
                Some(raw) => Ok(raw),
                None => Err(AllocError),
            },
            None => Err(AllocError),
        }
    }

    /// Tells whether the heap itself resizes a block from `old_layout` to
    /// `new_layout`: it does where both alignments are native. Otherwise a
    /// new block is allocated, bytes are copied and the old block is freed.
    pub fn realloc_call(old_layout: Layout, new_layout: Layout) -> (r: bool)
        ensures
            r == (old_layout.align() <= heap_align() && new_layout.align() <= heap_align()),
    {
        is_native_align(old_layout.align()) && is_native_align(new_layout.align())
    }
}

/// In a block of the heap that starts at a multiple of the word size and
/// holds what was asked for, a block with a wide alignment finds its place:
/// it is aligned, it holds the size of the layout, it ends where the heap's
/// block ends, its header lies in the heap's block in front of it, and the
/// header leads back to the start of the heap's block.
pub proof fn lemma_placement(layout: Layout, raw: usize)
    requires
        layout.wf(),
        layout.align() > heap_align(),
        raw != 0,
        (raw as int) % (word() as int) == 0,
        raw + layout.size() + layout.align() <= usize::MAX,
    ensures
        WinApi::request_size_model(layout) is Ok || align_of::<usize>() > word(),
        WinApi::place_model(layout, raw) is Ok,
        ({
            let p = WinApi::place_model(layout, raw)->Ok_0;
            let h = p.header->Some_0;
            &&& p.header is Some
            &&& p.block.addr % layout.align() == 0
            &&& p.block.size >= layout.size()
            &&& p.block.addr + p.block.size == raw + layout.size() + layout.align()
            &&& raw <= h.addr
            &&& h.addr + word() == p.block.addr
            &&& WinApi::heap_addr_model(p.block.addr, layout, h.offset) == Ok::<usize, AllocError>(
                raw,
            )
        }),
{
    broadcast use vstd::layout::layout_of_primitives;

    lemma_power_of_two_bound(layout.align());
    let w = word() as int;
    let a = layout.align() as int;
    let offset = padding_for(raw + w, a);
    lemma_padding(raw + w, a);
    // The word size is a power of two below the alignment, so it divides
    // the alignment, and with it the padding.
    assert(vstd::arithmetic::power2::is_pow2(w)) by {
        reveal_with_fuel(vstd::arithmetic::power2::is_pow2, 5);
    }
    crate::layout::lemma_power_of_two_divides(w, a);
    crate::layout::lemma_aligned_to_smaller(raw + w + offset, w, a);
    assert((raw + w) % w == 0) by {
        vstd::arithmetic::div_mod::lemma_mod_self_0(w);
        crate::layout::lemma_multiples(raw as int, w, w);
    }
    assert(offset % w == 0) by {
        crate::layout::lemma_multiples(raw + w + offset, raw + w, w);
    }
    assert(offset <= a - w) by {
        lemma_multiple_gap(offset, a, w);
    }
}

/// A multiple of `w` below another multiple of `w` is below it by `w`.
proof fn lemma_multiple_gap(x: int, a: int, w: int)
    requires
        0 < w,
        0 <= x < a,
        x % w == 0,
        a % w == 0,
    ensures
        x <= a - w,
{
    vstd::arithmetic::div_mod::lemma_fundamental_div_mod(x, w);
    vstd::arithmetic::div_mod::lemma_fundamental_div_mod(a, w);
    let q = x / w;
    let p = a / w;
    assert(q < p) by (nonlinear_arith)
        requires
            x == w * q,
            a == w * p,
            x < a,
            0 < w,
    ;
    assert(w * q <= w * (p - 1)) by (nonlinear_arith)
        requires
            q <= p - 1,
            0 < w,
    ;
    assert(w * (p - 1) == w * p - w) by (nonlinear_arith);
}

} // verus!
