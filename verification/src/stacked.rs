//! The bump arena: a stack of blocks in one buffer.

use vstd::prelude::*;
use core::mem::MaybeUninit;
use crate::base::{Allocator, Fallbackable};
use crate::history::{allocations, deallocations, permitted, permitted_run, run, step, Op};
use crate::layout::{
    lemma_aligned_to_smaller, lemma_padding, padding_for, AllocError, Block, Layout, Resized,
};

verus! {

/// A bump arena over the address range of a buffer.
///
/// Blocks are carved from the front of the unused part. Memory comes back
/// only when the block on top of the stack is given back.
pub struct Stacked {
    buf_ptr: usize,
    buf_len: usize,
    allocated: usize,
    allocations_count: usize,
}

/// The state of a [`Stacked`] arena.
pub struct StackedView {
    /// Address of the first byte of the buffer.
    pub base: nat,
    /// Length of the buffer.
    pub len: nat,
    /// Number of bytes consumed from the start of the buffer.
    pub used: nat,
    /// Number of blocks handed out and not yet given back.
    pub live: nat,
}

impl View for Stacked {
    type V = StackedView;

    closed spec fn view(&self) -> StackedView {
        StackedView {
            base: self.buf_ptr as nat,
            len: self.buf_len as nat,
            used: self.allocated as nat,
            live: self.allocations_count as nat,
        }
    }
}

impl StackedView {
    /// The state of an arena over the `len` bytes at address `base` from
    /// which nothing has been handed out.
    pub open spec fn empty(base: usize, len: usize) -> StackedView {
        StackedView { base: base as nat, len: len as nat, used: 0, live: 0 }
    }

    /// The invariant of the arena: the consumed part lies in the buffer, and
    /// the buffer in the address space.
    pub open spec fn inv(self) -> bool {
        &&& self.used <= self.len
        &&& self.base + self.len <= usize::MAX
        &&& self.live <= usize::MAX
    }

    /// The address of the first unused byte.
    pub open spec fn cursor(self) -> int {
        (self.base + self.used) as int
    }

    /// Whether the block at `addr` of `size` bytes ends at the cursor.
    pub open spec fn on_top(self, addr: usize, size: usize) -> bool {
        addr + size == self.cursor()
    }

    /// Whether `addr` lies in the buffer.
    pub open spec fn contains(self, addr: usize) -> bool {
        self.base <= addr < self.base + self.len
    }
}

/// The address of the first byte of `buf`.
///
/// Calls `<[T]>::as_mut_ptr` and takes the pointer's address. The claims: a
/// slice does not wrap around the address space (one of the conditions under
/// which `core::slice::from_raw_parts` makes a slice), and looking up where
/// its bytes stand does not change them.
#[verifier::external_body]
fn buf_addr(buf: &mut [MaybeUninit<u8>]) -> (r: usize)
    ensures
        r + old(buf)@.len() <= usize::MAX,
        final(buf)@ == old(buf)@,
{
    buf.as_mut_ptr() as usize
}

impl Stacked {
    /// An empty arena over the bytes of `buf`.
    pub fn from_static_slice(buf: &'static mut [MaybeUninit<u8>]) -> (r: Stacked)
        ensures
            r.wf(),
            r@.len == old(buf)@.len(),
            r@.used == 0,
            r@.live == 0,
    {
        let buf_ptr = buf_addr(buf);
        Stacked { buf_ptr, buf_len: buf.len(), allocated: 0, allocations_count: 0 }
    }

    /// An empty arena over the bytes of `buf`.
    pub fn from_static_array<const BUF_LEN: usize>(
        buf: &'static mut [MaybeUninit<u8>; BUF_LEN],
    ) -> (r: Stacked)
        ensures
            r.wf(),
            r@.len == BUF_LEN,
            r@.used == 0,
            r@.live == 0,
    {
        let buf: &mut [MaybeUninit<u8>] = buf;
        let buf_ptr = buf_addr(buf);
        Stacked { buf_ptr, buf_len: BUF_LEN, allocated: 0, allocations_count: 0 }
    }

    /// An empty arena over the `buf_len` bytes at address `buf_ptr`.
    fn new(buf_ptr: usize, buf_len: usize) -> (r: Stacked)
        requires
            buf_ptr + buf_len <= usize::MAX,
        ensures
            r.wf(),
            r@ == StackedView::empty(buf_ptr, buf_len),
    {
        Stacked { buf_ptr, buf_len, allocated: 0, allocations_count: 0 }
    }

    /// Runs `f` on an empty arena over the `buf_len` bytes at address
    /// `buf_ptr`, and returns what `f` returns beside the arena. The arena
    /// that `f` gives back has no live block.
    pub fn with_buf_raw<T, F: FnOnce(Stacked) -> (Stacked, T)>(
        buf_ptr: usize,
        buf_len: usize,
        f: F,
    ) -> (r: T)
        requires
            buf_ptr + buf_len <= usize::MAX,
            forall|s: Stacked|
                s.wf() && s@ == StackedView::empty(buf_ptr, buf_len) ==> f.requires((s,)),
            forall|s: Stacked, out: (Stacked, T)| f.ensures((s,), out) ==> out.0@.live == 0,
        ensures
            exists|s: Stacked, end: Stacked|
                s.wf() && s@ == StackedView::empty(buf_ptr, buf_len) && f.ensures((s,), (end, r)),
    {
        let stacked = Stacked::new(buf_ptr, buf_len);
        let (end, r) = f(stacked);
        r
    }

    /// The number of blocks handed out and not yet given back.
    pub fn allocations_count(&self) -> (r: usize)
        ensures
            r == self@.live,
    {
        self.allocations_count
    }

    /// The number of bytes consumed from the start of the buffer.
    pub fn allocated(&self) -> (r: usize)
        ensures
            r == self@.used,
    {
        self.allocated
    }
}

/// Runs `f` on an empty arena over a buffer of `BUF_LEN` bytes of its own,
/// and returns what `f` returns beside the arena. The arena that `f` gives
/// back has no live block.
pub fn with_size<const BUF_LEN: usize, T, F: FnOnce(Stacked) -> (Stacked, T)>(f: F) -> (r: T)
    requires
        forall|s: Stacked|
            s.wf() && s@.len == BUF_LEN && s@.used == 0 && s@.live == 0 ==> f.requires((s,)),
        forall|s: Stacked, out: (Stacked, T)| f.ensures((s,), out) ==> out.0@.live == 0,
    ensures
        exists|s: Stacked, end: Stacked|
            s.wf() && s@.len == BUF_LEN && s@.used == 0 && s@.live == 0 && f.ensures(
                (s,),
                (end, r),
            ),
{
    let mut buf: [MaybeUninit<u8>; BUF_LEN] = [MaybeUninit::uninit();BUF_LEN];
    let slice: &mut [MaybeUninit<u8>] = &mut buf;
    let buf_ptr = buf_addr(slice);
    let stacked = Stacked::new(buf_ptr, BUF_LEN);
    let (end, r) = f(stacked);
    r
}

/// Runs `f` on an empty arena over the bytes of `buf`, and returns what `f`
/// returns beside the arena. The arena that `f` gives back has no live
/// block.
pub fn with_buf<T, F: FnOnce(Stacked) -> (Stacked, T)>(buf: &mut [MaybeUninit<u8>], f: F) -> (r: T)
    requires
        forall|s: Stacked|
            s.wf() && s@.len == old(buf)@.len() && s@.used == 0 && s@.live == 0 ==> f.requires(
                (s,),
            ),
        forall|s: Stacked, out: (Stacked, T)| f.ensures((s,), out) ==> out.0@.live == 0,
    ensures
        exists|s: Stacked, end: Stacked|
            s.wf() && s@.len == old(buf)@.len() && s@.used == 0 && s@.live == 0 && f.ensures(
                (s,),
                (end, r),
            ),
        final(buf)@ == old(buf)@,
{
    let buf_len = buf.len();
    let buf_ptr = buf_addr(buf);
    let stacked = Stacked::new(buf_ptr, buf_len);
    let (end, r) = f(stacked);
    r
}

impl Allocator for Stacked {
    open spec fn wf(&self) -> bool {
        self@.inv()
    }

    open spec fn accepts_model(v: StackedView, addr: usize, layout: Layout) -> bool {
        &&& v.base <= addr
        &&& addr + layout.size() <= v.cursor()
        &&& addr % layout.align() == 0
        &&& v.live > 0
    }

    open spec fn resizes_model(v: StackedView, addr: usize, layout: Layout) -> bool {
        Self::accepts_model(v, addr, layout)
    }

    proof fn lemma_accepted_resizes(v: StackedView, addr: usize, layout: Layout) {
    }

    open spec fn allocate_model(v: StackedView, layout: Layout) -> (
        StackedView,
        Result<Block, AllocError>,
    ) {
        let pad = padding_for(v.cursor(), layout.align() as int);
        if pad + layout.size() > v.len - v.used || v.live >= usize::MAX {
            (v, Err(AllocError))
        } else {
            (
                StackedView {
                    used: (v.used + pad + layout.size()) as nat,
                    live: v.live + 1,
                    ..v
                },
                Ok(Block { addr: (v.cursor() + pad) as usize, size: layout.size() }),
            )
        }
    }

    open spec fn deallocate_model(v: StackedView, addr: usize, layout: Layout) -> StackedView {
        StackedView {
            used: if v.on_top(addr, layout.size()) {
                (addr - v.base) as nat
            } else {
                v.used
            },
            live: (v.live - 1) as nat,
            ..v
        }
    }

    open spec fn grow_model(
        v: StackedView,
        addr: usize,
        old_layout: Layout,
        new_layout: Layout,
    ) -> (
        StackedView,
        Result<Resized, AllocError>,
    ) {
        let pad = padding_for(addr as int, new_layout.align() as int);
        if !v.on_top(addr, old_layout.size()) || pad + new_layout.size() > v.base + v.len - addr {
            (v, Err(AllocError))
        } else {
            (
                StackedView { used: (addr - v.base + pad + new_layout.size()) as nat, ..v },
                Ok(
                    Resized {
                        block: Block { addr: (addr + pad) as usize, size: new_layout.size() },
                        copy: if pad == 0 {
                            0
                        } else {
                            old_layout.size()
                        },
                    },
                ),
            )
        }
    }

    open spec fn shrink_model(
        v: StackedView,
        addr: usize,
        old_layout: Layout,
        new_layout: Layout,
    ) -> (
        StackedView,
        Result<Resized, AllocError>,
    ) {
        if new_layout.align() > old_layout.align() {
            (v, Err(AllocError))
        } else if v.on_top(addr, old_layout.size()) {
            (
                StackedView { used: (addr - v.base + new_layout.size()) as nat, ..v },
                Ok(Resized { block: Block { addr, size: new_layout.size() }, copy: 0 }),
            )
        } else {
            (v, Ok(Resized { block: Block { addr, size: old_layout.size() }, copy: 0 }))
        }
    }

    proof fn lemma_failure_changes_nothing(
        v: StackedView,
        addr: usize,
        old_layout: Layout,
        new_layout: Layout,
    ) {
    }

    fn accepts(&self, addr: usize, layout: Layout) -> (r: bool) {
        proof {
            use_type_invariant(&layout);
            crate::layout::lemma_power_of_two_bound(layout.align());
        }
        addr >= self.buf_ptr && layout.size() <= self.allocated && addr - self.buf_ptr
            <= self.allocated - layout.size() && addr % layout.align() == 0
            && self.allocations_count > 0
    }

    fn allocate(&mut self, layout: Layout) -> (r: Result<Block, AllocError>) {
        proof {
            use_type_invariant(&layout);
            crate::layout::lemma_power_of_two_bound(layout.align());
            lemma_padding(self@.cursor(), layout.align() as int);
        }
        let cursor = self.buf_ptr + self.allocated;
        let padding = (layout.align() - cursor % layout.align()) % layout.align();
        let size = match padding.checked_add(layout.size()) {
            Some(size) => size,
            None => { return Err(AllocError); },
        };
        if size > self.buf_len - self.allocated {
            return Err(AllocError);
        }
        let allocations_count = match self.allocations_count.checked_add(1) {
            Some(allocations_count) => allocations_count,
            None => { return Err(AllocError); },
        };
        self.allocated = self.allocated + size;
        self.allocations_count = allocations_count;
        Ok(Block { addr: cursor + padding, size: layout.size() })
    }

    fn deallocate(&mut self, addr: usize, layout: Layout) {
        let start_offset = addr - self.buf_ptr;
        let end_offset = start_offset + layout.size();
        if self.allocated == end_offset {
            self.allocated = start_offset;
        }
        self.allocations_count = self.allocations_count - 1;
    }

    fn grow(&mut self, addr: usize, old_layout: Layout, new_layout: Layout) -> (r: Result<
        Resized,
        AllocError,
    >) {
        proof {
            use_type_invariant(&new_layout);
            crate::layout::lemma_power_of_two_bound(new_layout.align());
            lemma_padding(addr as int, new_layout.align() as int);
        }
        let start_offset = addr - self.buf_ptr;
        if start_offset + old_layout.size() != self.allocated {
            return Err(AllocError);
        }
        let padding = (new_layout.align() - addr % new_layout.align()) % new_layout.align();
        let size = match padding.checked_add(new_layout.size()) {
            Some(size) => size,
            None => { return Err(AllocError); },
        };
        if size > self.buf_len - start_offset {
            return Err(AllocError);
        }
        self.allocated = start_offset + size;
        let copy = if padding == 0 {
            0
        } else {
            old_layout.size()
        };
        Ok(Resized { block: Block { addr: addr + padding, size: new_layout.size() }, copy })
    }

    fn shrink(&mut self, addr: usize, old_layout: Layout, new_layout: Layout) -> (r: Result<
        Resized,
        AllocError,
    >)
        ensures
            r is Err <==> new_layout.align() > old_layout.align(),
    {
        if new_layout.align() > old_layout.align() {
            return Err(AllocError);
        }
        proof {
            use_type_invariant(&new_layout);
            use_type_invariant(&old_layout);
            lemma_aligned_to_smaller(
                addr as int,
                new_layout.align() as int,
                old_layout.align() as int,
            );
        }
        let start_offset = addr - self.buf_ptr;
        let size = if start_offset + old_layout.size() == self.allocated {
            self.allocated = start_offset + new_layout.size();
            new_layout.size()
        } else {
            old_layout.size()
        };
        Ok(Resized { block: Block { addr, size }, copy: 0 })
    }
}

/// One operation that the contract permits keeps the arena's invariant and
/// its buffer, and moves the count of live blocks by one exactly where a
/// block is handed out or taken back.
pub proof fn lemma_stacked_step(v: StackedView, op: Op)
    requires
        v.inv(),
        permitted::<Stacked>(v, op),
    ensures
        step::<Stacked>(v, op).inv(),
        step::<Stacked>(v, op).base == v.base,
        step::<Stacked>(v, op).len == v.len,
        step::<Stacked>(v, op).live == v.live + (if crate::history::hands_out::<Stacked>(v, op) {
            1int
        } else {
            0int
        }) - (if op is Deallocate {
            1int
        } else {
            0int
        }),
{
    match op {
        Op::Allocate { layout } => {
            crate::layout::lemma_power_of_two_bound(layout.align());
            lemma_padding(v.cursor(), layout.align() as int);
        },
        Op::Deallocate { addr, layout } => {},
        Op::Grow { addr, old_layout, new_layout } => {
            crate::layout::lemma_power_of_two_bound(new_layout.align());
            lemma_padding(addr as int, new_layout.align() as int);
        },
        Op::Shrink { addr, old_layout, new_layout } => {},
    }
}

/// `allocate` keeps the buffer of the arena, and takes neither bytes nor
/// live blocks from it.
pub proof fn lemma_stacked_allocate_grows(v: StackedView, layout: Layout)
    requires
        v.inv(),
        layout.wf(),
    ensures
        ({
            let w = Stacked::allocate_model(v, layout).0;
            &&& w.inv()
            &&& w.base == v.base
            &&& w.len == v.len
            &&& w.used >= v.used
            &&& w.live >= v.live
        }),
{
    lemma_stacked_step(v, Op::Allocate { layout });
    crate::layout::lemma_power_of_two_bound(layout.align());
    lemma_padding(v.cursor(), layout.align() as int);
}

/// After any sequence of operations that the contract permits, the consumed
/// part of the arena lies within its buffer, and the count of live blocks is
/// what it was, plus the blocks handed out, minus the blocks taken back.
pub proof fn lemma_stacked_counts(v: StackedView, ops: Seq<Op>)
    requires
        v.inv(),
        permitted_run::<Stacked>(v, ops),
    ensures
        run::<Stacked>(v, ops).inv(),
        run::<Stacked>(v, ops).used <= run::<Stacked>(v, ops).len,
        run::<Stacked>(v, ops).base == v.base,
        run::<Stacked>(v, ops).len == v.len,
        run::<Stacked>(v, ops).live == v.live + allocations::<Stacked>(v, ops) - deallocations(ops),
    decreases ops.len(),
{
    if ops.len() > 0 {
        lemma_stacked_counts(v, ops.drop_last());
        lemma_stacked_step(run::<Stacked>(v, ops.drop_last()), ops.last());
    }
}

/// A block that `allocate` hands out lies in the buffer behind everything
/// that was consumed before, and the consumed part ends where the block
/// ends.
pub proof fn lemma_stacked_block_in_arena(v: StackedView, layout: Layout)
    requires
        v.inv(),
        layout.wf(),
        Stacked::allocate_model(v, layout).1 is Ok,
    ensures
        ({
            let (w, r) = Stacked::allocate_model(v, layout);
            let b = r->Ok_0;
            &&& v.cursor() <= b.addr
            &&& b.addr + b.size == w.cursor()
            &&& w.cursor() <= w.base + w.len
            &&& b.size == layout.size()
            &&& b.addr % layout.align() == 0
        }),
{
    crate::layout::lemma_power_of_two_bound(layout.align());
    lemma_padding(v.cursor(), layout.align() as int);
}

/// A block that `allocate` hands out begins where every block that the
/// arena would take back has ended.
pub proof fn lemma_stacked_blocks_apart(
    v: StackedView,
    layout: Layout,
    addr: usize,
    held: Layout,
)
    requires
        v.inv(),
        layout.wf(),
        Stacked::accepts_model(v, addr, held),
        Stacked::allocate_model(v, layout).1 is Ok,
    ensures
        addr + held.size() <= Stacked::allocate_model(v, layout).1->Ok_0.addr,
        Stacked::accepts_model(Stacked::allocate_model(v, layout).0, addr, held),
{
    lemma_stacked_block_in_arena(v, layout);
}

/// Giving back at once the block that `allocate` handed out restores the
/// count of live blocks, and leaves of the bytes consumed only the padding
/// in front of the block.
pub proof fn lemma_stacked_round_trip(v: StackedView, layout: Layout)
    requires
        v.inv(),
        layout.wf(),
        Stacked::allocate_model(v, layout).1 is Ok,
    ensures
        ({
            let (v1, r) = Stacked::allocate_model(v, layout);
            let b = r->Ok_0;
            let v2 = Stacked::deallocate_model(v1, b.addr, layout);
            &&& Stacked::accepts_model(v1, b.addr, layout)
            &&& v2.live == v.live
            &&& v2.used == v.used + padding_for(v.cursor(), layout.align() as int)
            &&& v2.used <= v1.used
            &&& v2.base == v.base
            &&& v2.len == v.len
        }),
{
    crate::layout::lemma_power_of_two_bound(layout.align());
    lemma_padding(v.cursor(), layout.align() as int);
}

/// Growing the block on top of the stack to the layout it already has
/// changes nothing and returns the block with the same capacity.
pub proof fn lemma_stacked_grow_same(v: StackedView, addr: usize, layout: Layout)
    requires
        v.inv(),
        layout.wf(),
        Stacked::accepts_model(v, addr, layout),
        v.on_top(addr, layout.size()),
    ensures
        Stacked::grow_model(v, addr, layout, layout) == (
            v,
            Ok::<Resized, AllocError>(
                Resized { block: Block { addr, size: layout.size() }, copy: 0 },
            ),
        ),
{
    crate::layout::lemma_power_of_two_bound(layout.align());
    lemma_padding(addr as int, layout.align() as int);
}

/// Growing a block that is not on top of the stack fails and changes nothing.
pub proof fn lemma_stacked_grow_below_top(
    v: StackedView,
    addr: usize,
    old_layout: Layout,
    new_layout: Layout,
)
    requires
        !v.on_top(addr, old_layout.size()),
    ensures
        Stacked::grow_model(v, addr, old_layout, new_layout) == (
            v,
            Err::<Resized, AllocError>(AllocError),
        ),
{
}

/// `shrink` fails exactly when the new alignment is wider than the old one,
/// and a failed `shrink` changes nothing.
pub proof fn lemma_stacked_shrink_fails(
    v: StackedView,
    addr: usize,
    old_layout: Layout,
    new_layout: Layout,
)
    ensures
        Stacked::shrink_model(v, addr, old_layout, new_layout).1 is Err <==> new_layout.align()
            > old_layout.align(),
        Stacked::shrink_model(v, addr, old_layout, new_layout).1 is Err
            ==> Stacked::shrink_model(v, addr, old_layout, new_layout).0 == v,
{
}

impl Fallbackable for Stacked {
    open spec fn has_allocated_model(v: StackedView, addr: usize, layout: Layout) -> bool {
        v.contains(addr)
    }

    open spec fn allows_fallback_model(v: StackedView, layout: Layout) -> bool {
        true
    }

    fn has_allocated(&self, addr: usize, layout: Layout) -> (r: bool) {
        addr >= self.buf_ptr && addr - self.buf_ptr < self.buf_len
    }

    fn allows_fallback(&self, layout: Layout) -> (r: bool) {
        true
    }

    proof fn lemma_fallback_is_settled(v: StackedView, op: Op, layout: Layout) {
    }

    proof fn lemma_refusal_claims(v: StackedView, addr: usize, layout: Layout) {
    }
}

} // verus!
