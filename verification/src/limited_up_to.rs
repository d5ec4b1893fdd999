//! The size limiter: an allocator that serves only requests up to a maximum.

use vstd::prelude::*;
use crate::base::{Allocator, Fallbackable};
use crate::history::Op;
use crate::layout::{AllocError, Block, Layout, Resized};

verus! {

/// Whether a request for `layout` lies within `max` in size and alignment.
pub open spec fn fits_within(layout: Layout, max: Layout) -> bool {
    layout.size() <= max.size() && layout.align() <= max.align()
}

/// `block`, with no more capacity reported than `cap`.
pub open spec fn capped(block: Block, cap: usize) -> Block {
    Block {
        addr: block.addr,
        size: if block.size <= cap {
            block.size
        } else {
            cap
        },
    }
}

/// The result of a limited `allocate`: `r`, with the capacity capped.
pub open spec fn capped_block(r: Result<Block, AllocError>, cap: usize) -> Result<
    Block,
    AllocError,
> {
    match r {
        Ok(b) => Ok(capped(b, cap)),
        Err(_) => Err(AllocError),
    }
}

/// The result of a limited `grow` or `shrink`: `r`, with the capacity capped.
pub open spec fn capped_resized(r: Result<Resized, AllocError>, cap: usize) -> Result<
    Resized,
    AllocError,
> {
    match r {
        Ok(g) => Ok(Resized { block: capped(g.block, cap), copy: g.copy }),
        Err(_) => Err(AllocError),
    }
}

/// Caps the capacity that `block` reports.
pub fn cap_block(block: Block, cap: usize) -> (r: Block)
    ensures
        r == capped(block, cap),
{
    Block {
        addr: block.addr,
        size: if block.size <= cap {
            block.size
        } else {
            cap
        },
    }
}

/// A base allocator limited to the layouts that fit within a maximum.
///
/// Requests beyond the maximum fail, and may fall back; requests within it
/// are the limiter's own, whoever holds the memory.
pub struct LimitedUpTo<A: Allocator> {
    layout: Layout,
    base: A,
}

/// The state of a [`LimitedUpTo`] limiter.
pub struct LimitedUpToView<B> {
    /// The maximum that a request may ask for.
    pub layout: Layout,
    /// The state of the base allocator.
    pub base: B,
}

impl<A: Allocator> View for LimitedUpTo<A> {
    type V = LimitedUpToView<A::V>;

    closed spec fn view(&self) -> LimitedUpToView<A::V> {
        LimitedUpToView { layout: self.layout, base: self.base@ }
    }
}

impl<A: Allocator> LimitedUpTo<A> {
    /// A limiter in front of `base` that lets requests up to `layout` through.
    pub fn new(layout: Layout, base: A) -> (r: Self)
        requires
            base.wf(),
        ensures
            r.wf(),
            r@ == (LimitedUpToView { layout, base: base@ }),
    {
        LimitedUpTo { layout, base }
    }

    /// The base allocator.
    pub fn base(&self) -> (r: &A)
        requires
            self.wf(),
        ensures
            r.wf(),
            r@ == self@.base,
    {
        &self.base
    }

    /// Takes the limiter away and returns the base allocator.
    pub fn into_base(self) -> (r: A)
        requires
            self.wf(),
        ensures
            r.wf(),
            r@ == self@.base,
    {
        self.base
    }

    /// Whether a request for `layout` is let through.
    pub open spec fn manages_model(v: LimitedUpToView<A::V>, layout: Layout) -> bool {
        fits_within(layout, v.layout)
    }

    /// Tells whether a request for `layout` is let through.
    pub fn manages(&self, layout: Layout) -> (r: bool)
        ensures
            r == Self::manages_model(self@, layout),
    {
        layout.size() <= self.layout.size() && layout.align() <= self.layout.align()
    }
}

impl<A: Allocator> Allocator for LimitedUpTo<A> {
    closed spec fn wf(&self) -> bool {
        self.base.wf()
    }

    open spec fn accepts_model(v: LimitedUpToView<A::V>, addr: usize, layout: Layout) -> bool {
        A::accepts_model(v.base, addr, layout)
    }

    open spec fn resizes_model(v: LimitedUpToView<A::V>, addr: usize, layout: Layout) -> bool {
        A::resizes_model(v.base, addr, layout)
    }

    proof fn lemma_accepted_resizes(v: LimitedUpToView<A::V>, addr: usize, layout: Layout) {
        A::lemma_accepted_resizes(v.base, addr, layout);
    }

    open spec fn allocate_model(v: LimitedUpToView<A::V>, layout: Layout) -> (
        LimitedUpToView<A::V>,
        Result<Block, AllocError>,
    ) {
        if Self::manages_model(v, layout) {
            let (base, r) = A::allocate_model(v.base, layout);
            (LimitedUpToView { base, ..v }, capped_block(r, v.layout.size()))
        } else {
            (v, Err(AllocError))
        }
    }

    open spec fn deallocate_model(v: LimitedUpToView<A::V>, addr: usize, layout: Layout)
        -> LimitedUpToView<A::V> {
        LimitedUpToView { base: A::deallocate_model(v.base, addr, layout), ..v }
    }

    open spec fn grow_model(
        v: LimitedUpToView<A::V>,
        addr: usize,
        old_layout: Layout,
        new_layout: Layout,
    ) -> (LimitedUpToView<A::V>, Result<Resized, AllocError>) {
        if Self::manages_model(v, new_layout) {
            let (base, r) = A::grow_model(v.base, addr, old_layout, new_layout);
            (LimitedUpToView { base, ..v }, capped_resized(r, v.layout.size()))
        } else {
            (v, Err(AllocError))
        }
    }

    open spec fn shrink_model(
        v: LimitedUpToView<A::V>,
        addr: usize,
        old_layout: Layout,
        new_layout: Layout,
    ) -> (LimitedUpToView<A::V>, Result<Resized, AllocError>) {
        if Self::manages_model(v, new_layout) {
            let (base, r) = A::shrink_model(v.base, addr, old_layout, new_layout);
            (LimitedUpToView { base, ..v }, capped_resized(r, v.layout.size()))
        } else {
            (v, Err(AllocError))
        }
    }

    proof fn lemma_failure_changes_nothing(
        v: LimitedUpToView<A::V>,
        addr: usize,
        old_layout: Layout,
        new_layout: Layout,
    ) {
        A::lemma_failure_changes_nothing(v.base, addr, old_layout, new_layout);
    }

    fn accepts(&self, addr: usize, layout: Layout) -> (r: bool) {
        self.base.accepts(addr, layout)
    }

    fn allocate(&mut self, layout: Layout) -> (r: Result<Block, AllocError>) {
        if self.manages(layout) {
            match self.base.allocate(layout) {
                Ok(block) => Ok(cap_block(block, self.layout.size())),
                Err(_) => Err(AllocError),
            }
        } else {
            Err(AllocError)
        }
    }

    fn deallocate(&mut self, addr: usize, layout: Layout) {
        self.base.deallocate(addr, layout);
    }

    fn grow(&mut self, addr: usize, old_layout: Layout, new_layout: Layout) -> (r: Result<
        Resized,
        AllocError,
    >) {
        if self.manages(new_layout) {
            match self.base.grow(addr, old_layout, new_layout) {
                Ok(g) => Ok(
                    Resized { block: cap_block(g.block, self.layout.size()), copy: g.copy },
                ),
                Err(_) => Err(AllocError),
            }
        } else {
            Err(AllocError)
        }
    }

    fn shrink(&mut self, addr: usize, old_layout: Layout, new_layout: Layout) -> (r: Result<
        Resized,
        AllocError,
    >) {
        if self.manages(new_layout) {
            match self.base.shrink(addr, old_layout, new_layout) {
                Ok(g) => Ok(
                    Resized { block: cap_block(g.block, self.layout.size()), copy: g.copy },
                ),
                Err(_) => Err(AllocError),
            }
        } else {
            Err(AllocError)
        }
    }
}

/// Whether a request is the limiter's or not is a matter of its layout alone:
/// no operation changes the maximum.
pub proof fn lemma_limiter_keeps_maximum<A: Allocator>(
    v: LimitedUpToView<A::V>,
    op: crate::history::Op,
)
    ensures
        crate::history::step::<LimitedUpTo<A>>(v, op).layout == v.layout,
{
}

/// A block that the limiter hands out and takes back at once makes the round
/// trip of the base allocator.
pub proof fn lemma_limiter_round_trip<A: Allocator>(v: LimitedUpToView<A::V>, layout: Layout)
    requires
        LimitedUpTo::<A>::allocate_model(v, layout).1 is Ok,
    ensures
        ({
            let (v1, r) = LimitedUpTo::<A>::allocate_model(v, layout);
            let (b1, rb) = A::allocate_model(v.base, layout);
            let v2 = LimitedUpTo::<A>::deallocate_model(v1, r->Ok_0.addr, layout);
            &&& rb is Ok
            &&& r->Ok_0.addr == rb->Ok_0.addr
            &&& v2.layout == v.layout
            &&& v2.base == A::deallocate_model(b1, rb->Ok_0.addr, layout)
        }),
{
}

/// Where growing a block to the layout it has changes nothing in the base
/// allocator, it changes nothing behind the limiter, and the capacity is the
/// base allocator's, capped.
pub proof fn lemma_limiter_grow_same<A: Allocator>(
    v: LimitedUpToView<A::V>,
    addr: usize,
    layout: Layout,
    capacity: usize,
)
    requires
        LimitedUpTo::<A>::manages_model(v, layout),
        A::grow_model(v.base, addr, layout, layout) == (
            v.base,
            Ok::<Resized, AllocError>(Resized { block: Block { addr, size: capacity }, copy: 0 }),
        ),
    ensures
        LimitedUpTo::<A>::grow_model(v, addr, layout, layout) == (
            v,
            Ok::<Resized, AllocError>(
                Resized { block: capped(Block { addr, size: capacity }, v.layout.size()), copy: 0 },
            ),
        ),
{
}

impl<A: Allocator> Fallbackable for LimitedUpTo<A> {
    open spec fn has_allocated_model(
        v: LimitedUpToView<A::V>,
        addr: usize,
        layout: Layout,
    ) -> bool {
        Self::manages_model(v, layout)
    }

    open spec fn allows_fallback_model(v: LimitedUpToView<A::V>, layout: Layout) -> bool {
        !Self::manages_model(v, layout)
    }

    fn has_allocated(&self, addr: usize, layout: Layout) -> (r: bool) {
        self.manages(layout)
    }

    fn allows_fallback(&self, layout: Layout) -> (r: bool) {
        !self.manages(layout)
    }

    proof fn lemma_fallback_is_settled(v: LimitedUpToView<A::V>, op: Op, layout: Layout) {
    }

    proof fn lemma_refusal_claims(v: LimitedUpToView<A::V>, addr: usize, layout: Layout) {
    }
}

} // verus!
