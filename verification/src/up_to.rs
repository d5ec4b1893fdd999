//! The size limiter with its maximum given by a parameter type.

use vstd::prelude::*;
use crate::base::{Allocator, Fallbackable};
use crate::history::Op;
use crate::layout::{valid_layout, AllocError, Block, Layout, Resized};
use crate::limited_up_to::{cap_block, fits_within, LimitedUpTo, LimitedUpToView};

verus! {

/// The source of a limiter's maximum. The maximum is a constant of the value
/// that gives it.
pub trait Params {
    /// The maximum.
    spec fn layout_model(&self) -> Layout;

    /// The maximum.
    fn layout(&self) -> (r: Layout)
        ensures
            r == self.layout_model(),
    ;
}

/// A maximum fixed at compile time.
pub struct CtParams<const LAYOUT_SIZE: usize, const LAYOUT_ALIGN: usize>(());

impl<const LAYOUT_SIZE: usize, const LAYOUT_ALIGN: usize> CtParams<LAYOUT_SIZE, LAYOUT_ALIGN> {
    #[verifier::type_invariant]
    spec fn valid(self) -> bool {
        valid_layout(LAYOUT_SIZE as int, LAYOUT_ALIGN as int)
    }

    /// The maximum of `LAYOUT_SIZE` bytes aligned to `LAYOUT_ALIGN`.
    pub fn new() -> (r: Self)
        requires
            LAYOUT_ALIGN <= isize::MAX,
            valid_layout(LAYOUT_SIZE as int, LAYOUT_ALIGN as int),
        ensures
            r.layout_model() == Layout::of(LAYOUT_SIZE, LAYOUT_ALIGN),
    {
        CtParams(())
    }
}

impl<const LAYOUT_SIZE: usize, const LAYOUT_ALIGN: usize> Params for CtParams<
    LAYOUT_SIZE,
    LAYOUT_ALIGN,
> {
    open spec fn layout_model(&self) -> Layout {
        Layout::of(LAYOUT_SIZE, LAYOUT_ALIGN)
    }

    fn layout(&self) -> (r: Layout) {
        proof {
            use_type_invariant(self);
        }
        Layout::from_size_align_unchecked(LAYOUT_SIZE, LAYOUT_ALIGN)
    }
}

/// A maximum given at run time.
pub struct RtParams {
    /// The maximum.
    pub layout: Layout,
}

impl Params for RtParams {
    open spec fn layout_model(&self) -> Layout {
        self.layout
    }

    fn layout(&self) -> (r: Layout) {
        self.layout
    }
}

/// A base allocator limited to the layouts that fit within the maximum that
/// its parameters give. It behaves as [`LimitedUpTo`] does.
pub struct UpTo<P: Params, A: Allocator> {
    params: P,
    base: A,
}

impl<P: Params, A: Allocator> View for UpTo<P, A> {
    type V = LimitedUpToView<A::V>;

    closed spec fn view(&self) -> LimitedUpToView<A::V> {
        LimitedUpToView { layout: self.params.layout_model(), base: self.base@ }
    }
}

impl<P: Params, A: Allocator> UpTo<P, A> {
    /// A limiter in front of `base` that lets requests up to the maximum of
    /// `params` through.
    pub fn new(params: P, base: A) -> (r: Self)
        requires
            base.wf(),
        ensures
            r.wf(),
            r@ == (LimitedUpToView { layout: params.layout_model(), base: base@ }),
    {
        UpTo { params, base }
    }

    /// The base allocator.
    pub fn base(&self) -> (r: &A)
        requires
            self.wf(),
        ensures
            r.wf(),
            r@ == self@.base,
    {
        &self.base
    }

    /// Takes the limiter away and returns the base allocator.
    pub fn into_base(self) -> (r: A)
        requires
            self.wf(),
        ensures
            r.wf(),
            r@ == self@.base,
    {
        self.base
    }

    /// Tells whether a request for `layout` is let through: such a request
    /// is the limiter's own, and never falls back.
    pub fn manages_on_its_own(&self, layout: Layout) -> (r: bool)
        ensures
            r == fits_within(layout, self@.layout),
    {
        layout.size() <= self.params.layout().size() && layout.align()
            <= self.params.layout().align()
    }
}

impl<P: Params, A: Allocator> Allocator for UpTo<P, A> {
    closed spec fn wf(&self) -> bool {
        self.base.wf()
    }

    open spec fn accepts_model(v: LimitedUpToView<A::V>, addr: usize, layout: Layout) -> bool {
        LimitedUpTo::<A>::accepts_model(v, addr, layout)
    }

    open spec fn resizes_model(v: LimitedUpToView<A::V>, addr: usize, layout: Layout) -> bool {
        LimitedUpTo::<A>::resizes_model(v, addr, layout)
    }

    proof fn lemma_accepted_resizes(v: LimitedUpToView<A::V>, addr: usize, layout: Layout) {
        A::lemma_accepted_resizes(v.base, addr, layout);
    }

    open spec fn allocate_model(v: LimitedUpToView<A::V>, layout: Layout) -> (
        LimitedUpToView<A::V>,
        Result<Block, AllocError>,
    ) {
        LimitedUpTo::<A>::allocate_model(v, layout)
    }

    open spec fn deallocate_model(v: LimitedUpToView<A::V>, addr: usize, layout: Layout)
        -> LimitedUpToView<A::V> {
        LimitedUpTo::<A>::deallocate_model(v, addr, layout)
    }

    open spec fn grow_model(
        v: LimitedUpToView<A::V>,
        addr: usize,
        old_layout: Layout,
        new_layout: Layout,
    ) -> (LimitedUpToView<A::V>, Result<Resized, AllocError>) {
        LimitedUpTo::<A>::grow_model(v, addr, old_layout, new_layout)
    }

    open spec fn shrink_model(
        v: LimitedUpToView<A::V>,
        addr: usize,
        old_layout: Layout,
        new_layout: Layout,
    ) -> (LimitedUpToView<A::V>, Result<Resized, AllocError>) {
        LimitedUpTo::<A>::shrink_model(v, addr, old_layout, new_layout)
    }

    proof fn lemma_failure_changes_nothing(
        v: LimitedUpToView<A::V>,
        addr: usize,
        old_layout: Layout,
        new_layout: Layout,
    ) {
        LimitedUpTo::<A>::lemma_failure_changes_nothing(v, addr, old_layout, new_layout);
    }

    fn accepts(&self, addr: usize, layout: Layout) -> (r: bool) {
        self.base.accepts(addr, layout)
    }

    fn allocate(&mut self, layout: Layout) -> (r: Result<Block, AllocError>) {
        if self.manages_on_its_own(layout) {
            match self.base.allocate(layout) {
                Ok(block) => Ok(cap_block(block, self.params.layout().size())),
                Err(_) => Err(AllocError),
            }
        } else {
            Err(AllocError)
        }
    }

    fn deallocate(&mut self, addr: usize, layout: Layout) {
        self.base.deallocate(addr, layout);
    }

    fn grow(&mut self, addr: usize, old_layout: Layout, new_layout: Layout) -> (r: Result<
        Resized,
        AllocError,
    >) {
        if self.manages_on_its_own(new_layout) {
            match self.base.grow(addr, old_layout, new_layout) {
                Ok(g) => Ok(
                    Resized {
                        block: cap_block(g.block, self.params.layout().size()),
                        copy: g.copy,
                    },
                ),
                Err(_) => Err(AllocError),
            }
        } else {
            Err(AllocError)
        }
    }

    fn shrink(&mut self, addr: usize, old_layout: Layout, new_layout: Layout) -> (r: Result<
        Resized,
        AllocError,
    >) {
        if self.manages_on_its_own(new_layout) {
            match self.base.shrink(addr, old_layout, new_layout) {
                Ok(g) => Ok(
                    Resized {
                        block: cap_block(g.block, self.params.layout().size()),
                        copy: g.copy,
                    },
                ),
                Err(_) => Err(AllocError),
            }
        } else {
            Err(AllocError)
        }
    }
}

impl<P: Params, A: Allocator> Fallbackable for UpTo<P, A> {
    open spec fn has_allocated_model(
        v: LimitedUpToView<A::V>,
        addr: usize,
        layout: Layout,
    ) -> bool {
        fits_within(layout, v.layout)
    }

    open spec fn allows_fallback_model(v: LimitedUpToView<A::V>, layout: Layout) -> bool {
        !fits_within(layout, v.layout)
    }

    fn has_allocated(&self, addr: usize, layout: Layout) -> (r: bool) {
        self.manages_on_its_own(layout)
    }

    fn allows_fallback(&self, layout: Layout) -> (r: bool) {
        !self.manages_on_its_own(layout)
    }

    proof fn lemma_fallback_is_settled(v: LimitedUpToView<A::V>, op: Op, layout: Layout) {
    }

    proof fn lemma_refusal_claims(v: LimitedUpToView<A::V>, addr: usize, layout: Layout) {
    }
}

} // verus!
