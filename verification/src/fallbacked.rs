//! The fallback combinator: a primary allocator, and a secondary one for
//! what the primary cannot serve.

use vstd::prelude::*;
use crate::base::{Allocator, Fallbackable};
use crate::history::{permitted, permitted_run, run, step, Op};
use crate::layout::{lemma_padding, lemma_power_of_two_bound, AllocError, Block, Layout, Resized};
use crate::limited_up_to::{LimitedUpTo, LimitedUpToView};
use crate::stacked::{lemma_stacked_step, Stacked, StackedView};

verus! {

/// A primary allocator backed by a secondary one.
///
/// A request goes to the primary first, and to the secondary if the primary
/// fails and allows fallback. A block goes back to the primary exactly if
/// the primary claims it.
pub struct Fallbacked<A: Allocator, Fallback: Allocator>(pub A, pub Fallback);

/// The state of a [`Fallbacked`] pair.
pub struct FallbackedView<P, S> {
    /// The state of the primary allocator.
    pub primary: P,
    /// The state of the secondary allocator.
    pub secondary: S,
}

impl<A: Allocator, Fallback: Allocator> View for Fallbacked<A, Fallback> {
    type V = FallbackedView<A::V, Fallback::V>;

    open spec fn view(&self) -> FallbackedView<A::V, Fallback::V> {
        FallbackedView { primary: self.0@, secondary: self.1@ }
    }
}

/// What `grow` or `shrink` does once the primary has failed to resize its
/// block in state `p`: where fallback is allowed, a new block is taken from
/// the secondary, the old one goes back to the primary, and the caller is
/// told to copy `copy` bytes.
pub open spec fn cross_over<A: Fallbackable, Fallback: Allocator>(
    p: A::V,
    s: Fallback::V,
    addr: usize,
    old_layout: Layout,
    new_layout: Layout,
    copy: usize,
) -> (FallbackedView<A::V, Fallback::V>, Result<Resized, AllocError>) {
    if A::allows_fallback_model(p, new_layout) {
        let (s_after, r) = Fallback::allocate_model(s, new_layout);
        match r {
            Ok(block) => (
                FallbackedView {
                    primary: A::deallocate_model(p, addr, old_layout),
                    secondary: s_after,
                },
                Ok(Resized { block, copy }),
            ),
            Err(_) => (FallbackedView { primary: p, secondary: s_after }, Err(AllocError)),
        }
    } else {
        (FallbackedView { primary: p, secondary: s }, Err(AllocError))
    }
}

impl<A: Fallbackable, Fallback: Allocator> Allocator for Fallbacked<A, Fallback> {
    open spec fn wf(&self) -> bool {
        self.0.wf() && self.1.wf()
    }

    open spec fn accepts_model(
        v: FallbackedView<A::V, Fallback::V>,
        addr: usize,
        layout: Layout,
    ) -> bool {
        if A::has_allocated_model(v.primary, addr, layout) {
            A::accepts_model(v.primary, addr, layout)
        } else {
            Fallback::accepts_model(v.secondary, addr, layout)
        }
    }

    open spec fn resizes_model(
        v: FallbackedView<A::V, Fallback::V>,
        addr: usize,
        layout: Layout,
    ) -> bool {
        if A::has_allocated_model(v.primary, addr, layout) {
            A::accepts_model(v.primary, addr, layout)
        } else {
            Fallback::resizes_model(v.secondary, addr, layout)
        }
    }

    proof fn lemma_accepted_resizes(
        v: FallbackedView<A::V, Fallback::V>,
        addr: usize,
        layout: Layout,
    ) {
        Fallback::lemma_accepted_resizes(v.secondary, addr, layout);
    }

    open spec fn allocate_model(v: FallbackedView<A::V, Fallback::V>, layout: Layout) -> (
        FallbackedView<A::V, Fallback::V>,
        Result<Block, AllocError>,
    ) {
        let (p_after, r) = A::allocate_model(v.primary, layout);
        if r is Ok {
            (FallbackedView { primary: p_after, ..v }, r)
        } else if A::allows_fallback_model(p_after, layout) {
            let (s_after, r1) = Fallback::allocate_model(v.secondary, layout);
            (FallbackedView { primary: p_after, secondary: s_after }, r1)
        } else {
            (FallbackedView { primary: p_after, ..v }, Err(AllocError))
        }
    }

    open spec fn deallocate_model(
        v: FallbackedView<A::V, Fallback::V>,
        addr: usize,
        layout: Layout,
    ) -> FallbackedView<A::V, Fallback::V> {
        if A::has_allocated_model(v.primary, addr, layout) {
            FallbackedView { primary: A::deallocate_model(v.primary, addr, layout), ..v }
        } else {
            FallbackedView { secondary: Fallback::deallocate_model(v.secondary, addr, layout), ..v }
        }
    }

    open spec fn grow_model(
        v: FallbackedView<A::V, Fallback::V>,
        addr: usize,
        old_layout: Layout,
        new_layout: Layout,
    ) -> (FallbackedView<A::V, Fallback::V>, Result<Resized, AllocError>) {
        if A::has_allocated_model(v.primary, addr, old_layout) {
            let (p_after, r) = A::grow_model(v.primary, addr, old_layout, new_layout);
            if r is Ok {
                (FallbackedView { primary: p_after, ..v }, r)
            } else {
                cross_over::<A, Fallback>(
                    p_after,
                    v.secondary,
                    addr,
                    old_layout,
                    new_layout,
                    old_layout.size(),
                )
            }
        } else {
            let (s_after, r) = Fallback::grow_model(v.secondary, addr, old_layout, new_layout);
            (FallbackedView { secondary: s_after, ..v }, r)
        }
    }

    open spec fn shrink_model(
        v: FallbackedView<A::V, Fallback::V>,
        addr: usize,
        old_layout: Layout,
        new_layout: Layout,
    ) -> (FallbackedView<A::V, Fallback::V>, Result<Resized, AllocError>) {
        if A::has_allocated_model(v.primary, addr, old_layout) {
            let (p_after, r) = A::shrink_model(v.primary, addr, old_layout, new_layout);
            if r is Ok {
                (FallbackedView { primary: p_after, ..v }, r)
            } else {
                cross_over::<A, Fallback>(
                    p_after,
                    v.secondary,
                    addr,
                    old_layout,
                    new_layout,
                    new_layout.size(),
                )
            }
        } else {
            let (s_after, r) = Fallback::shrink_model(v.secondary, addr, old_layout, new_layout);
            (FallbackedView { secondary: s_after, ..v }, r)
        }
    }

    proof fn lemma_failure_changes_nothing(
        v: FallbackedView<A::V, Fallback::V>,
        addr: usize,
        old_layout: Layout,
        new_layout: Layout,
    ) {
        A::lemma_failure_changes_nothing(v.primary, addr, old_layout, new_layout);
        Fallback::lemma_failure_changes_nothing(v.secondary, addr, old_layout, new_layout);
    }

    fn accepts(&self, addr: usize, layout: Layout) -> (r: bool) {
        if self.0.has_allocated(addr, layout) {
            self.0.accepts(addr, layout)
        } else {
            self.1.accepts(addr, layout)
        }
    }

    fn allocate(&mut self, layout: Layout) -> (r: Result<Block, AllocError>) {
        if let Ok(block) = self.0.allocate(layout) {
            Ok(block)
        } else if self.0.allows_fallback(layout) {
            self.1.allocate(layout)
        } else {
            Err(AllocError)
        }
    }

    fn deallocate(&mut self, addr: usize, layout: Layout) {
        if self.0.has_allocated(addr, layout) {
            self.0.deallocate(addr, layout);
        } else {
            self.1.deallocate(addr, layout);
        }
    }

    fn grow(&mut self, addr: usize, old_layout: Layout, new_layout: Layout) -> (r: Result<
        Resized,
        AllocError,
    >) {
        if self.0.has_allocated(addr, old_layout) {
            proof {
                A::lemma_accepted_resizes(self.0@, addr, old_layout);
            }
            if let Ok(g) = self.0.grow(addr, old_layout, new_layout) {
                Ok(g)
            } else if self.0.allows_fallback(new_layout) {
                if let Ok(block) = self.1.allocate(new_layout) {
                    self.0.deallocate(addr, old_layout);
                    Ok(Resized { block, copy: old_layout.size() })
                } else {
                    Err(AllocError)
                }
            } else {
                Err(AllocError)
            }
        } else {
            self.1.grow(addr, old_layout, new_layout)
        }
    }

    fn shrink(&mut self, addr: usize, old_layout: Layout, new_layout: Layout) -> (r: Result<
        Resized,
        AllocError,
    >) {
        if self.0.has_allocated(addr, old_layout) {
            proof {
                A::lemma_accepted_resizes(self.0@, addr, old_layout);
            }
            if let Ok(g) = self.0.shrink(addr, old_layout, new_layout) {
                Ok(g)
            } else if self.0.allows_fallback(new_layout) {
                if let Ok(block) = self.1.allocate(new_layout) {
                    self.0.deallocate(addr, old_layout);
                    Ok(Resized { block, copy: new_layout.size() })
                } else {
                    Err(AllocError)
                }
            } else {
                Err(AllocError)
            }
        } else {
            self.1.shrink(addr, old_layout, new_layout)
        }
    }
}

/// Whether the block that `allocate(layout)` hands out in state `v` is taken
/// from the primary allocator.
pub open spec fn served_by_primary<A: Fallbackable, Fallback: Allocator>(
    v: FallbackedView<A::V, Fallback::V>,
    layout: Layout,
) -> bool {
    A::allocate_model(v.primary, layout).1 is Ok
}

/// Whether the buffers of two arenas have no address in common.
pub open spec fn apart(p: StackedView, s: StackedView) -> bool {
    p.base + p.len <= s.base || s.base + s.len <= p.base
}

/// Of two arenas with buffers apart, exactly one claims a block of nonzero
/// size that the pair hands out: the one that the block was taken from.
pub proof fn lemma_arenas_claim_once(v: FallbackedView<StackedView, StackedView>, layout: Layout)
    requires
        v.primary.inv(),
        v.secondary.inv(),
        apart(v.primary, v.secondary),
        layout.wf(),
        layout.size() > 0,
        Fallbacked::<Stacked, Stacked>::allocate_model(v, layout).1 is Ok,
    ensures
        ({
            let (v1, r) = Fallbacked::<Stacked, Stacked>::allocate_model(v, layout);
            let b = r->Ok_0;
            &&& Stacked::has_allocated_model(v1.primary, b.addr, layout)
                != Stacked::has_allocated_model(v1.secondary, b.addr, layout)
            &&& Stacked::has_allocated_model(v1.primary, b.addr, layout) == served_by_primary::<
                Stacked,
                Stacked,
            >(v, layout)
        }),
{
    lemma_power_of_two_bound(layout.align());
    lemma_padding(v.primary.cursor(), layout.align() as int);
    lemma_padding(v.secondary.cursor(), layout.align() as int);
}

/// No address is claimed by both of two arenas with buffers apart, whatever
/// has been done to them.
pub proof fn lemma_arenas_never_share(
    p: StackedView,
    s: StackedView,
    addr: usize,
    layout: Layout,
)
    requires
        apart(p, s),
    ensures
        !(Stacked::has_allocated_model(p, addr, layout) && Stacked::has_allocated_model(
            s,
            addr,
            layout,
        )),
{
}

/// One operation on a pair of arenas keeps the buffer of each.
pub proof fn lemma_arenas_step(v: FallbackedView<StackedView, StackedView>, op: Op)
    requires
        v.primary.inv(),
        v.secondary.inv(),
        permitted::<Fallbacked<Stacked, Stacked>>(v, op),
    ensures
        ({
            let w = step::<Fallbacked<Stacked, Stacked>>(v, op);
            &&& w.primary.inv()
            &&& w.secondary.inv()
            &&& w.primary.base == v.primary.base
            &&& w.primary.len == v.primary.len
            &&& w.secondary.base == v.secondary.base
            &&& w.secondary.len == v.secondary.len
        }),
{
    match op {
        Op::Allocate { layout } => {
            lemma_stacked_step(v.primary, op);
            lemma_stacked_step(v.secondary, op);
        },
        Op::Deallocate { addr, layout } => {
            if Stacked::has_allocated_model(v.primary, addr, layout) {
                lemma_stacked_step(v.primary, op);
            } else {
                lemma_stacked_step(v.secondary, op);
            }
        },
        Op::Grow { addr, old_layout, new_layout } => {
            if Stacked::has_allocated_model(v.primary, addr, old_layout) {
                lemma_stacked_step(v.primary, op);
                lemma_stacked_step(v.secondary, Op::Allocate { layout: new_layout });
                lemma_stacked_step(v.primary, Op::Deallocate { addr, layout: old_layout });
            } else {
                lemma_stacked_step(v.secondary, op);
            }
        },
        Op::Shrink { addr, old_layout, new_layout } => {
            if Stacked::has_allocated_model(v.primary, addr, old_layout) {
                lemma_stacked_step(v.primary, op);
                lemma_stacked_step(v.secondary, Op::Allocate { layout: new_layout });
                lemma_stacked_step(v.primary, Op::Deallocate { addr, layout: old_layout });
            } else {
                lemma_stacked_step(v.secondary, op);
            }
        },
    }
}

/// After any sequence of operations that the contract permits, two arenas
/// with buffers apart still have their buffers, so that they claim what they
/// claimed at first, and no address is claimed by both.
pub proof fn lemma_arenas_stay_apart(
    v: FallbackedView<StackedView, StackedView>,
    ops: Seq<Op>,
    addr: usize,
    layout: Layout,
)
    requires
        v.primary.inv(),
        v.secondary.inv(),
        apart(v.primary, v.secondary),
        permitted_run::<Fallbacked<Stacked, Stacked>>(v, ops),
    ensures
        ({
            let w = run::<Fallbacked<Stacked, Stacked>>(v, ops);
            &&& w.primary.inv()
            &&& w.secondary.inv()
            &&& apart(w.primary, w.secondary)
            &&& Stacked::has_allocated_model(w.primary, addr, layout)
                == Stacked::has_allocated_model(v.primary, addr, layout)
            &&& Stacked::has_allocated_model(w.secondary, addr, layout)
                == Stacked::has_allocated_model(v.secondary, addr, layout)
            &&& !(Stacked::has_allocated_model(w.primary, addr, layout)
                && Stacked::has_allocated_model(w.secondary, addr, layout))
        }),
    decreases ops.len(),
{
    if ops.len() > 0 {
        lemma_arenas_stay_apart(v, ops.drop_last(), addr, layout);
        lemma_arenas_step(run::<Fallbacked<Stacked, Stacked>>(v, ops.drop_last()), ops.last());
    }
}

/// Behind a size limiter as primary, the primary claims a block that the pair
/// hands out exactly if the block was taken from the primary.
pub proof fn lemma_limiter_claims_its_own<A: Allocator, Fallback: Allocator>(
    v: FallbackedView<LimitedUpToView<A::V>, Fallback::V>,
    layout: Layout,
)
    requires
        Fallbacked::<LimitedUpTo<A>, Fallback>::allocate_model(v, layout).1 is Ok,
    ensures
        ({
            let (v1, r) = Fallbacked::<LimitedUpTo<A>, Fallback>::allocate_model(v, layout);
            LimitedUpTo::<A>::has_allocated_model(v1.primary, r->Ok_0.addr, layout)
                == served_by_primary::<LimitedUpTo<A>, Fallback>(v, layout)
        }),
{
}

/// Where the primary claims a block that the pair hands out exactly if the
/// block was taken from it, giving the block back at once is the round trip
/// of the allocator that served it; the other one is as before.
pub proof fn lemma_fallbacked_round_trip<A: Fallbackable, Fallback: Allocator>(
    v: FallbackedView<A::V, Fallback::V>,
    layout: Layout,
)
    requires
        Fallbacked::<A, Fallback>::allocate_model(v, layout).1 is Ok,
        ({
            let (v1, r) = Fallbacked::<A, Fallback>::allocate_model(v, layout);
            A::has_allocated_model(v1.primary, r->Ok_0.addr, layout) == served_by_primary::<
                A,
                Fallback,
            >(v, layout)
        }),
    ensures
        ({
            let (v1, r) = Fallbacked::<A, Fallback>::allocate_model(v, layout);
            let v2 = Fallbacked::<A, Fallback>::deallocate_model(v1, r->Ok_0.addr, layout);
            if served_by_primary::<A, Fallback>(v, layout) {
                let (p_after, rp) = A::allocate_model(v.primary, layout);
                &&& r == rp
                &&& v2.primary == A::deallocate_model(p_after, rp->Ok_0.addr, layout)
                &&& v2.secondary == v.secondary
            } else {
                let (s_after, rs) = Fallback::allocate_model(v.secondary, layout);
                &&& r == rs
                &&& v2.primary == v.primary
                &&& v2.secondary == Fallback::deallocate_model(s_after, rs->Ok_0.addr, layout)
            }
        }),
{
    A::lemma_failure_changes_nothing(v.primary, 0, layout, layout);
}

/// Where growing a block to the layout it has changes nothing in the
/// allocator that the block goes back to, it changes nothing in the pair,
/// and the capacity is the same.
pub proof fn lemma_fallbacked_grow_same<A: Fallbackable, Fallback: Allocator>(
    v: FallbackedView<A::V, Fallback::V>,
    addr: usize,
    layout: Layout,
    capacity: usize,
)
    requires
        ({
            let same = Ok::<Resized, AllocError>(
                Resized { block: Block { addr, size: capacity }, copy: 0 },
            );
            if A::has_allocated_model(v.primary, addr, layout) {
                A::grow_model(v.primary, addr, layout, layout) == (v.primary, same)
            } else {
                Fallback::grow_model(v.secondary, addr, layout, layout) == (v.secondary, same)
            }
        }),
    ensures
        Fallbacked::<A, Fallback>::grow_model(v, addr, layout, layout) == (
            v,
            Ok::<Resized, AllocError>(Resized { block: Block { addr, size: capacity }, copy: 0 }),
        ),
{
}

impl<A: Fallbackable, Fallback: Fallbackable> Fallbackable for Fallbacked<A, Fallback> {
    open spec fn has_allocated_model(
        v: FallbackedView<A::V, Fallback::V>,
        addr: usize,
        layout: Layout,
    ) -> bool {
        A::has_allocated_model(v.primary, addr, layout) || Fallback::has_allocated_model(
            v.secondary,
            addr,
            layout,
        )
    }

    open spec fn allows_fallback_model(
        v: FallbackedView<A::V, Fallback::V>,
        layout: Layout,
    ) -> bool {
        A::allows_fallback_model(v.primary, layout) && Fallback::allows_fallback_model(
            v.secondary,
            layout,
        )
    }

    fn has_allocated(&self, addr: usize, layout: Layout) -> (r: bool) {
        self.0.has_allocated(addr, layout) || self.1.has_allocated(addr, layout)
    }

    fn allows_fallback(&self, layout: Layout) -> (r: bool) {
        self.0.allows_fallback(layout) && self.1.allows_fallback(layout)
    }

    proof fn lemma_fallback_is_settled(
        v: FallbackedView<A::V, Fallback::V>,
        op: Op,
        layout: Layout,
    ) {
        A::lemma_fallback_is_settled(v.primary, op, layout);
        Fallback::lemma_fallback_is_settled(v.secondary, op, layout);
        match op {
            Op::Allocate { layout: given } => {},
            Op::Deallocate { addr, layout: given } => {},
            Op::Grow { addr, old_layout, new_layout } => {
                let p = A::grow_model(v.primary, addr, old_layout, new_layout).0;
                A::lemma_fallback_is_settled(
                    p,
                    Op::Deallocate { addr, layout: old_layout },
                    layout,
                );
                Fallback::lemma_fallback_is_settled(
                    v.secondary,
                    Op::Allocate { layout: new_layout },
                    layout,
                );
            },
            Op::Shrink { addr, old_layout, new_layout } => {
                let p = A::shrink_model(v.primary, addr, old_layout, new_layout).0;
                A::lemma_fallback_is_settled(
                    p,
                    Op::Deallocate { addr, layout: old_layout },
                    layout,
                );
                Fallback::lemma_fallback_is_settled(
                    v.secondary,
                    Op::Allocate { layout: new_layout },
                    layout,
                );
            },
        }
    }

    proof fn lemma_refusal_claims(
        v: FallbackedView<A::V, Fallback::V>,
        addr: usize,
        layout: Layout,
    ) {
        A::lemma_refusal_claims(v.primary, addr, layout);
        Fallback::lemma_refusal_claims(v.secondary, addr, layout);
    }
}

} // verus!
