//! The segregated tower: size classes with a free-list each, over one bump
//! arena that they share.

use vstd::prelude::*;
use vstd::arithmetic::power2::{
    is_pow2, lemma2_to64, lemma_pow2_strictly_increases, lemma_pow2_unfold, pow2,
};
use vstd::layout::align_of;
use crate::base::{Allocator, Fallbackable};
use crate::history::{step, Op};
use crate::freelist::{Cache, Freelist, FreelistView, NoLimit};
use crate::layout::{AllocError, Block, Layout, Resized};
use crate::limited_up_to::{cap_block, fits_within, LimitedUpTo, LimitedUpToView};
use crate::stacked::{lemma_stacked_allocate_grows, Stacked, StackedView};

verus! {

/// One class of the tower, taken by itself: a size limiter in front of a
/// free-list in front of the arena.
pub type Class = LimitedUpTo<Freelist<NoLimit, Stacked>>;

/// The state of a [`Class`].
pub type ClassView = LimitedUpToView<FreelistView<StackedView>>;

/// A chain of size classes over one bump arena.
///
/// Each class stands before the next as the primary allocator of a fallback
/// pair stands before the secondary one, and all their free-lists draw on
/// the same arena. A request is served by the first class whose maximum it
/// fits; a block goes back to the first class whose maximum its layout
/// fits, or to the last class.
pub struct Tower {
    base: Stacked,
    classes: Vec<Cache<NoLimit>>,
}

/// The state of a [`Tower`].
pub struct TowerView {
    /// The state of the arena.
    pub base: StackedView,
    /// The states of the caches of the classes, the smallest class first.
    /// The target layout of a cache is the maximum of its class.
    pub classes: Seq<FreelistView<()>>,
}

impl TowerView {
    /// The state of class `i`, taken by itself.
    pub open spec fn class(self, i: int) -> ClassView {
        LimitedUpToView {
            layout: self.classes[i].layout,
            base: self.classes[i].with_base(self.base),
        }
    }

    /// The state of the tower once class `i`, taken by itself, has come to
    /// state `c`.
    pub open spec fn put(self, i: int, c: ClassView) -> TowerView {
        TowerView { base: c.base.base, classes: self.classes.update(i, c.base.with_base(())) }
    }

    /// Whether class `i` claims the blocks of `layout`: whether `layout`
    /// fits its maximum.
    pub open spec fn claims(self, i: int, layout: Layout) -> bool {
        fits_within(layout, self.classes[i].layout)
    }

    /// Whether class `i` is the last one.
    pub open spec fn last(self, i: int) -> bool {
        i + 1 == self.classes.len()
    }

    /// Whether `w` differs from this state by no more than allocations in
    /// the classes from `i` on: the classes before `i` are as they were, and
    /// the arena has the same buffer and has not shrunk.
    pub open spec fn grown_behind(self, w: TowerView, i: nat) -> bool {
        &&& w.classes.len() == self.classes.len()
        &&& forall|k: int|
            0 <= k < i && k < self.classes.len() ==> #[trigger] w.classes[k] == self.classes[k]
        &&& w.base.base == self.base.base
        &&& w.base.len == self.base.len
        &&& w.base.used >= self.base.used
        &&& w.base.live >= self.base.live
    }

    /// Whether some class from `i` on claims the blocks of `layout`.
    pub open spec fn claims_from(self, layout: Layout, i: nat) -> bool
        decreases self.classes.len() - i,
    {
        i < self.classes.len() && (self.claims(i as int, layout) || self.claims_from(
            layout,
            i + 1,
        ))
    }

    /// Whether the block at `addr` may be given back with `layout` to the
    /// chain that starts at class `i`.
    pub open spec fn accepts_from(self, addr: usize, layout: Layout, i: nat) -> bool
        decreases self.classes.len() - i,
    {
        if i >= self.classes.len() {
            false
        } else if self.last(i as int) || self.claims(i as int, layout) {
            Class::accepts_model(self.class(i as int), addr, layout)
        } else {
            self.accepts_from(addr, layout, i + 1)
        }
    }

    /// Whether the block at `addr` may be handed to `grow` or `shrink`, with
    /// `layout` as its old layout, on the chain that starts at class `i`.
    pub open spec fn resizes_from(self, addr: usize, layout: Layout, i: nat) -> bool
        decreases self.classes.len() - i,
    {
        if i >= self.classes.len() {
            false
        } else if self.last(i as int) {
            Class::resizes_model(self.class(i as int), addr, layout)
        } else if self.claims(i as int, layout) {
            Class::accepts_model(self.class(i as int), addr, layout)
        } else {
            self.resizes_from(addr, layout, i + 1)
        }
    }

    /// The state after `allocate(layout)` on the chain that starts at class
    /// `i`, and its result.
    pub open spec fn allocate_from(self, layout: Layout, i: nat) -> (
        TowerView,
        Result<Block, AllocError>,
    )
        decreases self.classes.len() - i,
    {
        if i >= self.classes.len() {
            (self, Err(AllocError))
        } else {
            let (c, r) = Class::allocate_model(self.class(i as int), layout);
            if r is Ok {
                (self.put(i as int, c), r)
            } else if Class::allows_fallback_model(c, layout) {
                self.allocate_from(layout, i + 1)
            } else {
                (self, Err(AllocError))
            }
        }
    }

    /// The state after `deallocate(addr, layout)` on the chain that starts
    /// at class `i`.
    pub open spec fn deallocate_from(self, addr: usize, layout: Layout, i: nat) -> TowerView
        decreases self.classes.len() - i,
    {
        if i >= self.classes.len() {
            self
        } else if self.last(i as int) || self.claims(i as int, layout) {
            self.put(i as int, Class::deallocate_model(self.class(i as int), addr, layout))
        } else {
            self.deallocate_from(addr, layout, i + 1)
        }
    }

    /// What `grow` or `shrink` does once class `i` has failed to resize its
    /// block: where the new layout is beyond the class, a new block is taken
    /// from the classes behind it, the old one goes back to class `i`, and
    /// the caller is told to copy `copy` bytes.
    pub open spec fn cross_over(
        self,
        addr: usize,
        old_layout: Layout,
        new_layout: Layout,
        copy: usize,
        i: nat,
    ) -> (TowerView, Result<Resized, AllocError>) {
        if self.claims(i as int, new_layout) {
            (self, Err(AllocError))
        } else {
            let (v, r) = self.allocate_from(new_layout, i + 1);
            match r {
                Ok(block) => (
                    v.put(i as int, Class::deallocate_model(v.class(i as int), addr, old_layout)),
                    Ok(Resized { block, copy }),
                ),
                Err(_) => (self, Err(AllocError)),
            }
        }
    }

    /// The state after `grow(addr, old_layout, new_layout)` on the chain
    /// that starts at class `i`, and its result.
    pub open spec fn grow_from(self, addr: usize, old_layout: Layout, new_layout: Layout, i: nat)
        -> (TowerView, Result<Resized, AllocError>)
        decreases self.classes.len() - i,
    {
        if i >= self.classes.len() {
            (self, Err(AllocError))
        } else if self.last(i as int) || self.claims(i as int, old_layout) {
            let (c, r) = Class::grow_model(self.class(i as int), addr, old_layout, new_layout);
            if r is Ok || self.last(i as int) {
                (self.put(i as int, c), r)
            } else {
                self.cross_over(addr, old_layout, new_layout, old_layout.size(), i)
            }
        } else {
            self.grow_from(addr, old_layout, new_layout, i + 1)
        }
    }

    /// The state after `shrink(addr, old_layout, new_layout)` on the chain
    /// that starts at class `i`, and its result.
    pub open spec fn shrink_from(
        self,
        addr: usize,
        old_layout: Layout,
        new_layout: Layout,
        i: nat,
    ) -> (TowerView, Result<Resized, AllocError>)
        decreases self.classes.len() - i,
    {
        if i >= self.classes.len() {
            (self, Err(AllocError))
        } else if self.last(i as int) || self.claims(i as int, old_layout) {
            let (c, r) = Class::shrink_model(self.class(i as int), addr, old_layout, new_layout);
            if r is Ok || self.last(i as int) {
                (self.put(i as int, c), r)
            } else {
                self.cross_over(addr, old_layout, new_layout, new_layout.size(), i)
            }
        } else {
            self.shrink_from(addr, old_layout, new_layout, i + 1)
        }
    }
}

/// The number of classes of the standard tower.
pub const CLASSES: usize = 14;

/// The maximal size of class `i` of the standard tower: 8 bytes for the
/// first class, and twice as much for each class that follows.
pub open spec fn class_size(i: nat) -> nat {
    8 * pow2(i)
}

/// The least size that the free-list of class `i` of the standard tower
/// manages: one byte more than the class before it holds.
pub open spec fn class_floor(i: nat) -> nat {
    if i == 0 {
        1
    } else {
        class_size((i - 1) as nat) + 1
    }
}

/// The state of the cache of class `i` of the standard tower, when it is
/// empty: blocks of the maximal size aligned to 8, for requests from the
/// least size on, in any number.
pub open spec fn standard_class(i: nat) -> FreelistView<()> {
    FreelistView {
        layout: Layout::of(class_size(i) as usize, 8),
        tolerance: Layout::of(class_floor(i) as usize, 1),
        limit: None,
        cached: Seq::empty(),
        released: Seq::empty(),
        base: (),
    }
}

/// Whether the free-list of class `i` of the standard tower manages
/// requests of `size` bytes.
pub open spec fn in_band(size: nat, i: nat) -> bool {
    class_floor(i) <= size <= class_size(i)
}

/// Every size from one byte up to 64 KiB falls into the band of exactly one
/// class of the standard tower, and that class is the first whose maximum
/// the size fits.
pub proof fn lemma_one_class(size: nat)
    requires
        1 <= size <= 65536,
    ensures
        exists|i: nat|
            {
                &&& i < CLASSES
                &&& #[trigger] in_band(size, i)
                &&& forall|j: nat| j < CLASSES && j != i ==> !#[trigger] in_band(size, j)
                &&& forall|j: nat| j < i ==> size > #[trigger] class_size(j)
            },
{
    lemma2_to64();
    let i: nat = if size <= 8 {
        0
    } else if size <= 16 {
        1
    } else if size <= 32 {
        2
    } else if size <= 64 {
        3
    } else if size <= 128 {
        4
    } else if size <= 256 {
        5
    } else if size <= 512 {
        6
    } else if size <= 1024 {
        7
    } else if size <= 2048 {
        8
    } else if size <= 4096 {
        9
    } else if size <= 8192 {
        10
    } else if size <= 16384 {
        11
    } else if size <= 32768 {
        12
    } else {
        13
    };
    assert(in_band(size, i));
    assert forall|j: nat| j < CLASSES && j != i implies !#[trigger] in_band(size, j) by {
        if j > 0 {
            assert(class_floor(j) == class_size((j - 1) as nat) + 1);
        }
    }
    assert forall|j: nat| j < i implies size > #[trigger] class_size(j) by {}
}

/// Whether two states of the tower have the same classes, as far as their
/// layouts go.
pub open spec fn same_classes(v: TowerView, w: TowerView) -> bool {
    &&& w.classes.len() == v.classes.len()
    &&& forall|k: int|
        0 <= k < v.classes.len() ==> (#[trigger] w.classes[k]).layout == v.classes[k].layout
            && w.classes[k].tolerance == v.classes[k].tolerance
}

/// Putting back a class after one of its operations keeps the classes of
/// the tower, as far as their layouts go.
proof fn lemma_put_keeps_classes(v: TowerView, i: int, c: ClassView)
    requires
        0 <= i < v.classes.len(),
        c.base.layout == v.classes[i].layout,
        c.base.tolerance == v.classes[i].tolerance,
    ensures
        same_classes(v, v.put(i, c)),
{
}

/// `allocate` on the chain that starts at class `i` keeps the classes of the
/// tower, as far as their layouts go.
proof fn lemma_allocate_keeps_classes(v: TowerView, layout: Layout, i: nat)
    ensures
        same_classes(v, v.allocate_from(layout, i).0),
    decreases v.classes.len() - i,
{
    if i < v.classes.len() {
        lemma_allocate_keeps_classes(v, layout, i + 1);
        lemma_put_keeps_classes(v, i as int, Class::allocate_model(v.class(i as int), layout).0);
    }
}

/// An operation on the chain that starts at class `i` keeps the classes of
/// the tower, as far as their layouts go.
proof fn lemma_tower_keeps_classes(v: TowerView, op: Op, i: nat)
    ensures
        match op {
            Op::Allocate { layout } => same_classes(v, v.allocate_from(layout, i).0),
            Op::Deallocate { addr, layout } => same_classes(v, v.deallocate_from(addr, layout, i)),
            Op::Grow { addr, old_layout, new_layout } => same_classes(
                v,
                v.grow_from(addr, old_layout, new_layout, i).0,
            ),
            Op::Shrink { addr, old_layout, new_layout } => same_classes(
                v,
                v.shrink_from(addr, old_layout, new_layout, i).0,
            ),
        },
    decreases v.classes.len() - i,
{
    if i < v.classes.len() {
        lemma_tower_keeps_classes(v, op, i + 1);
        let k = i as int;
        match op {
            Op::Allocate { layout } => {
                lemma_allocate_keeps_classes(v, layout, i);
            },
            Op::Deallocate { addr, layout } => {
                lemma_put_keeps_classes(v, k, Class::deallocate_model(v.class(k), addr, layout));
            },
            Op::Grow { addr, old_layout, new_layout } => {
                lemma_put_keeps_classes(
                    v,
                    k,
                    Class::grow_model(v.class(k), addr, old_layout, new_layout).0,
                );
                lemma_allocate_keeps_classes(v, new_layout, i + 1);
                let w = v.allocate_from(new_layout, i + 1).0;
                lemma_put_keeps_classes(
                    w,
                    k,
                    Class::deallocate_model(w.class(k), addr, old_layout),
                );
            },
            Op::Shrink { addr, old_layout, new_layout } => {
                lemma_put_keeps_classes(
                    v,
                    k,
                    Class::shrink_model(v.class(k), addr, old_layout, new_layout).0,
                );
                lemma_allocate_keeps_classes(v, new_layout, i + 1);
                let w = v.allocate_from(new_layout, i + 1).0;
                lemma_put_keeps_classes(
                    w,
                    k,
                    Class::deallocate_model(w.class(k), addr, old_layout),
                );
            },
        }
    }
}

/// Which classes claim a layout is a matter of their maxima alone.
proof fn lemma_claims_by_maximum(v: TowerView, w: TowerView, layout: Layout, i: nat)
    requires
        same_classes(v, w),
    ensures
        w.claims_from(layout, i) == v.claims_from(layout, i),
    decreases v.classes.len() - i,
{
    if i < v.classes.len() {
        lemma_claims_by_maximum(v, w, layout, i + 1);
        assert(w.classes[i as int].layout == v.classes[i as int].layout);
    }
}

/// A block that may be given back to the chain that starts at class `i` may
/// be resized by it.
pub proof fn lemma_tower_accepted_resizes(v: TowerView, addr: usize, layout: Layout, i: nat)
    ensures
        v.accepts_from(addr, layout, i) ==> v.resizes_from(addr, layout, i),
    decreases v.classes.len() - i,
{
    if i < v.classes.len() {
        lemma_tower_accepted_resizes(v, addr, layout, i + 1);
        Class::lemma_accepted_resizes(v.class(i as int), addr, layout);
    }
}

/// A request is served by the first class that claims its layout, as that
/// class taken by itself serves it; the classes in front of it stay as they
/// are, and those behind it are not asked.
pub proof fn lemma_first_fit(v: TowerView, layout: Layout, i: nat, from: nat)
    requires
        from <= i < v.classes.len(),
        v.claims(i as int, layout),
        forall|j: int| from <= j < i ==> !v.claims(j, layout),
    ensures
        ({
            let (c, r) = Class::allocate_model(v.class(i as int), layout);
            v.allocate_from(layout, from) == (
                if r is Ok {
                    v.put(i as int, c)
                } else {
                    v
                },
                r,
            )
        }),
    decreases i - from,
{
    if from < i {
        assert(!v.claims(from as int, layout));
        lemma_first_fit(v, layout, i, from + 1);
    } else {
        Class::lemma_failure_changes_nothing(v.class(i as int), 0, layout, layout);
    }
}

/// A request that no class claims fails.
pub proof fn lemma_beyond_the_tower(v: TowerView, layout: Layout, from: nat)
    requires
        forall|j: int| from <= j < v.classes.len() ==> !v.claims(j, layout),
    ensures
        v.allocate_from(layout, from) == (v, Err::<Block, AllocError>(AllocError)),
    decreases v.classes.len() - from,
{
    if from < v.classes.len() {
        assert(!v.claims(from as int, layout));
        lemma_beyond_the_tower(v, layout, from + 1);
    }
}

/// A failed operation on the chain that starts at class `i` changes nothing.
pub proof fn lemma_tower_failure(
    v: TowerView,
    addr: usize,
    old_layout: Layout,
    new_layout: Layout,
    i: nat,
)
    ensures
        v.allocate_from(new_layout, i).1 is Err ==> v.allocate_from(new_layout, i).0 == v,
        v.grow_from(addr, old_layout, new_layout, i).1 is Err ==> v.grow_from(
            addr,
            old_layout,
            new_layout,
            i,
        ).0 == v,
        v.shrink_from(addr, old_layout, new_layout, i).1 is Err ==> v.shrink_from(
            addr,
            old_layout,
            new_layout,
            i,
        ).0 == v,
    decreases v.classes.len() - i,
{
    if i < v.classes.len() {
        lemma_tower_failure(v, addr, old_layout, new_layout, i + 1);
        Class::lemma_failure_changes_nothing(v.class(i as int), addr, old_layout, new_layout);
        lemma_put_same(v, i as int);
    }
}

/// A cache that is put in front of an arena and taken from it again is the
/// cache that it was.
pub proof fn lemma_cache_apart(c: FreelistView<()>, base: StackedView)
    ensures
        c.with_base(base).with_base(()) == c,
{
    assert(c.base == ());
}

/// Putting back a class as it is leaves the tower as it is.
pub proof fn lemma_put_same(v: TowerView, i: int)
    requires
        0 <= i < v.classes.len(),
    ensures
        v.put(i, v.class(i)) == v,
{
    lemma_cache_apart(v.classes[i], v.base);
    assert(v.classes.update(i, v.classes[i]) =~= v.classes);
}

impl View for Tower {
    type V = TowerView;

    closed spec fn view(&self) -> TowerView {
        TowerView { base: self.base@, classes: self.classes@.map_values(|c: Cache<NoLimit>| c@) }
    }
}

impl Tower {
    /// The invariant of the tower.
    pub closed spec fn inv(&self) -> bool {
        &&& self.base.wf()
        &&& forall|i: int| 0 <= i < self.classes@.len() ==> (#[trigger] self.classes@[i]).wf()
    }

    /// The number of classes.
    pub fn classes(&self) -> (r: usize)
        ensures
            r == self@.classes.len(),
    {
        self.classes.len()
    }

    /// The arena.
    pub fn base(&self) -> (r: &Stacked)
        requires
            self.inv(),
        ensures
            r.wf(),
            r@ == self@.base,
    {
        &self.base
    }

    /// Tells whether class `i` claims the blocks of `layout`.
    fn claims(&self, i: usize, layout: Layout) -> (r: bool)
        requires
            i < self@.classes.len(),
        ensures
            r == self@.claims(i as int, layout),
    {
        let max = self.classes[i].layout();
        layout.size() <= max.size() && layout.align() <= max.align()
    }

    /// [`Allocator::accepts`] of class `i`, taken by itself.
    fn class_accepts(&self, i: usize, addr: usize, layout: Layout) -> (r: bool)
        requires
            self.inv(),
            i < self@.classes.len(),
        ensures
            r == Class::accepts_model(self@.class(i as int), addr, layout),
    {
        self.classes[i].accepts(&self.base, addr, layout)
    }

    /// [`Allocator::allocate`] of class `i`, taken by itself.
    fn class_allocate(&mut self, i: usize, layout: Layout) -> (r: Result<Block, AllocError>)
        requires
            old(self).inv(),
            i < old(self)@.classes.len(),
        ensures
            final(self).inv(),
            final(self)@ == old(self)@.put(
                i as int,
                Class::allocate_model(old(self)@.class(i as int), layout).0,
            ),
            r == Class::allocate_model(old(self)@.class(i as int), layout).1,
            r matches Ok(b) ==> b.addr % layout.align() == 0 && b.size >= layout.size(),
            r is Err ==> final(self)@ == old(self)@,
    {
        if self.claims(i, layout) {
            let max = self.classes[i].layout();
            let r = self.classes[i].allocate(&mut self.base, layout);
            proof {
                let v0 = old(self)@;
                let f1 = Freelist::<NoLimit, Stacked>::allocate_model(
                    v0.class(i as int).base,
                    layout,
                ).0;
                assert(self.classes@[i as int]@.with_base(self.base@) == f1);
                lemma_cache_apart(self.classes@[i as int]@, self.base@);
                assert(self@.classes =~= v0.classes.update(i as int, f1.with_base(())));
                if r is Err {
                    lemma_put_same(v0, i as int);
                }
            }
            match r {
                Ok(block) => Ok(cap_block(block, max.size())),
                Err(_) => Err(AllocError),
            }
        } else {
            proof {
                lemma_put_same(old(self)@, i as int);
            }
            Err(AllocError)
        }
    }

    /// [`Allocator::deallocate`] of class `i`, taken by itself.
    fn class_deallocate(&mut self, i: usize, addr: usize, layout: Layout)
        requires
            old(self).inv(),
            i < old(self)@.classes.len(),
            Class::accepts_model(old(self)@.class(i as int), addr, layout),
        ensures
            final(self).inv(),
            final(self)@ == old(self)@.put(
                i as int,
                Class::deallocate_model(old(self)@.class(i as int), addr, layout),
            ),
    {
        self.classes[i].deallocate(&mut self.base, addr, layout);
        proof {
            let v0 = old(self)@;
            let f1 = Freelist::<NoLimit, Stacked>::deallocate_model(
                v0.class(i as int).base,
                addr,
                layout,
            );
            assert(self.classes@[i as int]@.with_base(self.base@) == f1);
            lemma_cache_apart(self.classes@[i as int]@, self.base@);
            assert(self@.classes =~= v0.classes.update(i as int, f1.with_base(())));
        }
    }

    /// [`Allocator::grow`] of class `i`, taken by itself.
    fn class_grow(&mut self, i: usize, addr: usize, old_layout: Layout, new_layout: Layout) -> (r:
        Result<Resized, AllocError>)
        requires
            old(self).inv(),
            i < old(self)@.classes.len(),
            Class::resizes_model(old(self)@.class(i as int), addr, old_layout),
        ensures
            final(self).inv(),
            final(self)@ == old(self)@.put(
                i as int,
                Class::grow_model(old(self)@.class(i as int), addr, old_layout, new_layout).0,
            ),
            r == Class::grow_model(old(self)@.class(i as int), addr, old_layout, new_layout).1,
            r matches Ok(g) ==> g.block.addr % new_layout.align() == 0 && g.block.size
                >= new_layout.size(),
            r is Err ==> final(self)@ == old(self)@,
    {
        if self.claims(i, new_layout) {
            let max = self.classes[i].layout();
            let r = self.classes[i].grow(&mut self.base, addr, old_layout, new_layout);
            proof {
                let v0 = old(self)@;
                let f1 = Freelist::<NoLimit, Stacked>::grow_model(
                    v0.class(i as int).base,
                    addr,
                    old_layout,
                    new_layout,
                ).0;
                assert(self.classes@[i as int]@.with_base(self.base@) == f1);
                lemma_cache_apart(self.classes@[i as int]@, self.base@);
                assert(self@.classes =~= v0.classes.update(i as int, f1.with_base(())));
                if r is Err {
                    lemma_put_same(v0, i as int);
                }
            }
            match r {
                Ok(g) => Ok(Resized { block: cap_block(g.block, max.size()), copy: g.copy }),
                Err(_) => Err(AllocError),
            }
        } else {
            proof {
                lemma_put_same(old(self)@, i as int);
            }
            Err(AllocError)
        }
    }

    /// [`Allocator::shrink`] of class `i`, taken by itself.
    fn class_shrink(&mut self, i: usize, addr: usize, old_layout: Layout, new_layout: Layout) -> (r:
        Result<Resized, AllocError>)
        requires
            old(self).inv(),
            i < old(self)@.classes.len(),
            Class::resizes_model(old(self)@.class(i as int), addr, old_layout),
            new_layout.size() <= old_layout.size(),
        ensures
            final(self).inv(),
            final(self)@ == old(self)@.put(
                i as int,
                Class::shrink_model(old(self)@.class(i as int), addr, old_layout, new_layout).0,
            ),
            r == Class::shrink_model(old(self)@.class(i as int), addr, old_layout, new_layout).1,
            r matches Ok(g) ==> g.block.addr % new_layout.align() == 0 && g.block.size
                >= new_layout.size(),
            r is Err ==> final(self)@ == old(self)@,
    {
        if self.claims(i, new_layout) {
            let max = self.classes[i].layout();
            let r = self.classes[i].shrink(&mut self.base, addr, old_layout, new_layout);
            proof {
                let v0 = old(self)@;
                let f1 = Freelist::<NoLimit, Stacked>::shrink_model(
                    v0.class(i as int).base,
                    addr,
                    old_layout,
                    new_layout,
                ).0;
                assert(self.classes@[i as int]@.with_base(self.base@) == f1);
                lemma_cache_apart(self.classes@[i as int]@, self.base@);
                assert(self@.classes =~= v0.classes.update(i as int, f1.with_base(())));
                if r is Err {
                    lemma_put_same(v0, i as int);
                }
            }
            match r {
                Ok(g) => Ok(Resized { block: cap_block(g.block, max.size()), copy: g.copy }),
                Err(_) => Err(AllocError),
            }
        } else {
            proof {
                lemma_put_same(old(self)@, i as int);
            }
            Err(AllocError)
        }
    }

    /// [`Allocator::accepts`] of the chain that starts at class `i`.
    fn accepts_in(&self, addr: usize, layout: Layout, i: usize) -> (r: bool)
        requires
            self.inv(),
            i <= self@.classes.len(),
        ensures
            r == self@.accepts_from(addr, layout, i as nat),
        decreases self@.classes.len() - i,
    {
        if i >= self.classes.len() {
            false
        } else if i + 1 == self.classes.len() || self.claims(i, layout) {
            self.class_accepts(i, addr, layout)
        } else {
            self.accepts_in(addr, layout, i + 1)
        }
    }

    /// Tells whether some class from `i` on claims the blocks of `layout`.
    fn claims_in(&self, layout: Layout, i: usize) -> (r: bool)
        requires
            i <= self@.classes.len(),
        ensures
            r == self@.claims_from(layout, i as nat),
        decreases self@.classes.len() - i,
    {
        i < self.classes.len() && (self.claims(i, layout) || self.claims_in(layout, i + 1))
    }

    /// [`Allocator::allocate`] of the chain that starts at class `i`.
    fn allocate_in(&mut self, layout: Layout, i: usize) -> (r: Result<Block, AllocError>)
        requires
            old(self).inv(),
            i <= old(self)@.classes.len(),
        ensures
            final(self).inv(),
            final(self)@ == old(self)@.allocate_from(layout, i as nat).0,
            r == old(self)@.allocate_from(layout, i as nat).1,
            r matches Ok(b) ==> b.addr % layout.align() == 0 && b.size >= layout.size(),
            r is Err ==> final(self)@ == old(self)@,
            old(self)@.grown_behind(final(self)@, i as nat),
        decreases old(self)@.classes.len() - i,
    {
        if i >= self.classes.len() {
            return Err(AllocError);
        }
        proof {
            use_type_invariant(&layout);
            self.classes@[i as int].lemma_wf();
            lemma_stacked_allocate_grows(self@.base, layout);
            lemma_stacked_allocate_grows(self@.base, self@.classes[i as int].layout);
        }
        match self.class_allocate(i, layout) {
            Ok(block) => Ok(block),
            Err(_) => {
                if !self.claims(i, layout) {
                    self.allocate_in(layout, i + 1)
                } else {
                    Err(AllocError)
                }
            },
        }
    }

    /// [`Allocator::deallocate`] of the chain that starts at class `i`.
    fn deallocate_in(&mut self, addr: usize, layout: Layout, i: usize)
        requires
            old(self).inv(),
            i <= old(self)@.classes.len(),
            old(self)@.accepts_from(addr, layout, i as nat),
        ensures
            final(self).inv(),
            final(self)@ == old(self)@.deallocate_from(addr, layout, i as nat),
        decreases old(self)@.classes.len() - i,
    {
        if i >= self.classes.len() {
        } else if i + 1 == self.classes.len() || self.claims(i, layout) {
            self.class_deallocate(i, addr, layout);
        } else {
            self.deallocate_in(addr, layout, i + 1);
        }
    }

    /// The way out of a resize that class `i` has failed: a new block from
    /// the classes behind it, and the old one back to class `i`.
    fn cross(
        &mut self,
        addr: usize,
        old_layout: Layout,
        new_layout: Layout,
        copy: usize,
        i: usize,
    ) -> (r: Result<Resized, AllocError>)
        requires
            old(self).inv(),
            i < old(self)@.classes.len(),
            Class::accepts_model(old(self)@.class(i as int), addr, old_layout),
        ensures
            final(self).inv(),
            final(self)@ == old(self)@.cross_over(addr, old_layout, new_layout, copy, i as nat).0,
            r == old(self)@.cross_over(addr, old_layout, new_layout, copy, i as nat).1,
            r matches Ok(g) ==> g.block.addr % new_layout.align() == 0 && g.block.size
                >= new_layout.size(),
            r is Err ==> final(self)@ == old(self)@,
    {
        if self.claims(i, new_layout) {
            return Err(AllocError);
        }
        assert(i < self.classes.len());
        match self.allocate_in(new_layout, i + 1) {
            Ok(block) => {
                assert(self@.classes[i as int] == old(self)@.classes[i as int]);
                self.class_deallocate(i, addr, old_layout);
                Ok(Resized { block, copy })
            },
            Err(_) => Err(AllocError),
        }
    }

    /// [`Allocator::grow`] of the chain that starts at class `i`.
    fn grow_in(&mut self, addr: usize, old_layout: Layout, new_layout: Layout, i: usize) -> (r:
        Result<Resized, AllocError>)
        requires
            old(self).inv(),
            i <= old(self)@.classes.len(),
            old(self)@.resizes_from(addr, old_layout, i as nat),
        ensures
            final(self).inv(),
            final(self)@ == old(self)@.grow_from(addr, old_layout, new_layout, i as nat).0,
            r == old(self)@.grow_from(addr, old_layout, new_layout, i as nat).1,
            r matches Ok(g) ==> g.block.addr % new_layout.align() == 0 && g.block.size
                >= new_layout.size(),
            r is Err ==> final(self)@ == old(self)@,
        decreases old(self)@.classes.len() - i,
    {
        if i >= self.classes.len() {
            Err(AllocError)
        } else if i + 1 == self.classes.len() {
            self.class_grow(i, addr, old_layout, new_layout)
        } else if self.claims(i, old_layout) {
            proof {
                Class::lemma_accepted_resizes(self@.class(i as int), addr, old_layout);
            }
            match self.class_grow(i, addr, old_layout, new_layout) {
                Ok(g) => Ok(g),
                Err(_) => self.cross(addr, old_layout, new_layout, old_layout.size(), i),
            }
        } else {
            self.grow_in(addr, old_layout, new_layout, i + 1)
        }
    }

    /// [`Allocator::shrink`] of the chain that starts at class `i`.
    fn shrink_in(&mut self, addr: usize, old_layout: Layout, new_layout: Layout, i: usize) -> (r:
        Result<Resized, AllocError>)
        requires
            old(self).inv(),
            i <= old(self)@.classes.len(),
            old(self)@.resizes_from(addr, old_layout, i as nat),
            new_layout.size() <= old_layout.size(),
        ensures
            final(self).inv(),
            final(self)@ == old(self)@.shrink_from(addr, old_layout, new_layout, i as nat).0,
            r == old(self)@.shrink_from(addr, old_layout, new_layout, i as nat).1,
            r matches Ok(g) ==> g.block.addr % new_layout.align() == 0 && g.block.size
                >= new_layout.size(),
            r is Err ==> final(self)@ == old(self)@,
        decreases old(self)@.classes.len() - i,
    {
        if i >= self.classes.len() {
            Err(AllocError)
        } else if i + 1 == self.classes.len() {
            self.class_shrink(i, addr, old_layout, new_layout)
        } else if self.claims(i, old_layout) {
            proof {
                Class::lemma_accepted_resizes(self@.class(i as int), addr, old_layout);
            }
            match self.class_shrink(i, addr, old_layout, new_layout) {
                Ok(g) => Ok(g),
                Err(_) => self.cross(addr, old_layout, new_layout, new_layout.size(), i),
            }
        } else {
            self.shrink_in(addr, old_layout, new_layout, i + 1)
        }
    }

    /// The standard tower over `base`: fourteen classes of 8 bytes up to 64
    /// KiB, each twice as large as the one before, with blocks aligned to 8.
    /// The free-list of a class manages the sizes that the class before it
    /// does not hold, and keeps any number of blocks.
    pub fn new(base: Stacked) -> (r: Tower)
        requires
            base.wf(),
            align_of::<usize>() <= 8,
        ensures
            r.inv(),
            r@.base == base@,
            r@.classes.len() == CLASSES,
            forall|i: int|
                0 <= i < CLASSES ==> #[trigger] r@.classes[i] == standard_class(i as nat),
    {
        broadcast use vstd::layout::layout_of_primitives;

        let mut classes: Vec<Cache<NoLimit>> = Vec::new();
        let mut size: usize = 8;
        let mut floor: usize = 1;
        let mut i: usize = 0;
        proof {
            lemma2_to64();
        }
        while i < CLASSES
            invariant
                i <= CLASSES,
                size == class_size(i as nat),
                floor == class_floor(i as nat),
                align_of::<usize>() <= 8,
                classes@.len() == i,
                forall|k: int| 0 <= k < i ==> (#[trigger] classes@[k]).wf(),
                forall|k: int| 0 <= k < i ==> (#[trigger] classes@[k])@ == standard_class(k as nat),
            decreases CLASSES - i,
        {
            proof {
                lemma2_to64();
                if i < 13 {
                    lemma_pow2_strictly_increases(i as nat, 13);
                }
                lemma_pow2_unfold((i + 1) as nat);
                assert(is_pow2(8) && is_pow2(1)) by {
                    reveal_with_fuel(is_pow2, 5);
                }
            }
            let layout = Layout::from_size_align_unchecked(size, 8);
            let tolerance = Layout::from_size_align_unchecked(floor, 1);
            classes.push(Cache::new(layout, tolerance, NoLimit));
            floor = size + 1;
            size = size * 2;
            i = i + 1;
        }
        let r = Tower { base, classes };
        proof {
            assert forall|k: int| 0 <= k < CLASSES implies #[trigger] r@.classes[k]
                == standard_class(k as nat) by {
                assert(r.classes@[k]@ == standard_class(k as nat));
            }
        }
        r
    }
}

impl Allocator for Tower {
    open spec fn wf(&self) -> bool {
        self.inv()
    }

    open spec fn accepts_model(v: TowerView, addr: usize, layout: Layout) -> bool {
        v.accepts_from(addr, layout, 0)
    }

    open spec fn resizes_model(v: TowerView, addr: usize, layout: Layout) -> bool {
        v.resizes_from(addr, layout, 0)
    }

    proof fn lemma_accepted_resizes(v: TowerView, addr: usize, layout: Layout) {
        lemma_tower_accepted_resizes(v, addr, layout, 0);
    }

    open spec fn allocate_model(v: TowerView, layout: Layout) -> (
        TowerView,
        Result<Block, AllocError>,
    ) {
        v.allocate_from(layout, 0)
    }

    open spec fn deallocate_model(v: TowerView, addr: usize, layout: Layout) -> TowerView {
        v.deallocate_from(addr, layout, 0)
    }

    open spec fn grow_model(v: TowerView, addr: usize, old_layout: Layout, new_layout: Layout) -> (
        TowerView,
        Result<Resized, AllocError>,
    ) {
        v.grow_from(addr, old_layout, new_layout, 0)
    }

    open spec fn shrink_model(
        v: TowerView,
        addr: usize,
        old_layout: Layout,
        new_layout: Layout,
    ) -> (
        TowerView,
        Result<Resized, AllocError>,
    ) {
        v.shrink_from(addr, old_layout, new_layout, 0)
    }

    proof fn lemma_failure_changes_nothing(
        v: TowerView,
        addr: usize,
        old_layout: Layout,
        new_layout: Layout,
    ) {
        lemma_tower_failure(v, addr, old_layout, new_layout, 0);
    }

    fn accepts(&self, addr: usize, layout: Layout) -> (r: bool) {
        self.accepts_in(addr, layout, 0)
    }

    fn allocate(&mut self, layout: Layout) -> (r: Result<Block, AllocError>) {
        self.allocate_in(layout, 0)
    }

    fn deallocate(&mut self, addr: usize, layout: Layout) {
        self.deallocate_in(addr, layout, 0)
    }

    fn grow(&mut self, addr: usize, old_layout: Layout, new_layout: Layout) -> (r: Result<
        Resized,
        AllocError,
    >) {
        self.grow_in(addr, old_layout, new_layout, 0)
    }

    fn shrink(&mut self, addr: usize, old_layout: Layout, new_layout: Layout) -> (r: Result<
        Resized,
        AllocError,
    >) {
        self.shrink_in(addr, old_layout, new_layout, 0)
    }
}

impl Fallbackable for Tower {
    open spec fn has_allocated_model(v: TowerView, addr: usize, layout: Layout) -> bool {
        v.claims_from(layout, 0)
    }

    open spec fn allows_fallback_model(v: TowerView, layout: Layout) -> bool {
        !v.claims_from(layout, 0)
    }

    fn has_allocated(&self, addr: usize, layout: Layout) -> (r: bool) {
        self.claims_in(layout, 0)
    }

    fn allows_fallback(&self, layout: Layout) -> (r: bool) {
        !self.claims_in(layout, 0)
    }

    proof fn lemma_fallback_is_settled(v: TowerView, op: Op, layout: Layout) {
        lemma_tower_keeps_classes(v, op, 0);
        lemma_claims_by_maximum(v, step::<Tower>(v, op), layout, 0);
    }

    proof fn lemma_refusal_claims(v: TowerView, addr: usize, layout: Layout) {
    }
}

} // verus!
