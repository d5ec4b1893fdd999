//! The free-list adaptor: a cache of released blocks of one size class.

use vstd::prelude::*;
use vstd::layout::{align_of, size_of};
use crate::base::{Allocator, Fallbackable};
use crate::history::{permitted, permitted_run, run, step, Op};
use crate::layout::{lemma_aligned_to_smaller, AllocError, Block, Layout, Resized};

verus! {

/// The least size of a target layout: a cached block has to hold a link.
pub fn min_layout_size() -> (r: usize)
    ensures
        r == size_of::<usize>(),
{
    core::mem::size_of::<usize>()
}

/// The least alignment of a target layout: a cached block has to hold a link.
pub fn min_layout_align() -> (r: usize)
    ensures
        r == align_of::<usize>(),
{
    core::mem::align_of::<usize>()
}

/// The count with which an empty list starts.
///
/// Calls `<usize as const_default::ConstDefault>::DEFAULT`. The claim: that
/// constant is zero.
#[verifier::external_body]
fn default_count() -> (r: usize)
    ensures
        r == 0,
{
    <usize as const_default::ConstDefault>::DEFAULT
}

/// The policy that caps the length of a free-list.
pub trait LimitParam {
    /// What the list keeps of its length.
    type ListLen;

    /// The cap on the length of the list, if there is one.
    spec fn limit(&self) -> Option<nat>;

    /// The length that `list_len` records, if it records one.
    spec fn count(list_len: Self::ListLen) -> Option<nat>;

    /// A policy keeps a record of the length exactly if it has a cap.
    proof fn lemma_count_with_limit(&self, list_len: Self::ListLen)
        ensures
            Self::count(list_len) is Some <==> self.limit() is Some,
    ;

    /// The record for an empty list.
    fn empty_list_len() -> (r: Self::ListLen)
        ensures
            Self::count(r) matches Some(n) ==> n == 0,
    ;

    /// Tells whether a list of the recorded length is full.
    fn limit_reached(&self, list_len: &Self::ListLen) -> (r: bool)
        ensures
            r == (self.limit() is Some && Self::count(*list_len) == self.limit()),
    ;

    /// The record for a list one shorter.
    fn dec_list_len(&self, list_len: &Self::ListLen) -> (r: Self::ListLen)
        requires
            Self::count(*list_len) matches Some(n) ==> n > 0,
        ensures
            Self::count(r) == match Self::count(*list_len) {
                Some(n) => Some((n - 1) as nat),
                None => None,
            },
    ;

    /// The record for a list one longer.
    fn inc_list_len(&self, list_len: &Self::ListLen) -> (r: Self::ListLen)
        requires
            Self::count(*list_len) matches Some(n) ==> self.limit() matches Some(c) && n < c,
        ensures
            Self::count(r) == match Self::count(*list_len) {
                Some(n) => Some(n + 1),
                None => None,
            },
    ;
}

/// No cap: the list grows with every block released to it.
pub struct NoLimit;

impl LimitParam for NoLimit {
    type ListLen = ();

    open spec fn limit(&self) -> Option<nat> {
        None
    }

    open spec fn count(list_len: ()) -> Option<nat> {
        None
    }

    proof fn lemma_count_with_limit(&self, list_len: ()) {
    }

    fn empty_list_len() -> (r: ()) {
        ()
    }

    fn limit_reached(&self, list_len: &()) -> (r: bool) {
        false
    }

    fn dec_list_len(&self, list_len: &()) -> (r: ()) {
        ()
    }

    fn inc_list_len(&self, list_len: &()) -> (r: ()) {
        ()
    }
}

/// The length of a list with a fixed cap.
#[derive(Clone, Copy)]
pub struct FixedLimitListLen(usize);

/// A cap fixed when the list is made.
pub struct FixedLimit {
    limit: usize,
}

impl FixedLimit {
    /// The cap of `limit` blocks.
    pub fn new(limit: usize) -> (r: FixedLimit)
        ensures
            r.limit() == Some(limit as nat),
    {
        FixedLimit { limit }
    }
}

impl LimitParam for FixedLimit {
    type ListLen = FixedLimitListLen;

    closed spec fn limit(&self) -> Option<nat> {
        Some(self.limit as nat)
    }

    closed spec fn count(list_len: FixedLimitListLen) -> Option<nat> {
        Some(list_len.0 as nat)
    }

    proof fn lemma_count_with_limit(&self, list_len: FixedLimitListLen) {
    }

    fn empty_list_len() -> (r: FixedLimitListLen) {
        FixedLimitListLen(default_count())
    }

    fn limit_reached(&self, list_len: &FixedLimitListLen) -> (r: bool) {
        list_len.0 == self.limit
    }

    fn dec_list_len(&self, list_len: &FixedLimitListLen) -> (r: FixedLimitListLen) {
        FixedLimitListLen(list_len.0 - 1)
    }

    fn inc_list_len(&self, list_len: &FixedLimitListLen) -> (r: FixedLimitListLen) {
        FixedLimitListLen(list_len.0 + 1)
    }
}

/// The cache of a free-list, apart from the base allocator behind it: the
/// released blocks of one size class.
///
/// Its operations are those of the free-list, on a base allocator that is
/// handed to each of them. So several caches can stand in front of one base
/// allocator.
pub struct Cache<Limit: LimitParam> {
    list: Vec<usize>,
    len: Limit::ListLen,
    released: Ghost<Seq<Layout>>,
    layout: Layout,
    tolerance: Layout,
    limit: Limit,
}

/// A cache of released blocks in front of a base allocator.
///
/// Requests in the band between the tolerance and the target layout are
/// served with blocks of the target layout, from the cache where it holds
/// one. Blocks of that band go to the cache when they are given back, unless
/// the cache is full. Everything else passes to the base allocator.
pub struct Freelist<Limit: LimitParam, A: Allocator> {
    cache: Cache<Limit>,
    base: A,
}

/// The state of a [`Freelist`]; with nothing for the base allocator, the
/// state of a [`Cache`].
pub struct FreelistView<B> {
    /// The target layout: what the base allocator is asked for.
    pub layout: Layout,
    /// The lower end of the managed band.
    pub tolerance: Layout,
    /// The cap on the number of cached blocks, if there is one.
    pub limit: Option<nat>,
    /// The addresses of the cached blocks; the last one is handed out first.
    pub cached: Seq<usize>,
    /// For each cached block, the layout with which it was released.
    pub released: Seq<Layout>,
    /// The state of the base allocator.
    pub base: B,
}

impl<B> FreelistView<B> {
    /// The same cache in front of a base allocator in state `base`.
    pub open spec fn with_base<C>(self, base: C) -> FreelistView<C> {
        FreelistView {
            layout: self.layout,
            tolerance: self.tolerance,
            limit: self.limit,
            cached: self.cached,
            released: self.released,
            base,
        }
    }

    /// Whether a request for `layout` lies in the managed band.
    pub open spec fn manages(self, layout: Layout) -> bool {
        &&& self.tolerance.size() <= layout.size() <= self.layout.size()
        &&& self.tolerance.align() <= layout.align() <= self.layout.align()
    }

    /// The layout that the base allocator sees for `layout`: the target
    /// layout for a request in the managed band.
    pub open spec fn effective(self, layout: Layout) -> Layout {
        if self.manages(layout) {
            self.layout
        } else {
            layout
        }
    }

    /// Whether the cache holds as many blocks as the cap allows.
    pub open spec fn limit_reached(self) -> bool {
        self.limit == Some(self.cached.len())
    }

    /// The invariant of the cache: the band is not empty, the target layout
    /// can hold a link, the cache respects the cap, and every cached block
    /// is aligned for the target layout and was released with a layout of
    /// the managed band.
    pub open spec fn inv(self) -> bool {
        &&& self.layout.wf()
        &&& self.tolerance.wf()
        &&& self.tolerance.size() <= self.layout.size()
        &&& self.tolerance.align() <= self.layout.align()
        &&& self.layout.size() >= size_of::<usize>()
        &&& self.layout.align() >= align_of::<usize>()
        &&& self.limit matches Some(c) ==> self.cached.len() <= c
        &&& self.released.len() == self.cached.len()
        &&& forall|i: int|
            0 <= i < self.released.len() ==> self.manages(#[trigger] self.released[i])
        &&& forall|i: int|
            0 <= i < self.cached.len() ==> (#[trigger] self.cached[i]) % self.layout.align() == 0
    }
}

impl<Limit: LimitParam> View for Cache<Limit> {
    type V = FreelistView<()>;

    closed spec fn view(&self) -> FreelistView<()> {
        FreelistView {
            layout: self.layout,
            tolerance: self.tolerance,
            limit: self.limit.limit(),
            cached: self.list@,
            released: self.released@,
            base: (),
        }
    }
}

impl<Limit: LimitParam> Cache<Limit> {
    /// The invariant of the cache.
    pub closed spec fn wf(&self) -> bool {
        &&& self@.inv()
        &&& Limit::count(self.len) matches Some(n) ==> n == self.list@.len()
    }

    /// A cache that is well formed meets the invariant of its state.
    pub proof fn lemma_wf(&self)
        requires
            self.wf(),
        ensures
            self@.inv(),
    {
    }

    /// An empty cache for blocks of `layout`, serving the band from
    /// `tolerance` up to `layout`.
    pub fn new(layout: Layout, tolerance: Layout, limit: Limit) -> (r: Self)
        requires
            tolerance.size() <= layout.size(),
            tolerance.align() <= layout.align(),
            layout.size() >= size_of::<usize>(),
            layout.align() >= align_of::<usize>(),
        ensures
            r.wf(),
            r@ == (FreelistView {
                layout,
                tolerance,
                limit: limit.limit(),
                cached: Seq::<usize>::empty(),
                released: Seq::<Layout>::empty(),
                base: (),
            }),
    {
        proof {
            use_type_invariant(&layout);
            use_type_invariant(&tolerance);
        }
        let len = Limit::empty_list_len();
        proof {
            limit.lemma_count_with_limit(len);
        }
        Cache { list: Vec::new(), len, released: Ghost(Seq::empty()), layout, tolerance, limit }
    }

    /// Tells whether a request for `layout` lies in the managed band.
    pub fn manages(&self, layout: Layout) -> (r: bool)
        ensures
            r == self@.manages(layout),
    {
        self.tolerance.size() <= layout.size() && layout.size() <= self.layout.size()
            && self.tolerance.align() <= layout.align() && layout.align() <= self.layout.align()
    }

    /// The layout that the base allocator sees for `layout`.
    pub fn effective(&self, layout: Layout) -> (r: Layout)
        ensures
            r == self@.effective(layout),
    {
        if self.manages(layout) {
            self.layout
        } else {
            layout
        }
    }

    /// The target layout.
    pub fn layout(&self) -> (r: Layout)
        ensures
            r == self@.layout,
    {
        self.layout
    }

    /// The number of cached blocks.
    pub fn cached(&self) -> (r: usize)
        ensures
            r == self@.cached.len(),
    {
        self.list.len()
    }

    /// [`Allocator::accepts`] of the free-list that this cache makes with
    /// `base`.
    pub fn accepts<A: Allocator>(&self, base: &A, addr: usize, layout: Layout) -> (r: bool)
        requires
            self.wf(),
            base.wf(),
        ensures
            r == Freelist::<Limit, A>::accepts_model(self@.with_base(base@), addr, layout),
    {
        if self.manages(layout) {
            proof {
                use_type_invariant(&self.layout);
                crate::layout::lemma_power_of_two_bound(self.layout.align());
            }
            base.accepts(addr, self.layout) && addr % self.layout.align() == 0 && base.accepts(
                addr,
                layout,
            )
        } else {
            base.accepts(addr, layout)
        }
    }

    /// [`Allocator::allocate`] of the free-list that this cache makes with
    /// `base`.
    pub fn allocate<A: Allocator>(&mut self, base: &mut A, layout: Layout) -> (r: Result<
        Block,
        AllocError,
    >)
        requires
            old(self).wf(),
            old(base).wf(),
        ensures
            final(self).wf(),
            final(base).wf(),
            final(self)@.with_base(final(base)@) == Freelist::<Limit, A>::allocate_model(
                old(self)@.with_base(old(base)@),
                layout,
            ).0,
            r == Freelist::<Limit, A>::allocate_model(old(self)@.with_base(old(base)@), layout).1,
            r matches Ok(b) ==> b.addr % layout.align() == 0 && b.size >= layout.size(),
            r is Err ==> final(self)@ == old(self)@ && final(base)@ == old(base)@,
    {
        if !self.manages(layout) {
            return base.allocate(layout);
        }
        proof {
            use_type_invariant(&layout);
            use_type_invariant(&self.layout);
        }
        match self.list.pop() {
            Some(addr) => {
                proof {
                    let i = old(self).list@.len() - 1;
                    assert(old(self)@.cached[i] % old(self).layout.align() == 0);
                    lemma_aligned_to_smaller(
                        addr as int,
                        layout.align() as int,
                        self.layout.align() as int,
                    );
                }
                self.len = self.limit.dec_list_len(&self.len);
                proof {
                    self.released = Ghost(self.released@.drop_last());
                }
                Ok(Block { addr, size: self.layout.size() })
            },
            None => {
                let r = base.allocate(self.layout);
                proof {
                    if let Ok(b) = r {
                        lemma_aligned_to_smaller(
                            b.addr as int,
                            layout.align() as int,
                            self.layout.align() as int,
                        );
                    }
                }
                r
            },
        }
    }

    /// [`Allocator::deallocate`] of the free-list that this cache makes with
    /// `base`.
    pub fn deallocate<A: Allocator>(&mut self, base: &mut A, addr: usize, layout: Layout)
        requires
            old(self).wf(),
            old(base).wf(),
            Freelist::<Limit, A>::accepts_model(old(self)@.with_base(old(base)@), addr, layout),
        ensures
            final(self).wf(),
            final(base).wf(),
            final(self)@.with_base(final(base)@) == Freelist::<Limit, A>::deallocate_model(
                old(self)@.with_base(old(base)@),
                addr,
                layout,
            ),
    {
        if self.limit.limit_reached(&self.len) || !self.manages(layout) {
            base.deallocate(addr, layout);
            return ;
        }
        proof {
            self.limit.lemma_count_with_limit(self.len);
        }
        self.list.push(addr);
        self.len = self.limit.inc_list_len(&self.len);
        proof {
            self.released = Ghost(self.released@.push(layout));
        }
    }

    /// [`Allocator::grow`] of the free-list that this cache makes with
    /// `base`.
    pub fn grow<A: Allocator>(
        &self,
        base: &mut A,
        addr: usize,
        old_layout: Layout,
        new_layout: Layout,
    ) -> (r: Result<Resized, AllocError>)
        requires
            self.wf(),
            old(base).wf(),
            Freelist::<Limit, A>::resizes_model(self@.with_base(old(base)@), addr, old_layout),
        ensures
            final(base).wf(),
            self@.with_base(final(base)@) == Freelist::<Limit, A>::grow_model(
                self@.with_base(old(base)@),
                addr,
                old_layout,
                new_layout,
            ).0,
            r == Freelist::<Limit, A>::grow_model(
                self@.with_base(old(base)@),
                addr,
                old_layout,
                new_layout,
            ).1,
            r matches Ok(g) ==> g.block.addr % new_layout.align() == 0 && g.block.size
                >= new_layout.size(),
            r is Err ==> final(base)@ == old(base)@,
    {
        let old_layout = self.effective(old_layout);
        base.grow(addr, old_layout, new_layout)
    }

    /// [`Allocator::shrink`] of the free-list that this cache makes with
    /// `base`.
    pub fn shrink<A: Allocator>(
        &self,
        base: &mut A,
        addr: usize,
        old_layout: Layout,
        new_layout: Layout,
    ) -> (r: Result<Resized, AllocError>)
        requires
            self.wf(),
            old(base).wf(),
            Freelist::<Limit, A>::resizes_model(self@.with_base(old(base)@), addr, old_layout),
            new_layout.size() <= old_layout.size(),
        ensures
            final(base).wf(),
            self@.with_base(final(base)@) == Freelist::<Limit, A>::shrink_model(
                self@.with_base(old(base)@),
                addr,
                old_layout,
                new_layout,
            ).0,
            r == Freelist::<Limit, A>::shrink_model(
                self@.with_base(old(base)@),
                addr,
                old_layout,
                new_layout,
            ).1,
            r matches Ok(g) ==> g.block.addr % new_layout.align() == 0 && g.block.size
                >= new_layout.size(),
            r is Err ==> final(base)@ == old(base)@,
    {
        let old_layout = if self.manages(old_layout) {
            if self.manages(new_layout) {
                proof {
                    use_type_invariant(&new_layout);
                    use_type_invariant(&self.layout);
                    lemma_aligned_to_smaller(
                        addr as int,
                        new_layout.align() as int,
                        self.layout.align() as int,
                    );
                }
                return Ok(Resized { block: Block { addr, size: self.layout.size() }, copy: 0 });
            }
            self.layout
        } else {
            old_layout
        };
        base.shrink(addr, old_layout, new_layout)
    }
}

impl<Limit: LimitParam, A: Allocator> View for Freelist<Limit, A> {
    type V = FreelistView<A::V>;

    closed spec fn view(&self) -> FreelistView<A::V> {
        self.cache@.with_base(self.base@)
    }
}

impl<Limit: LimitParam, A: Allocator> Freelist<Limit, A> {
    /// An empty free-list for blocks of `layout`, serving the band from
    /// `tolerance` up to `layout`, in front of `base`.
    pub fn new(layout: Layout, tolerance: Layout, limit: Limit, base: A) -> (r: Self)
        requires
            tolerance.size() <= layout.size(),
            tolerance.align() <= layout.align(),
            layout.size() >= size_of::<usize>(),
            layout.align() >= align_of::<usize>(),
            base.wf(),
        ensures
            r.wf(),
            r@ == (FreelistView {
                layout,
                tolerance,
                limit: limit.limit(),
                cached: Seq::<usize>::empty(),
                released: Seq::<Layout>::empty(),
                base: base@,
            }),
    {
        Self::new_unchecked(layout, tolerance, limit, base)
    }

    /// The same as [`Freelist::new`]; the conditions on the layouts are the
    /// caller's to meet.
    pub fn new_unchecked(layout: Layout, tolerance: Layout, limit: Limit, base: A) -> (r: Self)
        requires
            tolerance.size() <= layout.size(),
            tolerance.align() <= layout.align(),
            layout.size() >= size_of::<usize>(),
            layout.align() >= align_of::<usize>(),
            base.wf(),
        ensures
            r.wf(),
            r@ == (FreelistView {
                layout,
                tolerance,
                limit: limit.limit(),
                cached: Seq::<usize>::empty(),
                released: Seq::<Layout>::empty(),
                base: base@,
            }),
    {
        Freelist { cache: Cache::new(layout, tolerance, limit), base }
    }

    /// Tells whether a request for `layout` lies in the managed band.
    pub fn manages(&self, layout: Layout) -> (r: bool)
        ensures
            r == self@.manages(layout),
    {
        self.cache.manages(layout)
    }

    /// The number of cached blocks.
    pub fn cached(&self) -> (r: usize)
        ensures
            r == self@.cached.len(),
    {
        self.cache.cached()
    }

    /// The base allocator.
    pub fn base(&self) -> (r: &A)
        requires
            self.wf(),
        ensures
            r.wf(),
            r@ == self@.base,
    {
        &self.base
    }

    /// Takes the cache away and returns the base allocator. The blocks that
    /// were cached stay allocated in it.
    pub fn into_base(self) -> (r: A)
        requires
            self.wf(),
        ensures
            r.wf(),
            r@ == self@.base,
    {
        self.base
    }
}

impl<Limit: LimitParam, A: Allocator> Allocator for Freelist<Limit, A> {
    closed spec fn wf(&self) -> bool {
        self.cache.wf() && self.base.wf()
    }

    open spec fn accepts_model(v: FreelistView<A::V>, addr: usize, layout: Layout) -> bool {
        &&& A::accepts_model(v.base, addr, v.effective(layout))
        &&& v.manages(layout) ==> {
            &&& addr % v.layout.align() == 0
            &&& A::accepts_model(v.base, addr, layout)
        }
    }

    open spec fn resizes_model(v: FreelistView<A::V>, addr: usize, layout: Layout) -> bool {
        &&& A::resizes_model(v.base, addr, v.effective(layout))
        &&& v.manages(layout) ==> addr % v.layout.align() == 0
    }

    proof fn lemma_accepted_resizes(v: FreelistView<A::V>, addr: usize, layout: Layout) {
        A::lemma_accepted_resizes(v.base, addr, v.effective(layout));
    }

    open spec fn allocate_model(v: FreelistView<A::V>, layout: Layout) -> (
        FreelistView<A::V>,
        Result<Block, AllocError>,
    ) {
        if v.manages(layout) && v.cached.len() > 0 {
            (
                FreelistView {
                    cached: v.cached.drop_last(),
                    released: v.released.drop_last(),
                    ..v
                },
                Ok(Block { addr: v.cached.last(), size: v.layout.size() }),
            )
        } else {
            let (base, r) = A::allocate_model(v.base, v.effective(layout));
            (FreelistView { base, ..v }, r)
        }
    }

    open spec fn deallocate_model(v: FreelistView<A::V>, addr: usize, layout: Layout)
        -> FreelistView<A::V> {
        if v.limit_reached() || !v.manages(layout) {
            FreelistView { base: A::deallocate_model(v.base, addr, layout), ..v }
        } else {
            FreelistView { cached: v.cached.push(addr), released: v.released.push(layout), ..v }
        }
    }

    open spec fn grow_model(
        v: FreelistView<A::V>,
        addr: usize,
        old_layout: Layout,
        new_layout: Layout,
    ) -> (FreelistView<A::V>, Result<Resized, AllocError>) {
        let (base, r) = A::grow_model(v.base, addr, v.effective(old_layout), new_layout);
        (FreelistView { base, ..v }, r)
    }

    open spec fn shrink_model(
        v: FreelistView<A::V>,
        addr: usize,
        old_layout: Layout,
        new_layout: Layout,
    ) -> (FreelistView<A::V>, Result<Resized, AllocError>) {
        if v.manages(old_layout) && v.manages(new_layout) {
            (v, Ok(Resized { block: Block { addr, size: v.layout.size() }, copy: 0 }))
        } else {
            let (base, r) = A::shrink_model(v.base, addr, v.effective(old_layout), new_layout);
            (FreelistView { base, ..v }, r)
        }
    }

    proof fn lemma_failure_changes_nothing(
        v: FreelistView<A::V>,
        addr: usize,
        old_layout: Layout,
        new_layout: Layout,
    ) {
        A::lemma_failure_changes_nothing(v.base, addr, v.effective(old_layout), new_layout);
        A::lemma_failure_changes_nothing(
            v.base,
            addr,
            v.effective(old_layout),
            v.effective(new_layout),
        );
    }

    fn accepts(&self, addr: usize, layout: Layout) -> (r: bool) {
        self.cache.accepts(&self.base, addr, layout)
    }

    fn allocate(&mut self, layout: Layout) -> (r: Result<Block, AllocError>) {
        self.cache.allocate(&mut self.base, layout)
    }

    fn deallocate(&mut self, addr: usize, layout: Layout) {
        self.cache.deallocate(&mut self.base, addr, layout)
    }

    fn grow(&mut self, addr: usize, old_layout: Layout, new_layout: Layout) -> (r: Result<
        Resized,
        AllocError,
    >) {
        self.cache.grow(&mut self.base, addr, old_layout, new_layout)
    }

    fn shrink(&mut self, addr: usize, old_layout: Layout, new_layout: Layout) -> (r: Result<
        Resized,
        AllocError,
    >) {
        self.cache.shrink(&mut self.base, addr, old_layout, new_layout)
    }
}

/// One operation that the contract permits keeps the invariant of the cache,
/// its band and its cap.
pub proof fn lemma_freelist_step<Limit: LimitParam, A: Allocator>(v: FreelistView<A::V>, op: Op)
    requires
        v.inv(),
        permitted::<Freelist<Limit, A>>(v, op),
    ensures
        step::<Freelist<Limit, A>>(v, op).inv(),
        step::<Freelist<Limit, A>>(v, op).layout == v.layout,
        step::<Freelist<Limit, A>>(v, op).tolerance == v.tolerance,
        step::<Freelist<Limit, A>>(v, op).limit == v.limit,
{
    let w = step::<Freelist<Limit, A>>(v, op);
    match op {
        Op::Allocate { layout } => {
            assert forall|i: int| 0 <= i < w.released.len() implies w.manages(
                #[trigger] w.released[i],
            ) by {
                assert(v.manages(v.released[i]));
            }
            assert forall|i: int| 0 <= i < w.cached.len() implies (#[trigger] w.cached[i])
                % w.layout.align() == 0 by {
                assert(v.cached[i] % v.layout.align() == 0);
            }
        },
        Op::Deallocate { addr, layout } => {
            assert forall|i: int| 0 <= i < w.released.len() implies w.manages(
                #[trigger] w.released[i],
            ) by {
                if i < v.released.len() {
                    assert(v.manages(v.released[i]));
                }
            }
            assert forall|i: int| 0 <= i < w.cached.len() implies (#[trigger] w.cached[i])
                % w.layout.align() == 0 by {
                if i < v.cached.len() {
                    assert(v.cached[i] % v.layout.align() == 0);
                }
            }
        },
        Op::Grow { addr, old_layout, new_layout } => {},
        Op::Shrink { addr, old_layout, new_layout } => {},
    }
}

/// After any sequence of operations that the contract permits, the cache
/// holds no more blocks than its cap allows, and every cached block was
/// last released with a layout of the managed band.
pub proof fn lemma_freelist_cache<Limit: LimitParam, A: Allocator>(
    v: FreelistView<A::V>,
    ops: Seq<Op>,
)
    requires
        v.inv(),
        permitted_run::<Freelist<Limit, A>>(v, ops),
    ensures
        ({
            let w = run::<Freelist<Limit, A>>(v, ops);
            &&& w.inv()
            &&& w.layout == v.layout
            &&& w.tolerance == v.tolerance
            &&& w.limit == v.limit
            &&& w.limit matches Some(c) ==> w.cached.len() <= c
            &&& w.released.len() == w.cached.len()
            &&& forall|i: int| 0 <= i < w.released.len() ==> w.manages(#[trigger] w.released[i])
        }),
    decreases ops.len(),
{
    if ops.len() > 0 {
        lemma_freelist_cache::<Limit, A>(v, ops.drop_last());
        lemma_freelist_step::<Limit, A>(
            run::<Freelist<Limit, A>>(v, ops.drop_last()),
            ops.last(),
        );
    }
}

/// A block of the managed band that comes from the cache and is given back
/// at once returns to the cache: the cached blocks and the base allocator
/// are as before.
pub proof fn lemma_freelist_round_trip_cached<Limit: LimitParam, A: Allocator>(
    v: FreelistView<A::V>,
    layout: Layout,
)
    requires
        v.inv(),
        v.manages(layout),
        v.cached.len() > 0,
    ensures
        ({
            let (v1, r) = Freelist::<Limit, A>::allocate_model(v, layout);
            let v2 = Freelist::<Limit, A>::deallocate_model(v1, v.cached.last(), layout);
            &&& r == Ok::<Block, AllocError>(Block { addr: v.cached.last(), size: v.layout.size() })
            &&& v2.cached == v.cached
            &&& v2.released == v.released.drop_last().push(layout)
            &&& v2.base == v.base
            &&& v2.limit == v.limit
        }),
{
    let (v1, r) = Freelist::<Limit, A>::allocate_model(v, layout);
    let v2 = Freelist::<Limit, A>::deallocate_model(v1, v.cached.last(), layout);
    assert(v2.cached =~= v.cached);
}

/// A block outside the managed band makes its round trip through the base
/// allocator: the cache is as before.
pub proof fn lemma_freelist_round_trip_bypass<Limit: LimitParam, A: Allocator>(
    v: FreelistView<A::V>,
    layout: Layout,
)
    requires
        !v.manages(layout),
        A::allocate_model(v.base, layout).1 is Ok,
    ensures
        ({
            let (v1, r) = Freelist::<Limit, A>::allocate_model(v, layout);
            let (b1, rb) = A::allocate_model(v.base, layout);
            let v2 = Freelist::<Limit, A>::deallocate_model(v1, r->Ok_0.addr, layout);
            &&& r == rb
            &&& v2.cached == v.cached
            &&& v2.released == v.released
            &&& v2.base == A::deallocate_model(b1, rb->Ok_0.addr, layout)
        }),
{
}

/// For a layout that the base allocator sees as it is (one outside the
/// managed band, or the target layout itself): where growing a block to the
/// layout it has changes nothing in the base allocator, it changes nothing
/// in the free-list, and the capacity is the same.
pub proof fn lemma_freelist_grow_same<Limit: LimitParam, A: Allocator>(
    v: FreelistView<A::V>,
    addr: usize,
    layout: Layout,
    capacity: usize,
)
    requires
        v.effective(layout) == layout,
        A::grow_model(v.base, addr, layout, layout) == (
            v.base,
            Ok::<Resized, AllocError>(Resized { block: Block { addr, size: capacity }, copy: 0 }),
        ),
    ensures
        Freelist::<Limit, A>::grow_model(v, addr, layout, layout) == (
            v,
            Ok::<Resized, AllocError>(Resized { block: Block { addr, size: capacity }, copy: 0 }),
        ),
{
}

impl<Limit: LimitParam, A: Fallbackable> Fallbackable for Freelist<Limit, A> {
    open spec fn has_allocated_model(v: FreelistView<A::V>, addr: usize, layout: Layout) -> bool {
        A::has_allocated_model(v.base, addr, v.effective(layout))
    }

    open spec fn allows_fallback_model(v: FreelistView<A::V>, layout: Layout) -> bool {
        A::allows_fallback_model(v.base, v.effective(layout))
    }

    fn has_allocated(&self, addr: usize, layout: Layout) -> (r: bool) {
        let layout = self.cache.effective(layout);
        self.base.has_allocated(addr, layout)
    }

    fn allows_fallback(&self, layout: Layout) -> (r: bool) {
        let layout = self.cache.effective(layout);
        self.base.allows_fallback(layout)
    }

    proof fn lemma_fallback_is_settled(v: FreelistView<A::V>, op: Op, layout: Layout) {
        match op {
            Op::Allocate { layout: given } => {
                A::lemma_fallback_is_settled(
                    v.base,
                    Op::Allocate { layout: v.effective(given) },
                    v.effective(layout),
                );
            },
            Op::Deallocate { addr, layout: given } => {
                A::lemma_fallback_is_settled(
                    v.base,
                    Op::Deallocate { addr, layout: given },
                    v.effective(layout),
                );
            },
            Op::Grow { addr, old_layout, new_layout } => {
                A::lemma_fallback_is_settled(
                    v.base,
                    Op::Grow { addr, old_layout: v.effective(old_layout), new_layout },
                    v.effective(layout),
                );
            },
            Op::Shrink { addr, old_layout, new_layout } => {
                A::lemma_fallback_is_settled(
                    v.base,
                    Op::Shrink { addr, old_layout: v.effective(old_layout), new_layout },
                    v.effective(layout),
                );
            },
        }
    }

    proof fn lemma_refusal_claims(v: FreelistView<A::V>, addr: usize, layout: Layout) {
        A::lemma_refusal_claims(v.base, addr, v.effective(layout));
    }
}

} // verus!
