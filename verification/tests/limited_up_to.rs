use composable_allocators::limited_up_to::{cap_block, LimitedUpTo};
use composable_allocators::stacked::Stacked;
use composable_allocators::up_to::{CtParams, Params, RtParams, UpTo};
use composable_allocators::{AllocError, Allocator, Block, Fallbackable, Layout, Resized};

fn layout(size: usize, align: usize) -> Layout {
    Layout::from_size_align(size, align).unwrap()
}

#[test]
fn limiter_refuses_what_is_beyond_its_maximum() {
    Stacked::with_buf_raw(0x1000, 128, |arena| {
        let mut limited = LimitedUpTo::new(layout(16, 8), arena);
        assert_eq!(limited.allocate(layout(17, 1)), Err(AllocError));
        assert_eq!(limited.allocate(layout(8, 16)), Err(AllocError));
        assert_eq!(limited.base().allocated(), 0);
        let a = limited.allocate(layout(16, 8)).unwrap();
        assert_eq!(a, Block { addr: 0x1000, size: 16 });
        limited.deallocate(a.addr, layout(16, 8));
        (limited.into_base(), ())
    });
}

#[test]
fn limiter_routes_by_layout_alone() {
    Stacked::with_buf_raw(0x1000, 128, |arena| {
        let limited = LimitedUpTo::new(layout(16, 8), arena);
        assert!(limited.manages(layout(16, 8)));
        assert!(limited.manages(layout(0, 1)));
        assert!(!limited.manages(layout(17, 8)));
        assert!(!limited.manages(layout(16, 16)));
        assert!(limited.has_allocated(0xdead, layout(4, 4)));
        assert!(!limited.allows_fallback(layout(4, 4)));
        assert!(!limited.has_allocated(0x1000, layout(32, 1)));
        assert!(limited.allows_fallback(layout(32, 1)));
        (limited.into_base(), ())
    });
}

#[test]
fn capacity_is_capped_at_the_maximum() {
    assert_eq!(cap_block(Block { addr: 64, size: 24 }, 16), Block { addr: 64, size: 16 });
    assert_eq!(cap_block(Block { addr: 64, size: 8 }, 16), Block { addr: 64, size: 8 });
    assert_eq!(cap_block(Block { addr: 64, size: 16 }, 16), Block { addr: 64, size: 16 });
}

#[test]
fn limiter_resizes_within_its_maximum_only() {
    Stacked::with_buf_raw(0x1000, 128, |arena| {
        let mut limited = LimitedUpTo::new(layout(16, 8), arena);
        let old = layout(8, 8);
        let a = limited.allocate(old).unwrap();
        assert_eq!(limited.grow(a.addr, old, layout(24, 8)), Err(AllocError));
        assert_eq!(limited.base().allocated(), 8);
        let g = limited.grow(a.addr, old, layout(16, 8)).unwrap();
        assert_eq!(g, Resized { block: Block { addr: 0x1000, size: 16 }, copy: 0 });
        assert_eq!(limited.shrink(a.addr, layout(16, 8), layout(4, 16)), Err(AllocError));
        let s = limited.shrink(a.addr, layout(16, 8), layout(4, 4)).unwrap();
        assert_eq!(s, Resized { block: Block { addr: 0x1000, size: 4 }, copy: 0 });
        limited.deallocate(a.addr, layout(4, 4));
        (limited.into_base(), ())
    });
}

#[test]
fn limiter_grow_to_the_same_layout_changes_nothing() {
    Stacked::with_buf_raw(0x1000, 128, |arena| {
        let mut limited = LimitedUpTo::new(layout(16, 8), arena);
        let l = layout(12, 4);
        let a = limited.allocate(l).unwrap();
        let g = limited.grow(a.addr, l, l).unwrap();
        assert_eq!(g, Resized { block: Block { addr: a.addr, size: a.size }, copy: 0 });
        assert_eq!(limited.base().allocated(), 12);
        limited.deallocate(a.addr, l);
        (limited.into_base(), ())
    });
}

#[test]
fn parameters_give_their_layout() {
    let ct = CtParams::<32, 8>::new();
    assert_eq!(ct.layout(), layout(32, 8));
    let rt = RtParams { layout: layout(24, 4) };
    assert_eq!(rt.layout(), layout(24, 4));
}

#[test]
fn up_to_is_limited_by_its_parameters() {
    Stacked::with_buf_raw(0x1000, 128, |arena| {
        let mut up_to = UpTo::new(CtParams::<16, 8>::new(), arena);
        assert!(up_to.manages_on_its_own(layout(16, 8)));
        assert!(!up_to.manages_on_its_own(layout(17, 8)));
        assert!(up_to.has_allocated(0, layout(16, 8)));
        assert!(up_to.allows_fallback(layout(17, 8)));
        assert_eq!(up_to.allocate(layout(32, 8)), Err(AllocError));
        let a = up_to.allocate(layout(10, 2)).unwrap();
        assert_eq!(a, Block { addr: 0x1000, size: 10 });
        assert_eq!(up_to.grow(a.addr, layout(10, 2), layout(17, 2)), Err(AllocError));
        let g = up_to.grow(a.addr, layout(10, 2), layout(16, 2)).unwrap();
        assert_eq!(g.block, Block { addr: 0x1000, size: 16 });
        let s = up_to.shrink(a.addr, layout(16, 2), layout(2, 2)).unwrap();
        assert_eq!(s.block, Block { addr: 0x1000, size: 2 });
        up_to.deallocate(a.addr, layout(2, 2));
        assert_eq!(up_to.base().allocations_count(), 0);
        (up_to.into_base(), ())
    });
}

#[test]
fn up_to_with_run_time_parameters() {
    Stacked::with_buf_raw(0x1000, 128, |arena| {
        let mut up_to = UpTo::new(RtParams { layout: layout(8, 4) }, arena);
        assert_eq!(up_to.allocate(layout(9, 1)), Err(AllocError));
        assert_eq!(up_to.allocate(layout(8, 8)), Err(AllocError));
        let a = up_to.allocate(layout(8, 4)).unwrap();
        assert!(up_to.accepts(a.addr, layout(8, 4)));
        up_to.deallocate(a.addr, layout(8, 4));
        (up_to.into_base(), ())
    });
}
