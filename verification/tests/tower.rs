use composable_allocators::stacked::Stacked;
use composable_allocators::tower::{Tower, CLASSES};
use composable_allocators::{AllocError, Allocator, Block, Fallbackable, Layout, Resized};
use std::mem::MaybeUninit;

fn layout(size: usize, align: usize) -> Layout {
    Layout::from_size_align(size, align).unwrap()
}

fn tower(len: usize) -> (Tower, usize) {
    let buf: &'static mut [MaybeUninit<u8>] =
        Box::leak(vec![MaybeUninit::uninit(); len + 8].into_boxed_slice());
    let first = buf.as_ptr() as usize;
    let skip = (8 - first % 8) % 8;
    let (_, aligned) = buf.split_at_mut(skip);
    let (aligned, _) = aligned.split_at_mut(len);
    (Tower::new(Stacked::from_static_slice(aligned)), first + skip)
}

#[test]
fn segregated_tower() {
    let (mut tower, first) = tower(131072);
    assert_eq!(tower.classes(), CLASSES);
    let a = tower.allocate(layout(5, 1)).unwrap();
    assert_eq!(a, Block { addr: first, size: 8 });
    let b = tower.allocate(layout(9, 1)).unwrap();
    assert_eq!(b, Block { addr: first + 8, size: 16 });
    let l = layout(1, 1);
    let c = tower.allocate(l).unwrap();
    assert_eq!(c, Block { addr: first + 24, size: 8 });
    assert!(tower.accepts(c.addr, l));
    tower.deallocate(c.addr, l);
    let d = tower.allocate(l).unwrap();
    assert_eq!(d, c);
    assert_eq!(tower.base().allocated(), 32);
    assert_eq!(tower.base().allocations_count(), 3);
}

#[test]
fn tower_fails_what_is_beyond_its_last_class() {
    let (mut tower, _) = tower(131072);
    assert_eq!(tower.allocate(layout(65537, 1)), Err(AllocError));
    assert_eq!(tower.allocate(layout(8, 16)), Err(AllocError));
    assert!(tower.allows_fallback(layout(65537, 1)));
    assert!(!tower.has_allocated(0, layout(65537, 1)));
    assert!(!tower.allows_fallback(layout(65536, 8)));
    assert!(tower.has_allocated(0, layout(65536, 8)));
    let top = tower.allocate(layout(65536, 8)).unwrap();
    assert_eq!(top.size, 65536);
}

#[test]
fn tower_class_is_the_first_that_fits() {
    let (mut tower, first) = tower(4096);
    let sizes = [(8, 8), (16, 16), (17, 32), (32, 32), (33, 64), (1000, 1024)];
    let mut next = first;
    for (size, class) in sizes {
        let b = tower.allocate(layout(size, 1)).unwrap();
        assert_eq!(b, Block { addr: next, size: class });
        next += class;
    }
}

#[test]
fn tower_caches_by_class() {
    let (mut tower, _) = tower(4096);
    let small = layout(8, 8);
    let large = layout(100, 4);
    let a = tower.allocate(small).unwrap();
    let b = tower.allocate(large).unwrap();
    assert_eq!(b.size, 128);
    tower.deallocate(a.addr, small);
    tower.deallocate(b.addr, large);
    let live = tower.base().allocations_count();
    let used = tower.base().allocated();
    assert_eq!(tower.allocate(layout(65, 1)).unwrap(), b);
    assert_eq!(tower.allocate(layout(3, 2)).unwrap(), a);
    assert_eq!(tower.base().allocations_count(), live);
    assert_eq!(tower.base().allocated(), used);
}

#[test]
fn tower_class_that_is_out_of_memory_does_not_fall_back() {
    let (mut tower, _) = tower(16);
    let l = layout(8, 8);
    assert!(tower.allocate(l).is_ok());
    assert!(tower.allocate(l).is_ok());
    assert_eq!(tower.allocate(l), Err(AllocError));
    assert_eq!(tower.allocate(layout(16, 8)), Err(AllocError));
}

#[test]
fn tower_block_of_no_bytes_comes_from_the_arena() {
    let (mut tower, first) = tower(64);
    let l = layout(0, 1);
    let a = tower.allocate(l).unwrap();
    assert_eq!(a, Block { addr: first, size: 0 });
    assert_eq!(tower.base().allocations_count(), 1);
    tower.deallocate(a.addr, l);
    assert_eq!(tower.base().allocations_count(), 0);
}

#[test]
fn tower_grows_within_the_block_of_a_class() {
    let (mut tower, first) = tower(4096);
    let old = layout(20, 4);
    let new = layout(32, 4);
    let a = tower.allocate(old).unwrap();
    assert_eq!(a, Block { addr: first, size: 32 });
    let g = tower.grow(a.addr, old, new).unwrap();
    assert_eq!(g, Resized { block: Block { addr: first, size: 32 }, copy: 0 });
    assert_eq!(tower.base().allocated(), 32);
}

#[test]
fn tower_grows_across_classes() {
    let (mut tower, first) = tower(4096);
    let old = layout(8, 8);
    let new = layout(40, 8);
    let a = tower.allocate(old).unwrap();
    let pin = tower.allocate(old).unwrap();
    assert_eq!(pin.addr, first + 8);
    let g = tower.grow(a.addr, old, new).unwrap();
    assert_eq!(g, Resized { block: Block { addr: first + 16, size: 64 }, copy: 8 });
    assert_eq!(tower.allocate(old).unwrap(), a);
    assert_eq!(tower.base().allocations_count(), 3);
}

#[test]
fn tower_shrinks_in_place_within_a_class() {
    let (mut tower, first) = tower(4096);
    let old = layout(100, 8);
    let new = layout(70, 8);
    let a = tower.allocate(old).unwrap();
    assert_eq!(a, Block { addr: first, size: 128 });
    let s = tower.shrink(a.addr, old, new).unwrap();
    assert_eq!(s, Resized { block: Block { addr: first, size: 128 }, copy: 0 });
    assert_eq!(tower.base().allocated(), 128);
}

#[test]
fn failed_tower_grow_changes_nothing() {
    let (mut tower, _) = tower(64);
    let old = layout(8, 8);
    let a = tower.allocate(old).unwrap();
    let used = tower.base().allocated();
    assert_eq!(tower.grow(a.addr, old, layout(100000, 8)), Err(AllocError));
    assert_eq!(tower.grow(a.addr, old, layout(1024, 8)), Err(AllocError));
    assert_eq!(tower.base().allocated(), used);
    assert_eq!(tower.base().allocations_count(), 1);
    assert!(tower.accepts(a.addr, old));
}
