use composable_allocators::fallbacked::Fallbacked;
use composable_allocators::freelist::{FixedLimit, Freelist, NoLimit};
use composable_allocators::limited_up_to::LimitedUpTo;
use composable_allocators::stacked::Stacked;
use composable_allocators::tower::Tower;
use composable_allocators::{Allocator, Layout};
use std::mem::MaybeUninit;

fn static_arena(len: usize) -> Stacked {
    Stacked::from_static_slice(Box::leak(vec![MaybeUninit::uninit(); len].into_boxed_slice()))
}

fn layouts() -> Vec<Layout> {
    let mut layouts = Vec::new();
    for size in [0, 1, 3, 8, 9, 12, 16, 17, 31, 64, 100] {
        for align in [1, 2, 4, 8, 16, 64] {
            layouts.push(Layout::from_size_align(size, align).unwrap());
        }
    }
    layouts
}

fn hands_out_what_was_asked_for(mut allocator: impl Allocator) -> usize {
    let mut handed_out = 0;
    for layout in layouts() {
        if let Ok(block) = allocator.allocate(layout) {
            assert_eq!(block.addr % layout.align(), 0);
            assert!(block.size >= layout.size());
            handed_out += 1;
        }
    }
    handed_out
}

#[test]
fn arena_hands_out_aligned_blocks_that_are_large_enough() {
    assert_eq!(hands_out_what_was_asked_for(static_arena(8192)), 66);
}

#[test]
fn free_list_hands_out_aligned_blocks_that_are_large_enough() {
    let layout = Layout::from_size_align(16, 8).unwrap();
    let tolerance = Layout::from_size_align(9, 1).unwrap();
    let mut list = Freelist::new(layout, tolerance, NoLimit, static_arena(8192));
    let mut cached = Vec::new();
    for _ in 0..4 {
        cached.push(list.allocate(layout).unwrap());
    }
    for block in cached {
        list.deallocate(block.addr, layout);
    }
    assert_eq!(hands_out_what_was_asked_for(list), 66);
}

#[test]
fn capped_free_list_hands_out_aligned_blocks_that_are_large_enough() {
    let layout = Layout::from_size_align(64, 16).unwrap();
    let tolerance = Layout::from_size_align(1, 1).unwrap();
    let list = Freelist::new(layout, tolerance, FixedLimit::new(1), static_arena(8192));
    assert_eq!(hands_out_what_was_asked_for(list), 66);
}

#[test]
fn limiter_hands_out_aligned_blocks_that_are_large_enough() {
    let max = Layout::from_size_align(16, 8).unwrap();
    assert_eq!(hands_out_what_was_asked_for(LimitedUpTo::new(max, static_arena(8192))), 28);
}

#[test]
fn pair_hands_out_aligned_blocks_that_are_large_enough() {
    let max = Layout::from_size_align(16, 8).unwrap();
    let pair = Fallbacked(LimitedUpTo::new(max, static_arena(64)), static_arena(8192));
    assert_eq!(hands_out_what_was_asked_for(pair), 38 + b_side());
}

fn b_side() -> usize {
    let max = Layout::from_size_align(16, 8).unwrap();
    let mut primary = LimitedUpTo::new(max, static_arena(64));
    let mut served = 0;
    for layout in layouts() {
        if primary.manages(layout) && primary.allocate(layout).is_ok() {
            served += 1;
        }
    }
    served
}

#[test]
fn tower_hands_out_aligned_blocks_that_are_large_enough() {
    assert_eq!(hands_out_what_was_asked_for(Tower::new(static_arena(8192))), 44);
}
