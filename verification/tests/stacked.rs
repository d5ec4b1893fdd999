use composable_allocators::stacked::{with_buf, with_size, Stacked};
use composable_allocators::{AllocError, Allocator, Block, Fallbackable, Layout, Resized};
use std::mem::MaybeUninit;

fn layout(size: usize, align: usize) -> Layout {
    Layout::from_size_align(size, align).unwrap()
}

fn static_buf(len: usize) -> &'static mut [MaybeUninit<u8>] {
    Box::leak(vec![MaybeUninit::uninit(); len].into_boxed_slice())
}

#[test]
fn bump_basics() {
    Stacked::with_buf_raw(0x1000, 256, |mut arena| {
        let l1 = layout(4, 4);
        let a1 = arena.allocate(l1).unwrap();
        assert_eq!(a1.addr % 4, 0);
        assert_eq!(a1, Block { addr: 0x1000, size: 4 });
        let l2 = layout(4, 4);
        let a2 = arena.allocate(l2).unwrap();
        assert_eq!(a2.addr, a1.addr + 4);
        let used = arena.allocated();
        assert!(arena.accepts(a2.addr, l2));
        arena.deallocate(a2.addr, l2);
        assert_eq!(arena.allocated(), used - 4);
        let l3 = layout(16, 8);
        let a3 = arena.allocate(l3).unwrap();
        assert_eq!(a3.addr % 8, 0);
        assert_eq!(a3.addr, a1.addr + 4 + 4);
        assert_eq!(arena.allocated(), 24);
        assert_eq!(arena.allocations_count(), 2);
        arena.deallocate(a3.addr, l3);
        arena.deallocate(a1.addr, l1);
        assert_eq!(arena.allocations_count(), 0);
        (arena, ())
    });
}

#[test]
fn arena_with_one_live_block_is_not_empty() {
    let mut arena = Stacked::from_static_slice(static_buf(256));
    let l = layout(4, 4);
    let a = arena.allocate(l).unwrap();
    assert_eq!(arena.allocations_count(), 1);
    arena.deallocate(a.addr, l);
    assert_eq!(arena.allocations_count(), 0);
}

#[test]
fn padding_leads_to_the_next_aligned_address() {
    Stacked::with_buf_raw(0x1001, 64, |mut arena| {
        let a = arena.allocate(layout(2, 8)).unwrap();
        assert_eq!(a, Block { addr: 0x1008, size: 2 });
        assert_eq!(arena.allocated(), 9);
        let b = arena.allocate(layout(1, 1)).unwrap();
        assert_eq!(b, Block { addr: 0x100a, size: 1 });
        assert_eq!(arena.allocated(), 10);
        arena.deallocate(b.addr, layout(1, 1));
        arena.deallocate(a.addr, layout(2, 8));
        (arena, ())
    });
}

#[test]
fn aligned_cursor_takes_no_padding() {
    Stacked::with_buf_raw(0x2000, 64, |mut arena| {
        let a = arena.allocate(layout(8, 8)).unwrap();
        assert_eq!(a.addr, 0x2000);
        let b = arena.allocate(layout(8, 8)).unwrap();
        assert_eq!(b.addr, 0x2008);
        assert_eq!(arena.allocated(), 16);
        arena.deallocate(b.addr, layout(8, 8));
        arena.deallocate(a.addr, layout(8, 8));
        (arena, ())
    });
}

#[test]
fn block_of_no_bytes_stands_at_the_cursor() {
    Stacked::with_buf_raw(0x3000, 16, |mut arena| {
        let l = layout(0, 1);
        let a = arena.allocate(l).unwrap();
        assert_eq!(a, Block { addr: 0x3000, size: 0 });
        assert_eq!(arena.allocated(), 0);
        assert_eq!(arena.allocations_count(), 1);
        arena.deallocate(a.addr, l);
        assert_eq!(arena.allocations_count(), 0);
        (arena, ())
    });
}

#[test]
fn request_beyond_the_buffer_fails_and_changes_nothing() {
    Stacked::with_buf_raw(0x1000, 16, |mut arena| {
        let l = layout(8, 1);
        let a = arena.allocate(l).unwrap();
        assert_eq!(arena.allocate(layout(9, 1)), Err(AllocError));
        assert_eq!(arena.allocated(), 8);
        assert_eq!(arena.allocations_count(), 1);
        let b = arena.allocate(layout(8, 1)).unwrap();
        assert_eq!(b.addr, 0x1008);
        assert_eq!(arena.allocate(layout(1, 1)), Err(AllocError));
        arena.deallocate(b.addr, layout(8, 1));
        arena.deallocate(a.addr, l);
        (arena, ())
    });
}

#[test]
fn request_that_would_overflow_fails() {
    Stacked::with_buf_raw(0x1001, 16, |mut arena| {
        let huge = layout(isize::MAX as usize - 7, 8);
        assert_eq!(arena.allocate(huge), Err(AllocError));
        assert_eq!(arena.allocated(), 0);
        assert_eq!(arena.allocations_count(), 0);
        (arena, ())
    });
}

#[test]
fn only_the_block_on_top_gives_memory_back() {
    Stacked::with_buf_raw(0x1000, 64, |mut arena| {
        let l = layout(8, 8);
        let a = arena.allocate(l).unwrap();
        let b = arena.allocate(l).unwrap();
        assert_eq!(arena.allocated(), 16);
        arena.deallocate(a.addr, l);
        assert_eq!(arena.allocated(), 16);
        assert_eq!(arena.allocations_count(), 1);
        arena.deallocate(b.addr, l);
        assert_eq!(arena.allocated(), 8);
        assert_eq!(arena.allocations_count(), 0);
        (arena, ())
    });
}

#[test]
fn live_count_is_allocations_less_deallocations() {
    Stacked::with_buf_raw(0x1000, 64, |mut arena| {
        let l = layout(4, 4);
        let mut handed_out = 0;
        let mut taken_back = 0;
        let mut blocks = Vec::new();
        for _ in 0..20 {
            if let Ok(b) = arena.allocate(l) {
                handed_out += 1;
                blocks.push(b);
            }
            assert!(arena.allocated() <= 64);
        }
        assert_eq!(handed_out, 16);
        assert_eq!(arena.allocations_count(), 16);
        while let Some(b) = blocks.pop() {
            arena.deallocate(b.addr, l);
            taken_back += 1;
            assert_eq!(arena.allocations_count(), handed_out - taken_back);
            assert!(arena.allocated() <= 64);
        }
        assert_eq!(arena.allocated(), 0);
        (arena, ())
    });
}

#[test]
fn round_trip_restores_the_live_count() {
    Stacked::with_buf_raw(0x1001, 64, |mut arena| {
        let l = layout(8, 4);
        let live = arena.allocations_count();
        let b = arena.allocate(l).unwrap();
        assert_eq!(b.addr, 0x1004);
        assert_eq!(arena.allocated(), 11);
        arena.deallocate(b.addr, l);
        assert_eq!(arena.allocations_count(), live);
        assert_eq!(arena.allocated(), 3);
        (arena, ())
    });
}

#[test]
fn grow_on_top_stays_in_place() {
    Stacked::with_buf_raw(0x1000, 64, |mut arena| {
        let old = layout(8, 8);
        let new = layout(24, 8);
        let a = arena.allocate(old).unwrap();
        let g = arena.grow(a.addr, old, new).unwrap();
        assert_eq!(g, Resized { block: Block { addr: 0x1000, size: 24 }, copy: 0 });
        assert_eq!(arena.allocated(), 24);
        assert_eq!(arena.allocations_count(), 1);
        arena.deallocate(g.block.addr, new);
        (arena, ())
    });
}

#[test]
fn grow_to_the_same_layout_changes_nothing() {
    Stacked::with_buf_raw(0x1000, 64, |mut arena| {
        let l = layout(12, 4);
        let a = arena.allocate(l).unwrap();
        let g = arena.grow(a.addr, l, l).unwrap();
        assert_eq!(g, Resized { block: Block { addr: a.addr, size: 12 }, copy: 0 });
        assert_eq!(arena.allocated(), 12);
        assert_eq!(arena.allocations_count(), 1);
        arena.deallocate(a.addr, l);
        (arena, ())
    });
}

#[test]
fn grow_below_the_top_fails() {
    Stacked::with_buf_raw(0x1000, 64, |mut arena| {
        let l = layout(8, 8);
        let a = arena.allocate(l).unwrap();
        let b = arena.allocate(l).unwrap();
        assert_eq!(arena.grow(a.addr, l, layout(16, 8)), Err(AllocError));
        assert_eq!(arena.grow(a.addr, l, l), Err(AllocError));
        assert_eq!(arena.allocated(), 16);
        assert_eq!(arena.allocations_count(), 2);
        arena.deallocate(b.addr, l);
        arena.deallocate(a.addr, l);
        (arena, ())
    });
}

#[test]
fn grow_beyond_the_buffer_fails() {
    Stacked::with_buf_raw(0x1000, 16, |mut arena| {
        let l = layout(8, 8);
        let a = arena.allocate(l).unwrap();
        assert_eq!(arena.grow(a.addr, l, layout(17, 8)), Err(AllocError));
        assert_eq!(arena.allocated(), 8);
        let g = arena.grow(a.addr, l, layout(16, 8)).unwrap();
        assert_eq!(g.block, Block { addr: 0x1000, size: 16 });
        arena.deallocate(a.addr, layout(16, 8));
        (arena, ())
    });
}

#[test]
fn grow_to_a_wider_alignment_moves_the_block() {
    Stacked::with_buf_raw(0x1000, 64, |mut arena| {
        let first = layout(4, 4);
        let old = layout(4, 4);
        let new = layout(8, 8);
        let a = arena.allocate(first).unwrap();
        let b = arena.allocate(old).unwrap();
        assert_eq!(b.addr, 0x1004);
        let g = arena.grow(b.addr, old, new).unwrap();
        assert_eq!(g, Resized { block: Block { addr: 0x1008, size: 8 }, copy: 4 });
        assert_eq!(arena.allocated(), 16);
        assert_eq!(arena.allocations_count(), 2);
        arena.deallocate(g.block.addr, new);
        arena.deallocate(a.addr, first);
        (arena, ())
    });
}

#[test]
fn shrink_on_top_gives_memory_back() {
    Stacked::with_buf_raw(0x1000, 64, |mut arena| {
        let old = layout(16, 8);
        let new = layout(4, 4);
        let a = arena.allocate(old).unwrap();
        let g = arena.shrink(a.addr, old, new).unwrap();
        assert_eq!(g, Resized { block: Block { addr: 0x1000, size: 4 }, copy: 0 });
        assert_eq!(arena.allocated(), 4);
        arena.deallocate(a.addr, new);
        (arena, ())
    });
}

#[test]
fn shrink_below_the_top_keeps_the_capacity() {
    Stacked::with_buf_raw(0x1000, 64, |mut arena| {
        let old = layout(16, 8);
        let new = layout(4, 4);
        let a = arena.allocate(old).unwrap();
        let b = arena.allocate(old).unwrap();
        let g = arena.shrink(a.addr, old, new).unwrap();
        assert_eq!(g, Resized { block: Block { addr: 0x1000, size: 16 }, copy: 0 });
        assert_eq!(arena.allocated(), 32);
        arena.deallocate(b.addr, old);
        arena.deallocate(a.addr, new);
        (arena, ())
    });
}

#[test]
fn shrink_fails_only_on_a_wider_alignment() {
    Stacked::with_buf_raw(0x1000, 64, |mut arena| {
        let old = layout(16, 4);
        let a = arena.allocate(old).unwrap();
        assert_eq!(arena.shrink(a.addr, old, layout(8, 8)), Err(AllocError));
        assert_eq!(arena.allocated(), 16);
        assert!(arena.shrink(a.addr, old, layout(16, 4)).is_ok());
        assert!(arena.shrink(a.addr, old, layout(8, 2)).is_ok());
        assert!(arena.shrink(a.addr, layout(8, 2), layout(0, 1)).is_ok());
        arena.deallocate(a.addr, layout(0, 1));
        (arena, ())
    });
}

#[test]
fn arena_claims_the_addresses_of_its_buffer() {
    Stacked::with_buf_raw(0x1000, 16, |arena| {
        let l = layout(1, 1);
        assert!(!arena.has_allocated(0xfff, l));
        assert!(arena.has_allocated(0x1000, l));
        assert!(arena.has_allocated(0x100f, l));
        assert!(!arena.has_allocated(0x1010, l));
        assert!(arena.allows_fallback(l));
        assert!(arena.allows_fallback(layout(4096, 64)));
        (arena, ())
    });
}

#[test]
fn arena_accepts_what_lies_in_its_consumed_part() {
    Stacked::with_buf_raw(0x1000, 32, |mut arena| {
        let l = layout(8, 8);
        assert!(!arena.accepts(0x1000, l));
        let a = arena.allocate(l).unwrap();
        assert!(arena.accepts(a.addr, l));
        assert!(arena.accepts(a.addr, layout(4, 4)));
        assert!(!arena.accepts(a.addr, layout(16, 8)));
        assert!(!arena.accepts(a.addr + 1, layout(1, 2)));
        assert!(!arena.accepts(0xff8, l));
        arena.deallocate(a.addr, l);
        assert!(!arena.accepts(a.addr, layout(0, 1)));
        (arena, ())
    });
}

#[test]
fn arena_over_a_slice_hands_out_its_bytes() {
    let mut buf = [MaybeUninit::<u8>::uninit(); 64];
    let first = buf.as_ptr() as usize;
    let taken = with_buf(&mut buf, |mut arena| {
        let l = layout(16, 1);
        let a = arena.allocate(l).unwrap();
        let b = arena.allocate(l).unwrap();
        assert!(arena.has_allocated(a.addr, l));
        arena.deallocate(b.addr, l);
        arena.deallocate(a.addr, l);
        (arena, (a.addr, b.addr))
    });
    assert_eq!(taken, (first, first + 16));
}

#[test]
fn arena_over_its_own_buffer_has_the_size_asked_for() {
    let fits = with_size::<32, _, _>(|mut arena| {
        let l = layout(32, 1);
        let a = arena.allocate(l).unwrap();
        let full = arena.allocate(layout(1, 1)).is_err();
        arena.deallocate(a.addr, l);
        (arena, a.size == 32 && full)
    });
    assert!(fits);
}

#[test]
fn arena_over_a_static_array_has_its_length() {
    let buf: &'static mut [MaybeUninit<u8>; 48] = Box::leak(Box::new([MaybeUninit::uninit(); 48]));
    let first = buf.as_ptr() as usize;
    let mut arena = Stacked::from_static_array(buf);
    let l = layout(48, 1);
    let a = arena.allocate(l).unwrap();
    assert_eq!(a, Block { addr: first, size: 48 });
    assert_eq!(arena.allocate(layout(1, 1)), Err(AllocError));
    arena.deallocate(a.addr, l);
}

#[test]
fn block_of_no_bytes_behind_the_buffer_is_not_claimed() {
    Stacked::with_buf_raw(0x1000, 8, |mut arena| {
        let full = layout(8, 1);
        let none = layout(0, 1);
        let a = arena.allocate(full).unwrap();
        let z = arena.allocate(none).unwrap();
        assert_eq!(z, Block { addr: 0x1008, size: 0 });
        assert!(!arena.has_allocated(z.addr, none));
        assert!(arena.accepts(z.addr, none));
        arena.deallocate(z.addr, none);
        arena.deallocate(a.addr, full);
        assert_eq!(arena.allocated(), 0);
        (arena, ())
    });
}
