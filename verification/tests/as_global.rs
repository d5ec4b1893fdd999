use composable_allocators::as_global::Reallocated;
use composable_allocators::stacked::Stacked;
use composable_allocators::{AsGlobal, Layout, NonWorking};

fn layout(size: usize, align: usize) -> Layout {
    Layout::from_size_align(size, align).unwrap()
}

#[test]
fn failure_becomes_the_null_address() {
    let mut global = AsGlobal(NonWorking);
    assert_eq!(global.allocate(layout(8, 8)), 0);
}

#[test]
fn success_becomes_the_address_of_the_block() {
    Stacked::with_buf_raw(0x1001, 64, |arena| {
        let mut global = AsGlobal(arena);
        let l = layout(8, 8);
        assert_eq!(global.allocate(l), 0x1008);
        assert_eq!(global.allocate(layout(64, 1)), 0);
        global.dealloc(0x1008, l);
        assert_eq!(global.0.allocations_count(), 0);
        (global.0, ())
    });
}

#[test]
fn realloc_grows_and_shrinks_by_the_new_size() {
    Stacked::with_buf_raw(0x1000, 64, |arena| {
        let mut global = AsGlobal(arena);
        let l = layout(8, 8);
        let addr = global.allocate(l);
        assert_eq!(global.realloc(addr, l, 24), Reallocated { addr: 0x1000, copy: 0 });
        assert_eq!(global.0.allocated(), 24);
        assert_eq!(
            global.realloc(addr, layout(24, 8), 4),
            Reallocated { addr: 0x1000, copy: 0 }
        );
        assert_eq!(global.0.allocated(), 4);
        assert_eq!(
            global.realloc(addr, layout(4, 8), 4),
            Reallocated { addr: 0x1000, copy: 0 }
        );
        assert_eq!(global.realloc(addr, layout(4, 8), 65), Reallocated { addr: 0, copy: 0 });
        assert_eq!(global.0.allocated(), 4);
        global.dealloc(addr, layout(4, 8));
        (global.0, ())
    });
}

#[test]
fn realloc_to_a_size_that_makes_no_layout_fails() {
    Stacked::with_buf_raw(0x1000, 64, |arena| {
        let mut global = AsGlobal(arena);
        let l = layout(8, 8);
        let addr = global.allocate(l);
        assert_eq!(global.realloc(addr, l, isize::MAX as usize), Reallocated { addr: 0, copy: 0 });
        assert_eq!(global.0.allocated(), 8);
        assert_eq!(global.0.allocations_count(), 1);
        global.dealloc(addr, l);
        (global.0, ())
    });
}
