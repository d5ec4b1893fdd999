use composable_allocators::posix::{self, HeapCall, Posix};
use composable_allocators::winapi::{self, Header, Placement, WinApi};
use composable_allocators::{AllocError, Block, Layout};

const WORD: usize = std::mem::size_of::<usize>();

fn layout(size: usize, align: usize) -> Layout {
    Layout::from_size_align(size, align).unwrap()
}

#[test]
fn posix_status_zero_is_success() {
    assert_eq!(posix::zero(0), Ok(()));
    assert_eq!(posix::zero(12), Err(AllocError));
    assert_eq!(posix::zero(-1), Err(AllocError));
}

#[test]
fn posix_native_alignment_is_two_words() {
    assert!(posix::is_native_align(1));
    assert!(posix::is_native_align(2 * WORD));
    assert!(!posix::is_native_align(4 * WORD));
}

#[test]
fn posix_picks_the_call_by_size_and_alignment() {
    assert_eq!(Posix::allocate_call(layout(0, 64)), HeapCall::Dangling);
    assert_eq!(Posix::allocate_call(layout(24, 8)), HeapCall::Malloc { size: 24 });
    assert_eq!(
        Posix::allocate_call(layout(24, 4 * WORD)),
        HeapCall::Memalign { align: 4 * WORD, size: 24 }
    );
}

#[test]
fn posix_block_of_no_bytes_dangles_at_its_alignment() {
    assert_eq!(Posix::dangling(layout(0, 64)), Block { addr: 64, size: 0 });
    assert_eq!(Posix::dangling(layout(0, 1)), Block { addr: 1, size: 0 });
    assert!(!Posix::deallocate_call(layout(0, 64)));
    assert!(Posix::deallocate_call(layout(1, 1)));
}

#[test]
fn posix_malloc_result_has_to_be_aligned() {
    let l = layout(24, 8);
    assert_eq!(Posix::malloc_done(l, 0x5000), Ok(Block { addr: 0x5000, size: 24 }));
    assert_eq!(Posix::malloc_done(l, 0), Err(AllocError));
    assert_eq!(Posix::malloc_done(l, 0x5004), Err(AllocError));
}

#[test]
fn posix_memalign_result_goes_by_the_status() {
    let l = layout(24, 64);
    assert_eq!(Posix::memalign_done(l, 0, 0x5040), Ok(Block { addr: 0x5040, size: 24 }));
    assert_eq!(Posix::memalign_done(l, 12, 0), Err(AllocError));
}

#[test]
fn posix_resizes_native_blocks_with_bytes_in_the_heap() {
    let wide = 4 * WORD;
    assert!(Posix::grow_call(layout(8, 8), layout(16, 8)));
    assert!(!Posix::grow_call(layout(0, 8), layout(16, 8)));
    assert!(!Posix::grow_call(layout(8, wide), layout(16, 8)));
    assert!(!Posix::grow_call(layout(8, 8), layout(16, wide)));
    assert!(Posix::shrink_call(layout(16, 8), layout(8, 8)));
    assert!(!Posix::shrink_call(layout(16, 8), layout(0, 8)));
    assert!(!Posix::shrink_call(layout(16, wide), layout(8, 8)));
    assert!(!Posix::shrink_call(layout(16, 8), layout(8, wide)));
}

#[test]
fn winapi_flag_zero_is_failure() {
    assert_eq!(winapi::non_zero(0), Err(AllocError));
    assert_eq!(winapi::non_zero(1), Ok(1));
    assert_eq!(winapi::non_zero(-3), Ok(-3));
}

#[test]
fn winapi_native_alignment_is_two_words() {
    assert_eq!(winapi::memory_allocation_alignment(), 2 * WORD);
    assert!(winapi::is_native_align(2 * WORD));
    assert!(!winapi::is_native_align(4 * WORD));
}

#[test]
fn allocate_zero_size() {
    let l = layout(0, 1);
    assert_eq!(WinApi::request_size(l), Ok(0));
    let p = WinApi::place(l, 0x7000).unwrap();
    assert_eq!(p, Placement { block: Block { addr: 0x7000, size: 0 }, header: None });
    assert_eq!(WinApi::header_addr(p.block.addr, l), None);
    assert_eq!(WinApi::heap_addr(p.block.addr, l, 0), Ok(0x7000));
}

#[test]
fn winapi_asks_for_room_to_align() {
    assert_eq!(WinApi::request_size(layout(32, 8)), Ok(32));
    assert_eq!(WinApi::request_size(layout(32, 64)), Ok(96));
    let huge = layout((isize::MAX as usize) - (1 << (usize::BITS - 2)) + 1, 1 << (usize::BITS - 2));
    assert!(WinApi::request_size(huge).is_ok());
    let align = 1usize << (usize::BITS - 1);
    assert_eq!(WinApi::request_size(layout(0, align)), Ok(align));
}

#[test]
fn over_aligned_system_allocation() {
    let l = layout(32, 64);
    let size = WinApi::request_size(l).unwrap();
    assert_eq!(size, 96);
    let mut raw = 0x10000 + 2 * WORD;
    for _ in 0..1024 {
        let p = WinApi::place(l, raw).unwrap();
        let header = p.header.unwrap();
        assert_eq!(p.block.addr % 64, 0);
        assert!(p.block.size >= 32);
        assert!(raw <= header.addr);
        assert_eq!(header.addr + WORD, p.block.addr);
        assert_eq!(p.block.addr + p.block.size, raw + size);
        assert_eq!(WinApi::header_addr(p.block.addr, l), Some(header.addr));
        assert_eq!(WinApi::heap_addr(p.block.addr, l, header.offset), Ok(raw));
        raw += 2 * WORD;
    }
}

#[test]
fn winapi_placement_by_the_numbers() {
    let l = layout(32, 64);
    let raw = 0x10010;
    let skipped = raw + WORD;
    let offset = (64 - skipped % 64) % 64;
    let addr = skipped + offset;
    assert_eq!(
        WinApi::place(l, raw),
        Ok(Placement {
            block: Block { addr, size: 96 - WORD - offset },
            header: Some(Header { addr: addr - WORD, offset }),
        })
    );
    let aligned = 0x10040 - WORD;
    assert_eq!(
        WinApi::place(l, aligned),
        Ok(Placement {
            block: Block { addr: 0x10040, size: 96 - WORD },
            header: Some(Header { addr: aligned, offset: 0 }),
        })
    );
}

#[test]
fn winapi_place_fails_without_a_heap_block() {
    assert_eq!(WinApi::place(layout(32, 64), 0), Err(AllocError));
    assert_eq!(WinApi::place(layout(32, 8), 0), Err(AllocError));
    assert_eq!(WinApi::place(layout(32, 64), usize::MAX - 64), Err(AllocError));
}

#[test]
fn winapi_finds_no_heap_block_in_front_of_the_address_space() {
    let l = layout(32, 64);
    assert_eq!(WinApi::heap_addr(WORD, l, 1), Err(AllocError));
    assert_eq!(WinApi::heap_addr(WORD - 1, l, 0), Err(AllocError));
    assert_eq!(WinApi::heap_addr(WORD, l, 0), Ok(0));
    assert_eq!(WinApi::header_addr(WORD - 1, l), None);
}

#[test]
fn winapi_resizes_native_blocks_in_the_heap() {
    let wide = 4 * WORD;
    assert!(WinApi::realloc_call(layout(8, 8), layout(16, 2 * WORD)));
    assert!(!WinApi::realloc_call(layout(8, wide), layout(16, 8)));
    assert!(!WinApi::realloc_call(layout(8, 8), layout(16, wide)));
}
