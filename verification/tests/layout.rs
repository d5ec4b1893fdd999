use composable_allocators::layout::is_power_of_two;
use composable_allocators::{Layout, LayoutError};

#[test]
fn layout_keeps_size_and_align() {
    let layout = Layout::from_size_align(12, 4).unwrap();
    assert_eq!(layout.size(), 12);
    assert_eq!(layout.align(), 4);
}

#[test]
fn layout_of_no_bytes_is_legal() {
    let layout = Layout::from_size_align(0, 1).unwrap();
    assert_eq!(layout.size(), 0);
    assert_eq!(layout.align(), 1);
}

#[test]
fn layout_rejects_alignment_that_is_no_power_of_two() {
    assert_eq!(Layout::from_size_align(8, 0), Err(LayoutError));
    assert_eq!(Layout::from_size_align(8, 3), Err(LayoutError));
    assert_eq!(Layout::from_size_align(8, 24), Err(LayoutError));
}

#[test]
fn layout_rejects_size_that_rounds_beyond_isize_max() {
    let max = isize::MAX as usize;
    assert!(Layout::from_size_align(max, 1).is_ok());
    assert_eq!(Layout::from_size_align(max + 1, 1), Err(LayoutError));
    assert!(Layout::from_size_align(max - 7, 8).is_ok());
    assert_eq!(Layout::from_size_align(max - 6, 8), Err(LayoutError));
}

#[test]
fn layout_unchecked_agrees_with_checked() {
    let a = Layout::from_size_align(16, 8).unwrap();
    let b = Layout::from_size_align_unchecked(16, 8);
    assert_eq!(a, b);
}

#[test]
fn powers_of_two_are_told_apart() {
    assert!(!is_power_of_two(0));
    assert!(is_power_of_two(1));
    assert!(is_power_of_two(2));
    assert!(!is_power_of_two(3));
    assert!(is_power_of_two(4096));
    assert!(!is_power_of_two(4097));
    assert!(is_power_of_two(1 << (usize::BITS - 1)));
    assert!(!is_power_of_two(usize::MAX));
}
