use hyper_scheduler::task::stack::{align_to_page_size, page_size_get, page_size_of, StackSize};

#[test]
fn align_rounds_up_to_page() {
    assert_eq!(align_to_page_size(1, 4096), 4096);
    assert_eq!(align_to_page_size(4096, 4096), 4096);
    assert_eq!(align_to_page_size(4097, 4096), 8192);
    assert_eq!(align_to_page_size(0, 4096), 0);
    assert_eq!(align_to_page_size(100, 1), 100);
}

#[test]
fn align_is_least_aligned_not_below() {
    for size in [0usize, 1, 17, 4095, 4096, 4097, 65535, 65536, 1_000_000] {
        let r = align_to_page_size(size, 4096);
        assert_eq!(r % 4096, 0);
        assert!(r >= size);
        assert!(r < size + 4096);
    }
}

#[test]
fn default_stack_is_eight_pages() {
    let s = StackSize::default();
    assert_eq!(s.aligned_page_size(4096, 2048), 8 * 4096);
}

#[test]
fn extra_size_adds_to_default() {
    let s = StackSize::with_extra_size(1);
    assert_eq!(s.aligned_page_size(4096, 2048), 8 * 4096 + 4096);
    let s = StackSize::with_extra_size(8192);
    assert_eq!(s.aligned_page_size(4096, 2048), 8 * 4096 + 8192);
}

#[test]
fn exact_size_rounds_to_pages() {
    let s = StackSize::with_size(10_000);
    assert_eq!(s.aligned_page_size(4096, 2048), 12288);
    // size 0 asks for one byte: one page
    let s = StackSize::with_size(0);
    assert_eq!(s.aligned_page_size(4096, 2048), 4096);
}

#[test]
fn signal_stack_minimum_wins() {
    let s = StackSize::with_size(100);
    assert_eq!(s.aligned_page_size(1024, 8192), 8192);
    let s = StackSize::default();
    assert_eq!(s.aligned_page_size(512, 8192), 8192);
}

#[test]
fn fits_rejects_overflow() {
    assert!(StackSize::default().fits(4096));
    assert!(!StackSize::default().fits(0));
    assert!(!StackSize::default().fits(usize::MAX));
    assert!(StackSize::with_extra_size(isize::MAX as usize).fits(4096));
    assert!(!StackSize::with_extra_size(isize::MAX as usize).fits(1 << 60));
}

#[test]
fn machine_page_size_and_stack() {
    let page = page_size_get().expect("page size");
    assert!(page >= 1);
    assert_eq!(page & (page - 1), 0);
    let bytes = StackSize::default().stack_size_bytes().expect("stack size");
    assert_eq!(bytes, std::cmp::max(8 * page, libc::MINSIGSTKSZ));
    let bytes = StackSize::with_size(1).stack_size_bytes().expect("stack size");
    assert_eq!(bytes, std::cmp::max(page, libc::MINSIGSTKSZ));
}

#[test]
fn page_size_from_sysconf_reply() {
    assert_eq!(page_size_of(Some(4096)), Some(4096));
    assert_eq!(page_size_of(Some(0)), None);
    assert_eq!(page_size_of(Some(-1)), None);
    assert_eq!(page_size_of(None), None);
}

#[test]
fn stack_size_for_page_and_minimum() {
    assert_eq!(StackSize::default().stack_size_for(4096, 2048), Some(32768));
    assert_eq!(StackSize::with_size(5000).stack_size_for(4096, 2048), Some(8192));
    assert_eq!(StackSize::with_extra_size(1).stack_size_for(4096, 100_000), Some(100_000));
    assert_eq!(StackSize::default().stack_size_for(0, 2048), None);
    assert_eq!(StackSize::default().stack_size_for(usize::MAX / 4, 0), None);
}
