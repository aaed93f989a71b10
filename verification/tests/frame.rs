use polyhal2::addr::PhysAddr;
use polyhal2::frame::{FreeList, VSpaceAO};

#[test]
fn fresh_allocator_is_empty() {
    let alloc = FreeList::new();
    assert_eq!(alloc.free_count(), 0);
}

#[test]
fn give_and_count() {
    let mut alloc = FreeList::new();
    alloc.give(PhysAddr(0x1000));
    alloc.give(PhysAddr(0x2000));
    alloc.give(PhysAddr(0x3000));
    assert_eq!(alloc.free_count(), 3);
}

#[test]
fn alloc_hands_out_each_page_once() {
    let mut alloc = FreeList::new();
    alloc.give(PhysAddr(0x1000));
    alloc.give(PhysAddr(0x2000));
    let a = alloc.alloc_page();
    let b = alloc.alloc_page();
    assert_ne!(a, b);
    assert!(a == PhysAddr(0x1000) || a == PhysAddr(0x2000));
    assert!(b == PhysAddr(0x1000) || b == PhysAddr(0x2000));
    assert_eq!(alloc.free_count(), 0);
}

#[test]
fn freed_page_comes_back() {
    let mut alloc = FreeList::new();
    alloc.give(PhysAddr(0x1000));
    let a = alloc.alloc_page();
    assert_eq!(alloc.free_count(), 0);
    alloc.free_page(a);
    assert_eq!(alloc.free_count(), 1);
    assert_eq!(alloc.alloc_page(), a);
}
