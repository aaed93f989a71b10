use polyhal2::addr::{PhysAddr, PhysPage, VirtAddr, VirtPage};
use polyhal2::consts::KERNEL_OFFSET;

#[test]
fn phys_addr_round_trip_raw() {
    let a = PhysAddr::new(0x1234_5678);
    assert_eq!(a.raw(), 0x1234_5678);
}

#[test]
fn floor_and_ceil_align() {
    let a = PhysAddr::new(0x1fff);
    assert_eq!(a.floor(0x1000), PhysAddr::new(0x1000));
    assert_eq!(a.ceil(0x1000), PhysAddr::new(0x2000));
    let b = VirtAddr::new(0x3000);
    assert_eq!(b.floor(0x1000), VirtAddr::new(0x3000));
    assert_eq!(b.ceil(0x1000), VirtAddr::new(0x3000));
}

#[test]
fn mapped_vaddr_is_direct_map_projection() {
    let a = PhysAddr::new(0x8020_0000);
    assert_eq!(a.mapped_vaddr(), VirtAddr::new(KERNEL_OFFSET | 0x8020_0000));
}

#[test]
fn pages_round_trip_with_addresses() {
    let p = PhysPage::from_addr(0x5000);
    assert_eq!(p.raw(), 5);
    assert_eq!(p.to_addr(), 0x5000);
    let v = VirtPage::from_addr(0x7fff);
    assert_eq!(v.raw(), 7);
    assert_eq!(v.to_addr(), 0x7000);
}

#[test]
fn page_address_conversions() {
    assert_eq!(PhysAddr::from(PhysPage::new(3)), PhysAddr::new(0x3000));
    assert_eq!(PhysPage::from(PhysAddr::new(0x3fff)), PhysPage::new(3));
    assert_eq!(VirtAddr::from(VirtPage::new(4)), VirtAddr::new(0x4000));
    assert_eq!(VirtPage::from(VirtAddr::new(0x4001)), VirtPage::new(4));
}
