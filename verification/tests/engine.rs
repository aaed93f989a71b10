use polyhal2::addr::{PhysAddr, VirtAddr};
use polyhal2::flags::{
    FLAG_A, FLAG_D, FLAG_G, FLAG_P, FLAG_R, FLAG_U, FLAG_W, FLAG_X, MappingFlags,
};
use polyhal2::frame::FreeList;
use polyhal2::imp::{aarch64, loongarch64, riscv64, x86_64};
use polyhal2::paging::{MapError, MappingSize};
use polyhal2::vspace::VSpace;

fn seeded(pages: u64) -> FreeList {
    let mut alloc = FreeList::new();
    let mut i: u64 = 0;
    while i < pages {
        alloc.give(PhysAddr(0x10_0000 + i * 0x1000));
        i += 1;
    }
    alloc
}

#[test]
fn map_then_translate_round_trip() {
    let mut alloc = seeded(8);
    let mut vs: VSpace<riscv64::Arch> = VSpace::new(&mut alloc);
    let v = VirtAddr(0x4000_5000);
    vs.map_page(
        &mut alloc,
        v,
        PhysAddr(0x8000_3000),
        MappingFlags(FLAG_R | FLAG_W),
        MappingSize::Page4KB,
    );
    let (pa, fl) = vs.translate(v).unwrap();
    assert_eq!(pa, PhysAddr(0x8000_3000));
    assert_eq!(fl.bits(), FLAG_P | FLAG_R | FLAG_A | FLAG_W | FLAG_D);
    // the read, write and present bits that went in survived the round trip
    assert!(fl.contains(MappingFlags(FLAG_P | FLAG_R | FLAG_W)));
}

#[test]
fn translate_adds_intra_page_offset() {
    let mut alloc = seeded(8);
    let mut vs: VSpace<riscv64::Arch> = VSpace::new(&mut alloc);
    vs.map_page(
        &mut alloc,
        VirtAddr(0x4000_5000),
        PhysAddr(0x8000_3000),
        MappingFlags(FLAG_R),
        MappingSize::Page4KB,
    );
    let (pa, _) = vs.translate(VirtAddr(0x4000_5ABC)).unwrap();
    assert_eq!(pa, PhysAddr(0x8000_3ABC));
}

#[test]
fn translate_unmapped_is_none() {
    let mut alloc = seeded(4);
    let vs: VSpace<riscv64::Arch> = VSpace::new(&mut alloc);
    assert_eq!(vs.translate(VirtAddr(0x1000)), None);
}

#[test]
fn unmap_removes_mapping() {
    let mut alloc = seeded(8);
    let mut vs: VSpace<riscv64::Arch> = VSpace::new(&mut alloc);
    let v = VirtAddr(0x4000_5000);
    vs.map_page(
        &mut alloc,
        v,
        PhysAddr(0x8000_3000),
        MappingFlags(FLAG_R | FLAG_W),
        MappingSize::Page4KB,
    );
    assert!(vs.translate(v).is_some());
    vs.unmap_page(v, MappingSize::Page4KB);
    assert_eq!(vs.translate(v), None);
}

#[test]
fn unmap_of_never_mapped_address_is_a_no_op() {
    let mut alloc = seeded(8);
    let mut vs: VSpace<riscv64::Arch> = VSpace::new(&mut alloc);
    let mapped = VirtAddr(0x4000_5000);
    vs.map_page(
        &mut alloc,
        mapped,
        PhysAddr(0x8000_3000),
        MappingFlags(FLAG_R),
        MappingSize::Page4KB,
    );
    // no table path at all towards this address
    vs.unmap_page(VirtAddr(0x10_0000_0000), MappingSize::Page4KB);
    // partial path: the leaf table exists but the slot is empty
    vs.unmap_page(VirtAddr(0x4000_6000), MappingSize::Page4KB);
    let (pa, _) = vs.translate(mapped).unwrap();
    assert_eq!(pa, PhysAddr(0x8000_3000));
}

#[test]
fn remap_overwrites_existing_mapping() {
    let mut alloc = seeded(8);
    let mut vs: VSpace<riscv64::Arch> = VSpace::new(&mut alloc);
    let v = VirtAddr(0x4000_5000);
    vs.map_page(
        &mut alloc,
        v,
        PhysAddr(0x8000_1000),
        MappingFlags(FLAG_R | FLAG_W),
        MappingSize::Page4KB,
    );
    vs.map_page(
        &mut alloc,
        v,
        PhysAddr(0x8000_2000),
        MappingFlags(FLAG_R | FLAG_X),
        MappingSize::Page4KB,
    );
    let (pa, fl) = vs.translate(v).unwrap();
    assert_eq!(pa, PhysAddr(0x8000_2000));
    assert_eq!(fl.bits(), FLAG_P | FLAG_R | FLAG_A | FLAG_X);
}

#[test]
fn mapping_one_address_leaves_others_alone() {
    let mut alloc = seeded(16);
    let mut vs: VSpace<riscv64::Arch> = VSpace::new(&mut alloc);
    let near = VirtAddr(0x4000_6000);  // same leaf table, other slot
    let far = VirtAddr(0x8000_0000);  // different top-level slot
    vs.map_page(
        &mut alloc,
        near,
        PhysAddr(0x9000_1000),
        MappingFlags(FLAG_R),
        MappingSize::Page4KB,
    );
    vs.map_page(
        &mut alloc,
        far,
        PhysAddr(0x9000_2000),
        MappingFlags(FLAG_R),
        MappingSize::Page4KB,
    );
    vs.map_page(
        &mut alloc,
        VirtAddr(0x4000_5000),
        PhysAddr(0x9000_3000),
        MappingFlags(FLAG_R | FLAG_W),
        MappingSize::Page4KB,
    );
    assert_eq!(vs.translate(near).unwrap().0, PhysAddr(0x9000_1000));
    assert_eq!(vs.translate(far).unwrap().0, PhysAddr(0x9000_2000));
    assert_eq!(vs.translate(VirtAddr(0x4000_7000)), None);
}

#[test]
fn out_of_range_mapping_is_rejected() {
    let mut alloc = seeded(8);
    let mut vs: VSpace<riscv64::Arch> = VSpace::new(&mut alloc);
    // top-level slot 0x100: the first address beyond the private range
    let beyond = VirtAddr(0x40_0000_0000);
    let r = vs.try_map_page(
        &mut alloc,
        beyond,
        PhysAddr(0x8000_3000),
        MappingFlags(FLAG_R),
        MappingSize::Page4KB,
    );
    assert_eq!(r, Err(MapError::OutOfRange));
    assert_eq!(vs.translate(beyond), None);
}

#[test]
fn huge_page_request_is_rejected() {
    let mut alloc = seeded(8);
    let mut vs: VSpace<riscv64::Arch> = VSpace::new(&mut alloc);
    let r = vs.try_map_page(
        &mut alloc,
        VirtAddr(0x4000_0000),
        PhysAddr(0x8000_3000),
        MappingFlags(FLAG_R),
        MappingSize::Page2MB,
    );
    assert_eq!(r, Err(MapError::UnsupportedSize));
}

#[test]
fn misaligned_frame_is_rejected() {
    let mut alloc = seeded(8);
    let mut vs: VSpace<riscv64::Arch> = VSpace::new(&mut alloc);
    let r = vs.try_map_page(
        &mut alloc,
        VirtAddr(0x4000_0000),
        PhysAddr(0x8000_3123),
        MappingFlags(FLAG_R),
        MappingSize::Page4KB,
    );
    assert_eq!(r, Err(MapError::InvalidFrame));
}

#[test]
fn checked_mapping_in_range_succeeds() {
    let mut alloc = seeded(8);
    let mut vs: VSpace<riscv64::Arch> = VSpace::new(&mut alloc);
    let v = VirtAddr(0x3FFF_FFF000);  // top-level slot 0xFF: last one in range
    let r = vs.try_map_page(
        &mut alloc,
        v,
        PhysAddr(0x8000_3000),
        MappingFlags(FLAG_R),
        MappingSize::Page4KB,
    );
    assert_eq!(r, Ok(()));
    assert_eq!(vs.translate(v).unwrap().0, PhysAddr(0x8000_3000));
}

#[test]
fn x86_64_space_walks_four_levels() {
    let mut alloc = seeded(8);
    let mut vs: VSpace<x86_64::Arch> = VSpace::new(&mut alloc);
    let v = VirtAddr((1 << 39) | 0x5000);
    vs.map_page(
        &mut alloc,
        v,
        PhysAddr(0x8000_3000),
        MappingFlags(FLAG_U | FLAG_W | FLAG_X),
        MappingSize::Page4KB,
    );
    let (pa, fl) = vs.translate(v).unwrap();
    assert_eq!(pa, PhysAddr(0x8000_3000));
    assert_eq!(fl.bits(), FLAG_P | FLAG_R | FLAG_W | FLAG_U | FLAG_X);
    vs.unmap_page(v, MappingSize::Page4KB);
    assert_eq!(vs.translate(v), None);
}

#[test]
fn aarch64_space_keeps_global_and_user_bits() {
    let mut alloc = seeded(8);
    let mut vs: VSpace<aarch64::Arch> = VSpace::new(&mut alloc);
    let v = VirtAddr(0x7F_F000_1000);
    vs.map_page(
        &mut alloc,
        v,
        PhysAddr(0x8000_4000),
        MappingFlags(FLAG_R | FLAG_U | FLAG_G),
        MappingSize::Page4KB,
    );
    let (pa, fl) = vs.translate(v).unwrap();
    assert_eq!(pa, PhysAddr(0x8000_4000));
    assert_eq!(fl.bits(), FLAG_P | FLAG_R | FLAG_A | FLAG_U | FLAG_G);
}

#[test]
fn loongarch64_space_round_trips() {
    let mut alloc = seeded(8);
    let mut vs: VSpace<loongarch64::Arch> = VSpace::new(&mut alloc);
    let v = VirtAddr(0x2000_3000);
    vs.map_page(
        &mut alloc,
        v,
        PhysAddr(0x8000_5000),
        MappingFlags(FLAG_R | FLAG_W | FLAG_U),
        MappingSize::Page4KB,
    );
    let (pa, fl) = vs.translate(v).unwrap();
    assert_eq!(pa, PhysAddr(0x8000_5000));
    assert_eq!(fl.bits(), FLAG_P | FLAG_R | FLAG_W | FLAG_D | FLAG_U);
    vs.unmap_page(v, MappingSize::Page4KB);
    assert_eq!(vs.translate(v), None);
}
