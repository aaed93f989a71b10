use polyhal2::addr::{PhysAddr, VirtAddr};
use polyhal2::flags::{FLAG_R, FLAG_W, MappingFlags};
use polyhal2::frame::FreeList;
use polyhal2::imp::{riscv64, x86_64};
use polyhal2::paging::MappingSize;
use polyhal2::vspace::VSpace;

fn seeded(pages: u64) -> FreeList {
    let mut alloc = FreeList::new();
    let mut i: u64 = 0;
    while i < pages {
        alloc.give(PhysAddr(0x10_0000 + i * 0x1000));
        i += 1;
    }
    alloc
}

#[test]
fn release_reclaims_every_interior_table() {
    let mut alloc = seeded(16);
    assert_eq!(alloc.free_count(), 16);
    let mut vs: VSpace<riscv64::Arch> = VSpace::new(&mut alloc);
    // the root page is out
    assert_eq!(alloc.free_count(), 15);
    // three mappings over two distinct top-level slots: the first two
    // share a middle and a leaf table, the third brings its own pair,
    // so four interior tables exist in all
    vs.map_page(
        &mut alloc,
        VirtAddr(0x0000_5000),
        PhysAddr(0x8000_1000),
        MappingFlags(FLAG_R | FLAG_W),
        MappingSize::Page4KB,
    );
    assert_eq!(alloc.free_count(), 13);
    vs.map_page(
        &mut alloc,
        VirtAddr(0x0000_6000),
        PhysAddr(0x8000_2000),
        MappingFlags(FLAG_R),
        MappingSize::Page4KB,
    );
    assert_eq!(alloc.free_count(), 13);
    vs.map_page(
        &mut alloc,
        VirtAddr(0x4000_5000),
        PhysAddr(0x8000_3000),
        MappingFlags(FLAG_R),
        MappingSize::Page4KB,
    );
    assert_eq!(alloc.free_count(), 11);
    vs.release(&mut alloc);
    // exactly the four interior tables came back; the root stays out
    assert_eq!(alloc.free_count(), 15);
    assert_eq!(vs.translate(VirtAddr(0x0000_5000)), None);
    assert_eq!(vs.translate(VirtAddr(0x0000_6000)), None);
    assert_eq!(vs.translate(VirtAddr(0x4000_5000)), None);
}

#[test]
fn released_space_can_be_rebuilt_from_the_same_allocator() {
    let mut alloc = seeded(6);
    let mut vs: VSpace<riscv64::Arch> = VSpace::new(&mut alloc);
    vs.map_page(
        &mut alloc,
        VirtAddr(0x0000_5000),
        PhysAddr(0x8000_1000),
        MappingFlags(FLAG_R),
        MappingSize::Page4KB,
    );
    vs.release(&mut alloc);
    // the same space maps again, reusing the reclaimed pages
    vs.map_page(
        &mut alloc,
        VirtAddr(0x4000_7000),
        PhysAddr(0x8000_2000),
        MappingFlags(FLAG_R),
        MappingSize::Page4KB,
    );
    assert_eq!(vs.translate(VirtAddr(0x4000_7000)).unwrap().0, PhysAddr(0x8000_2000));
    assert_eq!(vs.translate(VirtAddr(0x0000_5000)), None);
    // and a fresh space can be built from the same allocator too
    vs.release(&mut alloc);
    let mut vs2: VSpace<riscv64::Arch> = VSpace::new(&mut alloc);
    vs2.map_page(
        &mut alloc,
        VirtAddr(0x0000_9000),
        PhysAddr(0x8000_4000),
        MappingFlags(FLAG_R),
        MappingSize::Page4KB,
    );
    assert_eq!(vs2.translate(VirtAddr(0x0000_9000)).unwrap().0, PhysAddr(0x8000_4000));
}

#[test]
fn release_of_empty_space_frees_nothing() {
    let mut alloc = seeded(4);
    let mut vs: VSpace<riscv64::Arch> = VSpace::new(&mut alloc);
    assert_eq!(alloc.free_count(), 3);
    vs.release(&mut alloc);
    assert_eq!(alloc.free_count(), 3);
    assert_eq!(vs.root_paddr(), PhysAddr(0x10_0000 + 3 * 0x1000));
}

#[test]
fn release_reclaims_four_level_interior_tables() {
    let mut alloc = seeded(8);
    let mut vs: VSpace<x86_64::Arch> = VSpace::new(&mut alloc);
    assert_eq!(alloc.free_count(), 7);
    vs.map_page(
        &mut alloc,
        VirtAddr(0x5000),
        PhysAddr(0x8000_1000),
        MappingFlags(FLAG_R | FLAG_W),
        MappingSize::Page4KB,
    );
    // four levels make three interior tables below the root
    assert_eq!(alloc.free_count(), 4);
    vs.release(&mut alloc);
    assert_eq!(alloc.free_count(), 7);
    assert_eq!(vs.translate(VirtAddr(0x5000)), None);
}
