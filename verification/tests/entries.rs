use polyhal2::addr::{PhysAddr, VirtAddr};
use polyhal2::flags::{
    FLAG_A, FLAG_D, FLAG_G, FLAG_P, FLAG_R, FLAG_U, FLAG_W, FLAG_X, MappingFlags,
};
use polyhal2::imp::{aarch64, loongarch64, riscv64, x86_64};
use polyhal2::paging::MappingSize;

#[test]
fn flags_basics() {
    let rw = MappingFlags(FLAG_R | FLAG_W);
    assert!(rw.contains(MappingFlags(FLAG_R)));
    assert!(!rw.contains(MappingFlags(FLAG_X)));
    assert!(MappingFlags::empty().is_empty());
    assert_eq!(rw.union(MappingFlags(FLAG_X)).bits(), FLAG_R | FLAG_W | FLAG_X);
}

#[test]
fn riscv64_table_entry_encoding() {
    let t = riscv64::PTE::new_table(PhysAddr(0x1000));
    assert_eq!(t.0, 0x401);
    assert!(t.is_valid());
    assert!(t.is_table());
    assert_eq!(t.paddr(), PhysAddr(0x1000));
}

#[test]
fn riscv64_leaf_entry_encoding() {
    let l = riscv64::PTE::new_page(
        PhysAddr(0x1000),
        MappingFlags(FLAG_R | FLAG_W),
        MappingSize::Page4KB,
    );
    assert_eq!(l.0, 0x4C7);
    assert!(l.is_valid());
    assert!(!l.is_table());
    assert_eq!(l.paddr(), PhysAddr(0x1000));
    assert_eq!(l.flags().bits(), FLAG_P | FLAG_R | FLAG_A | FLAG_W | FLAG_D);
}

#[test]
fn riscv64_empty_flags_make_invalid_leaf() {
    let l = riscv64::PTE::new_page(PhysAddr(0x1000), MappingFlags::empty(), MappingSize::Page4KB);
    assert_eq!(l.0, 0x400);
    assert!(!l.is_valid());
}

#[test]
fn x86_64_table_entry_encoding() {
    let t = x86_64::PTE::new_table(PhysAddr(0x2000));
    assert_eq!(t.0, 0x2007);
    assert!(t.is_valid());
    assert!(t.is_table());
    assert_eq!(t.paddr(), PhysAddr(0x2000));
}

#[test]
fn x86_64_leaf_entry_encoding() {
    let exec = x86_64::PTE::new_page(
        PhysAddr(0x3000),
        MappingFlags(FLAG_W | FLAG_X),
        MappingSize::Page4KB,
    );
    assert_eq!(exec.0, 0x3003);
    assert_eq!(exec.flags().bits(), FLAG_P | FLAG_R | FLAG_W | FLAG_X);
    let noexec = x86_64::PTE::new_page(
        PhysAddr(0x3000),
        MappingFlags(FLAG_W),
        MappingSize::Page4KB,
    );
    assert_eq!(noexec.0, 0x8000_0000_0000_3003);
    assert_eq!(noexec.flags().bits(), FLAG_P | FLAG_R | FLAG_W);
    assert_eq!(noexec.paddr(), PhysAddr(0x3000));
}

#[test]
fn aarch64_table_entry_encoding() {
    let t = aarch64::PTE::new_table(PhysAddr(0x2000));
    assert_eq!(t.0, 0x2003);
    assert!(t.is_valid());
    assert!(t.is_table());
    assert_eq!(t.paddr(), PhysAddr(0x2000));
}

#[test]
fn aarch64_leaf_entry_encoding() {
    let l = aarch64::PTE::new_page(
        PhysAddr(0x3000),
        MappingFlags(FLAG_R | FLAG_W),
        MappingSize::Page4KB,
    );
    // valid | non-block | access flag | not-global, both execute-never bits
    assert_eq!(l.0, 0x60_0000_0000_3C03);
    assert_eq!(l.flags().bits(), FLAG_P | FLAG_R | FLAG_A | FLAG_W);
    assert_eq!(l.paddr(), PhysAddr(0x3000));
    let g = aarch64::PTE::new_page(
        PhysAddr(0x3000),
        MappingFlags(FLAG_R | FLAG_W | FLAG_X | FLAG_G),
        MappingSize::Page4KB,
    );
    assert_eq!(g.0, 0x3403);
    assert_eq!(g.flags().bits(), FLAG_P | FLAG_R | FLAG_A | FLAG_W | FLAG_X | FLAG_G);
}

#[test]
fn aarch64_set_overwrites_raw_word() {
    let mut e = aarch64::PTE(0);
    e.set(0x88, 0x3);
    assert_eq!(e.0, (0x88 << 10) | 0x3);
}

#[test]
fn loongarch64_table_entry_encoding() {
    let t = loongarch64::PTE::new_table(PhysAddr(0x4000));
    assert_eq!(t.0, 0x4000);
    assert!(t.is_valid());
    assert!(t.is_table());
    assert_eq!(t.paddr(), PhysAddr(0x4000));
}

#[test]
fn loongarch64_leaf_entry_encoding() {
    let l = loongarch64::PTE::new_page(
        PhysAddr(0x5000),
        MappingFlags(FLAG_R | FLAG_W | FLAG_U),
        MappingSize::Page4KB,
    );
    assert_eq!(l.0, 0x510F);
    assert_eq!(l.flags().bits(), FLAG_P | FLAG_R | FLAG_W | FLAG_D | FLAG_U);
    assert_eq!(l.paddr(), PhysAddr(0x5000));
}

#[test]
fn zero_entry_is_nothing() {
    assert!(!riscv64::PTE(0).is_valid());
    assert!(!riscv64::PTE(0).is_table());
    assert!(!x86_64::PTE(0).is_valid());
    assert!(!aarch64::PTE(0).is_valid());
    assert!(!loongarch64::PTE(0).is_valid());
}

#[test]
fn page_indices_select_nine_bit_slots() {
    let v = VirtAddr(0x8000_1000);
    assert_eq!(riscv64::pg_index(v, 0), 1);
    assert_eq!(riscv64::pg_index(v, 1), 0);
    assert_eq!(riscv64::pg_index(v, 2), 2);
    assert_eq!(x86_64::pg_index(VirtAddr(1 << 39), 3), 1);
    assert_eq!(aarch64::pg_index(v, 2), 2);
    assert_eq!(loongarch64::pg_index(v, 2), 2);
}

#[test]
fn page_offsets_follow_mapping_level() {
    let v = VirtAddr(0x8000_1234);
    assert_eq!(riscv64::pg_offest(v, 0), 0x234);
    assert_eq!(riscv64::pg_offest(v, 1), 0x1234);
    assert_eq!(x86_64::pg_offest(v, 0), 0x234);
    assert_eq!(aarch64::pg_offest(v, 2), 0x1234);
    assert_eq!(loongarch64::pg_offest(v, 0), 0x234);
}
