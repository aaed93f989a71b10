use vstd::prelude::*;

verus! {

/// Offset between a physical address and the kernel-half virtual address
/// through which the same bytes are reachable (the direct map).  Fixed at
/// build time for the whole kernel image.
pub const KERNEL_OFFSET: u64 = 0xFFFF_FFC0_0000_0000;

/// Size in bytes of one translation page.
pub const PAGE_SIZE: u64 = 0x1000;

/// Exclusive upper bound on physical addresses the page tables can name:
/// every backend stores a 48-bit physical frame number inside its entries.
pub const PADDR_LIMIT: u64 = 0x1_0000_0000_0000;

} // verus!
