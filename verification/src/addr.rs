use vstd::prelude::*;

use crate::consts::KERNEL_OFFSET;

verus! {

/// A byte offset into physical memory.
#[derive(Clone, Copy, Debug, PartialEq, Eq, Structural)]
pub struct PhysAddr(pub u64);

/// A byte offset into the running virtual address space.
#[derive(Clone, Copy, Debug, PartialEq, Eq, Structural)]
pub struct VirtAddr(pub u64);

/// A page-granular physical address: the physical address shifted right
/// by twelve bits.
#[derive(Clone, Copy, Debug, PartialEq, Eq, Structural)]
pub struct PhysPage(pub u64);

/// A page-granular virtual address.
#[derive(Clone, Copy, Debug, PartialEq, Eq, Structural)]
pub struct VirtPage(pub u64);

/// What aligning `value` down to a multiple of `align` yields.
pub open spec fn spec_floor(value: u64, align: u64) -> int
    recommends
        align > 0,
{
    (value as int / align as int) * align as int
}

/// What aligning `value` up to a multiple of `align` yields.
pub open spec fn spec_ceil(value: u64, align: u64) -> int
    recommends
        align > 0,
{
    ((value + align - 1) / align as int) * align as int
}

proof fn lemma_floor_fits(value: u64, align: u64)
    requires
        align > 0,
    ensures
        0 <= spec_floor(value, align) <= value,
{
    assert(0 <= (value as int / align as int) * align as int <= value) by (nonlinear_arith)
        requires
            align > 0,
    ;
}

proof fn lemma_ceil_fits(value: u64, align: u64)
    requires
        align > 0,
        value + align <= u64::MAX,
    ensures
        0 <= spec_ceil(value, align) <= u64::MAX,
        spec_ceil(value, align) == spec_floor((value + align - 1) as u64, align),
{
    lemma_floor_fits((value + align - 1) as u64, align);
}

impl PhysAddr {
    /// Wraps a raw physical byte offset.
    pub fn new(value: u64) -> (r: Self)
        ensures
            r.0 == value,
    {
        PhysAddr(value)
    }

    /// The raw byte offset.
    pub fn raw(&self) -> (r: u64)
        ensures
            r == self.0,
    {
        self.0
    }

    /// Aligns the address down to a multiple of `align`.
    pub fn floor(&self, align: u64) -> (r: Self)
        requires
            align > 0,
        ensures
            r.0 == spec_floor(self.0, align),
            r.0 <= self.0,
    {
        proof {
            lemma_floor_fits(self.0, align);
        }
        PhysAddr(self.0 / align * align)
    }

    /// Aligns the address up to a multiple of `align`.
    pub fn ceil(&self, align: u64) -> (r: Self)
        requires
            align > 0,
            self.0 + align <= u64::MAX,
        ensures
            r.0 == spec_ceil(self.0, align),
    {
        proof {
            lemma_ceil_fits(self.0, align);
        }
        PhysAddr((self.0 + align - 1) / align * align)
    }

    /// The kernel-half virtual address through which this physical
    /// address is reachable: the direct-map projection used to touch
    /// page-table pages without recursive self-mapping.
    pub fn mapped_vaddr(&self) -> (r: VirtAddr)
        ensures
            r.0 == self.0 | KERNEL_OFFSET,
    {
        VirtAddr(self.0 | KERNEL_OFFSET)
    }
}

impl VirtAddr {
    /// Wraps a raw virtual byte offset.
    pub fn new(value: u64) -> (r: Self)
        ensures
            r.0 == value,
    {
        VirtAddr(value)
    }

    /// The raw byte offset.
    pub fn raw(&self) -> (r: u64)
        ensures
            r == self.0,
    {
        self.0
    }

    /// Aligns the address down to a multiple of `align`.
    pub fn floor(&self, align: u64) -> (r: Self)
        requires
            align > 0,
        ensures
            r.0 == spec_floor(self.0, align),
            r.0 <= self.0,
    {
        proof {
            lemma_floor_fits(self.0, align);
        }
        VirtAddr(self.0 / align * align)
    }

    /// Aligns the address up to a multiple of `align`.
    pub fn ceil(&self, align: u64) -> (r: Self)
        requires
            align > 0,
            self.0 + align <= u64::MAX,
        ensures
            r.0 == spec_ceil(self.0, align),
    {
        proof {
            lemma_ceil_fits(self.0, align);
        }
        VirtAddr((self.0 + align - 1) / align * align)
    }
}

impl PhysPage {
    /// Wraps a raw physical page number.
    pub fn new(value: u64) -> (r: Self)
        ensures
            r.0 == value,
    {
        PhysPage(value)
    }

    /// The raw page number.
    pub fn raw(&self) -> (r: u64)
        ensures
            r == self.0,
    {
        self.0
    }

    /// The byte address of the first byte of the page; page numbers at or
    /// above the fifty-third bit are truncated as the shift discards them.
    pub fn to_addr(&self) -> (r: u64)
        ensures
            r == self.0 << 12u64,
    {
        self.0 << 12u64
    }

    /// The page that contains the given byte address.
    pub fn from_addr(addr: u64) -> (r: Self)
        ensures
            r.0 == addr >> 12u64,
    {
        PhysPage(addr >> 12u64)
    }
}

impl VirtPage {
    /// Wraps a raw virtual page number.
    pub fn new(value: u64) -> (r: Self)
        ensures
            r.0 == value,
    {
        VirtPage(value)
    }

    /// The raw page number.
    pub fn raw(&self) -> (r: u64)
        ensures
            r == self.0,
    {
        self.0
    }

    /// The byte address of the first byte of the page; page numbers at or
    /// above the fifty-third bit are truncated as the shift discards them.
    pub fn to_addr(&self) -> (r: u64)
        ensures
            r == self.0 << 12u64,
    {
        self.0 << 12u64
    }

    /// The page that contains the given byte address.
    pub fn from_addr(addr: u64) -> (r: Self)
        ensures
            r.0 == addr >> 12u64,
    {
        VirtPage(addr >> 12u64)
    }
}

impl From<PhysPage> for PhysAddr {
    /// The byte address of the first byte of the page; page numbers at or
    /// above the forty-ninth bit are truncated as the shift discards them.
    fn from(value: PhysPage) -> (r: Self) {
        PhysAddr(value.0 << 12u64)
    }
}

impl vstd::std_specs::convert::FromSpecImpl<PhysPage> for PhysAddr {
    open spec fn obeys_from_spec() -> bool {
        true
    }

    open spec fn from_spec(value: PhysPage) -> Self {
        PhysAddr(value.0 << 12u64)
    }
}

impl From<PhysAddr> for PhysPage {
    /// The page that contains the byte address.
    fn from(value: PhysAddr) -> (r: Self) {
        PhysPage(value.0 >> 12u64)
    }
}

impl vstd::std_specs::convert::FromSpecImpl<PhysAddr> for PhysPage {
    open spec fn obeys_from_spec() -> bool {
        true
    }

    open spec fn from_spec(value: PhysAddr) -> Self {
        PhysPage(value.0 >> 12u64)
    }
}

impl From<VirtPage> for VirtAddr {
    /// The byte address of the first byte of the page; page numbers at or
    /// above the forty-ninth bit are truncated as the shift discards them.
    fn from(value: VirtPage) -> (r: Self) {
        VirtAddr(value.0 << 12u64)
    }
}

impl vstd::std_specs::convert::FromSpecImpl<VirtPage> for VirtAddr {
    open spec fn obeys_from_spec() -> bool {
        true
    }

    open spec fn from_spec(value: VirtPage) -> Self {
        VirtAddr(value.0 << 12u64)
    }
}

impl From<VirtAddr> for VirtPage {
    /// The page that contains the byte address.
    fn from(value: VirtAddr) -> (r: Self) {
        VirtPage(value.0 >> 12u64)
    }
}

impl vstd::std_specs::convert::FromSpecImpl<VirtAddr> for VirtPage {
    open spec fn obeys_from_spec() -> bool {
        true
    }

    open spec fn from_spec(value: VirtAddr) -> Self {
        VirtPage(value.0 >> 12u64)
    }
}

} // verus!
