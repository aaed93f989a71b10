use vstd::prelude::*;

verus! {

/// The page is present (mapped).
pub const FLAG_P: u64 = 0x1;

/// The page is reachable from user mode.
pub const FLAG_U: u64 = 0x2;

/// The page is readable.
pub const FLAG_R: u64 = 0x4;

/// The page is writeable.
pub const FLAG_W: u64 = 0x8;

/// The page is executable.
pub const FLAG_X: u64 = 0x10;

/// The page has been accessed.
pub const FLAG_A: u64 = 0x20;

/// The page has been written.
pub const FLAG_D: u64 = 0x40;

/// The mapping is global (kept across address-space switches).
pub const FLAG_G: u64 = 0x80;

/// The page maps device memory.
pub const FLAG_DEVICE: u64 = 0x100;

/// Accesses to the page go through the cache.
pub const FLAG_CACHE: u64 = 0x200;

/// Read, write and execute.
pub const FLAG_RWX: u64 = FLAG_R | FLAG_W | FLAG_X;

/// User, read and write.
pub const FLAG_URW: u64 = FLAG_U | FLAG_R | FLAG_W;

/// User, read and execute.
pub const FLAG_URX: u64 = FLAG_U | FLAG_R | FLAG_X;

/// User, read, write and execute.
pub const FLAG_URWX: u64 = FLAG_URW | FLAG_X;

/// Every defined flag bit.
pub const FLAG_ALL: u64 = 0x3ff;

/// Architecture-neutral permission and attribute bits for one mapping.
/// Bits outside [`FLAG_ALL`] carry no meaning and every backend ignores
/// them.
#[derive(Clone, Copy, Debug, PartialEq, Eq, Structural)]
pub struct MappingFlags(pub u64);

impl MappingFlags {
    /// No flag set.
    pub fn empty() -> (r: Self)
        ensures
            r.0 == 0,
    {
        MappingFlags(0)
    }

    /// The raw bit set.
    pub fn bits(&self) -> (r: u64)
        ensures
            r == self.0,
    {
        self.0
    }

    /// Whether every bit of `other` is set in `self`.
    pub fn contains(&self, other: Self) -> (r: bool)
        ensures
            r == (self.0 & other.0 == other.0),
    {
        self.0 & other.0 == other.0
    }

    /// Whether no bit is set.
    pub fn is_empty(&self) -> (r: bool)
        ensures
            r == (self.0 == 0),
    {
        self.0 == 0
    }

    /// The bits set in either operand.
    pub fn union(&self, other: Self) -> (r: Self)
        ensures
            r.0 == (self.0 | other.0),
    {
        MappingFlags(self.0 | other.0)
    }
}

} // verus!
