use vstd::prelude::*;

use crate::addr::{PhysAddr, VirtAddr};
use crate::flags::{
    FLAG_A, FLAG_ALL, FLAG_D, FLAG_P, FLAG_R, FLAG_U, FLAG_W, FLAG_X, MappingFlags,
};
use crate::paging::{
    MappingSize, PagingArch, page_offset, pt_index, valid_frame, valid_table_page,
};

verus! {

/// Native entry bit: the entry is valid.
pub const PTE_V: u64 = 0x1;

/// Native entry bit: readable.
pub const PTE_R: u64 = 0x2;

/// Native entry bit: writeable.
pub const PTE_W: u64 = 0x4;

/// Native entry bit: executable.
pub const PTE_X: u64 = 0x8;

/// Native entry bit: reachable from user mode.
pub const PTE_U: u64 = 0x10;

/// Native entry bit: global mapping.
pub const PTE_G: u64 = 0x20;

/// Native entry bit: accessed.
pub const PTE_A: u64 = 0x40;

/// Native entry bit: dirty.
pub const PTE_D: u64 = 0x80;

/// The native leaf bits that the generic flags translate to.  A leaf is
/// written valid only when some generic flag is set; requesting read or
/// write also sets the accessed or dirty bit, as the hardware would
/// otherwise fault on first use.
pub open spec fn native_flags(flags: u64) -> u64 {
    if flags & FLAG_ALL == 0 {
        0
    } else {
        PTE_V | (if flags & FLAG_R != 0 {
            PTE_R | PTE_A
        } else {
            0
        }) | (if flags & FLAG_W != 0 {
            PTE_W | PTE_D
        } else {
            0
        }) | (if flags & FLAG_X != 0 {
            PTE_X
        } else {
            0
        }) | (if flags & FLAG_U != 0 {
            PTE_U
        } else {
            0
        })
    }
}

/// The raw word that points at the child table at `paddr`: valid, with no
/// permission bit, and the frame number at bit ten.
pub open spec fn table_word(paddr: u64) -> u64 {
    (paddr >> 2) | PTE_V
}

/// The raw word for a leaf mapping of `paddr` with generic flags `flags`.
pub open spec fn leaf_word(paddr: u64, flags: u64) -> u64 {
    (paddr >> 2) | native_flags(flags)
}

/// Whether the word is a valid entry: the valid bit is set and the word
/// carries a frame number beyond the low flag byte.
pub open spec fn word_valid(pte: u64) -> bool {
    pte & PTE_V != 0 && pte > 0xff
}

/// Whether the word points at a child table: valid with no permission bit.
pub open spec fn word_table(pte: u64) -> bool {
    pte & PTE_V != 0 && pte & (PTE_R | PTE_W | PTE_X) == 0
}

/// The page-aligned physical address the word references.
pub open spec fn word_paddr(pte: u64) -> u64 {
    (pte << 2) & 0xFFFF_FFFF_FFFF_F000
}

/// The generic flag bits the word decodes to.
pub open spec fn word_flags(pte: u64) -> u64 {
    (if pte & PTE_V != 0 {
        FLAG_P
    } else {
        0
    }) | (if pte & PTE_R != 0 {
        FLAG_R
    } else {
        0
    }) | (if pte & PTE_W != 0 {
        FLAG_W
    } else {
        0
    }) | (if pte & PTE_X != 0 {
        FLAG_X
    } else {
        0
    }) | (if pte & PTE_U != 0 {
        FLAG_U
    } else {
        0
    }) | (if pte & PTE_A != 0 {
        FLAG_A
    } else {
        0
    }) | (if pte & PTE_D != 0 {
        FLAG_D
    } else {
        0
    })
}

/// What a round trip through encode and decode makes of the generic
/// flags: present appears whenever any flag was set, read adds accessed,
/// write adds dirty; the other defined bits are dropped.
pub open spec fn fold_flags(flags: u64) -> u64 {
    if flags & FLAG_ALL == 0 {
        0
    } else {
        FLAG_P | (if flags & FLAG_R != 0 {
            FLAG_R | FLAG_A
        } else {
            0
        }) | (if flags & FLAG_W != 0 {
            FLAG_W | FLAG_D
        } else {
            0
        }) | (if flags & FLAG_X != 0 {
            FLAG_X
        } else {
            0
        }) | (if flags & FLAG_U != 0 {
            FLAG_U
        } else {
            0
        })
    }
}

/// One raw Sv39 page-table entry.
#[derive(Clone, Copy, Debug, PartialEq, Eq, Structural)]
pub struct PTE(pub u64);

impl PTE {
    /// The generic flag bits this entry decodes to.
    pub fn flags(&self) -> (r: MappingFlags)
        ensures
            r.0 == word_flags(self.0),
    {
        let pte = self.0;
        let bits: u64 = (if pte & PTE_V != 0 {
            FLAG_P
        } else {
            0
        }) | (if pte & PTE_R != 0 {
            FLAG_R
        } else {
            0
        }) | (if pte & PTE_W != 0 {
            FLAG_W
        } else {
            0
        }) | (if pte & PTE_X != 0 {
            FLAG_X
        } else {
            0
        }) | (if pte & PTE_U != 0 {
            FLAG_U
        } else {
            0
        }) | (if pte & PTE_A != 0 {
            FLAG_A
        } else {
            0
        }) | (if pte & PTE_D != 0 {
            FLAG_D
        } else {
            0
        });
        MappingFlags(bits)
    }

    /// Whether this entry is valid.
    pub fn is_valid(&self) -> (r: bool)
        ensures
            r == word_valid(self.0),
    {
        self.0 & PTE_V != 0 && self.0 > 0xff
    }

    /// Whether this entry points at a child table.
    pub fn is_table(&self) -> (r: bool)
        ensures
            r == word_table(self.0),
    {
        self.0 & PTE_V != 0 && self.0 & (PTE_R | PTE_W | PTE_X) == 0
    }

    /// Encodes a pointer to the child table at `paddr`.
    pub fn new_table(paddr: PhysAddr) -> (r: Self)
        requires
            valid_table_page(paddr.0),
        ensures
            r.0 == table_word(paddr.0),
    {
        PTE((paddr.0 >> 2u64) | PTE_V)
    }

    /// Encodes a leaf mapping of `paddr` with generic flags `flags`.
    pub fn new_page(paddr: PhysAddr, flags: MappingFlags, size: MappingSize) -> (r: Self)
        requires
            valid_frame(paddr.0),
            size == MappingSize::Page4KB,
        ensures
            r.0 == leaf_word(paddr.0, flags.0),
    {
        let f = flags.0;
        let bits: u64 = if f & FLAG_ALL == 0 {
            0
        } else {
            PTE_V | (if f & FLAG_R != 0 {
                PTE_R | PTE_A
            } else {
                0
            }) | (if f & FLAG_W != 0 {
                PTE_W | PTE_D
            } else {
                0
            }) | (if f & FLAG_X != 0 {
                PTE_X
            } else {
                0
            }) | (if f & FLAG_U != 0 {
                PTE_U
            } else {
                0
            })
        };
        PTE((paddr.0 >> 2u64) | bits)
    }

    /// The page-aligned physical address this entry references.
    pub fn paddr(&self) -> (r: PhysAddr)
        ensures
            r.0 == word_paddr(self.0),
    {
        PhysAddr((self.0 << 2u64) & 0xFFFF_FFFF_FFFF_F000)
    }
}

/// The Sv39 paging format: three levels, with the lower half of the root
/// table private to the address space.
pub struct Arch;

impl PagingArch for Arch {
    open spec fn spec_levels() -> int {
        3
    }

    open spec fn spec_global_range() -> int {
        0x100
    }

    open spec fn spec_table_pte(paddr: u64) -> u64 {
        table_word(paddr)
    }

    open spec fn spec_leaf_pte(paddr: u64, flags: u64) -> u64 {
        leaf_word(paddr, flags)
    }

    open spec fn spec_is_valid(pte: u64) -> bool {
        word_valid(pte)
    }

    open spec fn spec_is_table(pte: u64) -> bool {
        word_table(pte)
    }

    open spec fn spec_paddr(pte: u64) -> u64 {
        word_paddr(pte)
    }

    open spec fn spec_flags(pte: u64) -> u64 {
        word_flags(pte)
    }

    open spec fn spec_fold_flags(flags: u64) -> u64 {
        fold_flags(flags)
    }

    open spec fn spec_leaf_live(flags: u64) -> bool {
        flags & FLAG_ALL != 0
    }

    fn levels() -> usize {
        3
    }

    fn global_range() -> usize {
        0x100
    }

    fn table_pte(paddr: u64) -> u64 {
        PTE::new_table(PhysAddr(paddr)).0
    }

    fn leaf_pte(paddr: u64, flags: u64) -> u64 {
        PTE::new_page(PhysAddr(paddr), MappingFlags(flags), MappingSize::Page4KB).0
    }

    fn is_valid(pte: u64) -> bool {
        PTE(pte).is_valid()
    }

    fn is_table(pte: u64) -> bool {
        PTE(pte).is_table()
    }

    fn pte_paddr(pte: u64) -> u64 {
        PTE(pte).paddr().0
    }

    fn pte_flags(pte: u64) -> u64 {
        PTE(pte).flags().0
    }

    proof fn lemma_arch() {
    }

    proof fn lemma_zero_pte() {
        assert(!word_valid(0) && !word_table(0)) by (bit_vector);
    }

    proof fn lemma_table_pte(paddr: u64) {
        assert(word_valid(table_word(paddr)) && word_table(table_word(paddr)) && word_paddr(
            table_word(paddr),
        ) == paddr) by (bit_vector)
            requires
                paddr % 0x1000 == 0 && 0 < paddr < 0x1_0000_0000_0000,
        ;
    }

    proof fn lemma_leaf_pte(paddr: u64, flags: u64) {
        assert(word_paddr(leaf_word(paddr, flags)) == paddr && word_flags(leaf_word(paddr, flags))
            == fold_flags(flags) && word_valid(leaf_word(paddr, flags)) == (flags & FLAG_ALL != 0))
            by (bit_vector)
            requires
                paddr % 0x1000 == 0 && 0 < paddr < 0x1_0000_0000_0000,
        ;
    }

    proof fn lemma_paddr_aligned() {
        assert(forall|pte: u64|
            (#[trigger] word_paddr(pte)) % 0x1000 == 0 && word_paddr(pte)
                <= 0xFFFF_FFFF_FFFF_F000u64) by (bit_vector);
    }
}

/// The table index the walk uses at level `n` of the translation;
/// level zero indexes the leaf table.
pub fn pg_index(vaddr: VirtAddr, n: usize) -> (r: usize)
    requires
        n < 4,
    ensures
        r == pt_index(vaddr.0, n as int),
        r < 512,
{
    let raw = vaddr.0;
    let s: u64 = 12 + 9 * (n as u64);
    let masked = (raw >> s) & 0x1ff;
    proof {
        assert((raw >> s) & 0x1ff < 512) by (bit_vector);
    }
    masked as usize
}

/// The intra-region byte offset of `vaddr` for a mapping made at level `n`.
pub fn pg_offest(vaddr: VirtAddr, n: usize) -> (r: u64)
    requires
        n < 4,
    ensures
        r == page_offset(vaddr.0, n as int),
{
    let raw = vaddr.0;
    let s: u64 = 12 + 9 * (n as u64);
    proof {
        assert(1u64 << s != 0) by (bit_vector)
            requires
                s <= 39u64,
        ;
    }
    raw % (1u64 << s)
}

/// Round-trip law for this backend's flag folding: the present, user,
/// read, write and execute bits that go in come back out of a decode of
/// the encoded leaf.
pub proof fn lemma_flags_preserved(flags: u64)
    ensures
        fold_flags(flags) & (flags & 0x1f) == flags & 0x1f,
{
    assert(fold_flags(flags) & (flags & 0x1f) == flags & 0x1f) by (bit_vector);
}

} // verus!
