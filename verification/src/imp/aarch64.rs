use vstd::prelude::*;

use crate::addr::{PhysAddr, VirtAddr};
use crate::flags::{
    FLAG_A, FLAG_G, FLAG_P, FLAG_R, FLAG_U, FLAG_W, FLAG_X, MappingFlags,
};
use crate::paging::{
    MappingSize, PagingArch, page_offset, pt_index, valid_frame, valid_table_page,
};

verus! {

/// Native descriptor bit: the descriptor is valid.
pub const PTE_VALID: u64 = 0x1;

/// Native descriptor bit: table or base-size page, not a block.
pub const PTE_NON_BLOCK: u64 = 0x2;

/// Native descriptor field: memory-attribute index.
pub const PTE_ATTR_INDX: u64 = 0x1C;

/// Native descriptor bit: non-secure.
pub const PTE_NS: u64 = 0x20;

/// Native descriptor bit: reachable from exception level zero.
pub const PTE_AP_EL0: u64 = 0x40;

/// Native descriptor bit: read-only.
pub const PTE_AP_RO: u64 = 0x80;

/// Native descriptor bit: inner shareable.
pub const PTE_INNER: u64 = 0x100;

/// Native descriptor bit: shareable.
pub const PTE_SHAREABLE: u64 = 0x200;

/// Native descriptor bit: access flag.
pub const PTE_AF: u64 = 0x400;

/// Native descriptor bit: not global.
pub const PTE_NG: u64 = 0x800;

/// Native descriptor bit: privileged execute-never.
pub const PTE_PXN: u64 = 0x20_0000_0000_0000;

/// Native descriptor bit: execute-never.
pub const PTE_UXN: u64 = 0x40_0000_0000_0000;

/// The native leaf bits the generic flags translate to.  Permission
/// polarity is inverted on this format: absence of read-only means
/// writeable, absence of both execute-never bits means executable, and
/// the access flag is set eagerly so the first use does not fault.
pub open spec fn native_flags(flags: u64) -> u64 {
    PTE_VALID | PTE_NON_BLOCK | PTE_AF | (if flags & FLAG_W != 0 {
        0
    } else {
        PTE_AP_RO
    }) | (if flags & FLAG_X != 0 {
        0
    } else {
        PTE_UXN | PTE_PXN
    }) | (if flags & FLAG_U != 0 {
        PTE_AP_EL0
    } else {
        0
    }) | (if flags & FLAG_G != 0 {
        0
    } else {
        PTE_NG
    })
}

/// The raw word that points at the child table at `paddr`: valid and
/// non-block.
pub open spec fn table_word(paddr: u64) -> u64 {
    paddr | (PTE_VALID | PTE_NON_BLOCK)
}

/// The raw word for a leaf mapping of `paddr` with generic flags `flags`.
pub open spec fn leaf_word(paddr: u64, flags: u64) -> u64 {
    paddr | native_flags(flags)
}

/// Whether the word is a valid descriptor.
pub open spec fn word_valid(pte: u64) -> bool {
    pte & PTE_VALID != 0
}

/// Whether the word points at a child table: valid and non-block.
pub open spec fn word_table(pte: u64) -> bool {
    pte & (PTE_VALID | PTE_NON_BLOCK) == (PTE_VALID | PTE_NON_BLOCK)
}

/// The page-aligned physical address the word references.
pub open spec fn word_paddr(pte: u64) -> u64 {
    pte & 0x0000_FFFF_FFFF_F000
}

/// The generic flag bits the word decodes to.  A valid page is readable;
/// writeability and executability are the absence of the inverted bits.
pub open spec fn word_flags(pte: u64) -> u64 {
    if pte & PTE_VALID == 0 {
        0
    } else {
        FLAG_P | FLAG_R | (if pte & PTE_AP_RO != 0 {
            0
        } else {
            FLAG_W
        }) | (if pte & PTE_UXN == 0 || pte & PTE_PXN == 0 {
            FLAG_X
        } else {
            0
        }) | (if pte & PTE_AP_EL0 != 0 {
            FLAG_U
        } else {
            0
        }) | (if pte & PTE_AF != 0 {
            FLAG_A
        } else {
            0
        }) | (if pte & PTE_NG != 0 {
            0
        } else {
            FLAG_G
        })
    }
}

/// What a round trip through encode and decode makes of the generic
/// flags: present, read and accessed always appear; write, execute,
/// user and global survive; the other defined bits are dropped.
pub open spec fn fold_flags(flags: u64) -> u64 {
    FLAG_P | FLAG_R | FLAG_A | (if flags & FLAG_W != 0 {
        FLAG_W
    } else {
        0
    }) | (if flags & FLAG_X != 0 {
        FLAG_X
    } else {
        0
    }) | (if flags & FLAG_U != 0 {
        FLAG_U
    } else {
        0
    }) | (if flags & FLAG_G != 0 {
        FLAG_G
    } else {
        0
    })
}

/// One raw VMSAv8-64 stage-one descriptor.
#[derive(Clone, Copy, Debug, PartialEq, Eq, Structural)]
pub struct PTE(pub u64);

impl PTE {
    /// The generic flag bits this entry decodes to.
    pub fn flags(&self) -> (r: MappingFlags)
        ensures
            r.0 == word_flags(self.0),
    {
        let pte = self.0;
        let bits: u64 = if pte & PTE_VALID == 0 {
            0
        } else {
            FLAG_P | FLAG_R | (if pte & PTE_AP_RO != 0 {
                0
            } else {
                FLAG_W
            }) | (if pte & PTE_UXN == 0 || pte & PTE_PXN == 0 {
                FLAG_X
            } else {
                0
            }) | (if pte & PTE_AP_EL0 != 0 {
                FLAG_U
            } else {
                0
            }) | (if pte & PTE_AF != 0 {
                FLAG_A
            } else {
                0
            }) | (if pte & PTE_NG != 0 {
                0
            } else {
                FLAG_G
            })
        };
        MappingFlags(bits)
    }

    /// Whether this entry is valid.
    pub fn is_valid(&self) -> (r: bool)
        ensures
            r == word_valid(self.0),
    {
        self.0 & PTE_VALID != 0
    }

    /// Whether this entry points at a child table.
    pub fn is_table(&self) -> (r: bool)
        ensures
            r == word_table(self.0),
    {
        self.0 & (PTE_VALID | PTE_NON_BLOCK) == (PTE_VALID | PTE_NON_BLOCK)
    }

    /// Overwrites the raw word with a page number shifted to bit ten and
    /// the given native bits.
    pub fn set(&mut self, ppn: u64, flags: u64)
        ensures
            final(self).0 == (ppn << 10u64) | flags,
    {
        self.0 = (ppn << 10u64) | flags;
    }

    /// Encodes a pointer to the child table at `paddr`.
    pub fn new_table(paddr: PhysAddr) -> (r: Self)
        requires
            valid_table_page(paddr.0),
        ensures
            r.0 == table_word(paddr.0),
    {
        PTE(paddr.0 | (PTE_VALID | PTE_NON_BLOCK))
    }

    /// Encodes a leaf mapping of `paddr` with generic flags `flags`.
    pub fn new_page(paddr: PhysAddr, flags: MappingFlags, size: MappingSize) -> (r: Self)
        requires
            valid_frame(paddr.0),
            size == MappingSize::Page4KB,
        ensures
            r.0 == leaf_word(paddr.0, flags.0),
    {
        let f = flags.0;
        let bits: u64 = PTE_VALID | PTE_NON_BLOCK | PTE_AF | (if f & FLAG_W != 0 {
            0
        } else {
            PTE_AP_RO
        }) | (if f & FLAG_X != 0 {
            0
        } else {
            PTE_UXN | PTE_PXN
        }) | (if f & FLAG_U != 0 {
            PTE_AP_EL0
        } else {
            0
        }) | (if f & FLAG_G != 0 {
            0
        } else {
            PTE_NG
        });
        PTE(paddr.0 | bits)
    }

    /// The page-aligned physical address this entry references.
    pub fn paddr(&self) -> (r: PhysAddr)
        ensures
            r.0 == word_paddr(self.0),
    {
        PhysAddr(self.0 & 0x0000_FFFF_FFFF_F000)
    }
}

/// The three-level VMSAv8-64 format; the whole lower-half root table
/// belongs to the address space, as the kernel half lives behind the
/// other translation-root register.
pub struct Arch;

impl PagingArch for Arch {
    open spec fn spec_levels() -> int {
        3
    }

    open spec fn spec_global_range() -> int {
        0x200
    }

    open spec fn spec_table_pte(paddr: u64) -> u64 {
        table_word(paddr)
    }

    open spec fn spec_leaf_pte(paddr: u64, flags: u64) -> u64 {
        leaf_word(paddr, flags)
    }

    open spec fn spec_is_valid(pte: u64) -> bool {
        word_valid(pte)
    }

    open spec fn spec_is_table(pte: u64) -> bool {
        word_table(pte)
    }

    open spec fn spec_paddr(pte: u64) -> u64 {
        word_paddr(pte)
    }

    open spec fn spec_flags(pte: u64) -> u64 {
        word_flags(pte)
    }

    open spec fn spec_fold_flags(flags: u64) -> u64 {
        fold_flags(flags)
    }

    open spec fn spec_leaf_live(flags: u64) -> bool {
        true
    }

    fn levels() -> usize {
        3
    }

    fn global_range() -> usize {
        0x200
    }

    fn table_pte(paddr: u64) -> u64 {
        PTE::new_table(PhysAddr(paddr)).0
    }

    fn leaf_pte(paddr: u64, flags: u64) -> u64 {
        PTE::new_page(PhysAddr(paddr), MappingFlags(flags), MappingSize::Page4KB).0
    }

    fn is_valid(pte: u64) -> bool {
        PTE(pte).is_valid()
    }

    fn is_table(pte: u64) -> bool {
        PTE(pte).is_table()
    }

    fn pte_paddr(pte: u64) -> u64 {
        PTE(pte).paddr().0
    }

    fn pte_flags(pte: u64) -> u64 {
        PTE(pte).flags().0
    }

    proof fn lemma_arch() {
    }

    proof fn lemma_zero_pte() {
        assert(!word_valid(0) && !word_table(0)) by (bit_vector);
    }

    proof fn lemma_table_pte(paddr: u64) {
        assert(word_valid(table_word(paddr)) && word_table(table_word(paddr)) && word_paddr(
            table_word(paddr),
        ) == paddr) by (bit_vector)
            requires
                paddr % 0x1000 == 0 && 0 < paddr < 0x1_0000_0000_0000,
        ;
    }

    proof fn lemma_leaf_pte(paddr: u64, flags: u64) {
        assert(word_paddr(leaf_word(paddr, flags)) == paddr && word_flags(leaf_word(paddr, flags))
            == fold_flags(flags) && word_valid(leaf_word(paddr, flags))) by (bit_vector)
            requires
                paddr % 0x1000 == 0 && 0 < paddr < 0x1_0000_0000_0000,
        ;
    }

    proof fn lemma_paddr_aligned() {
        assert(forall|pte: u64|
            (#[trigger] word_paddr(pte)) % 0x1000 == 0 && word_paddr(pte)
                <= 0xFFFF_FFFF_FFFF_F000u64) by (bit_vector);
    }
}

/// The table index the walk uses at level `n` of the translation;
/// level zero indexes the leaf table.
pub fn pg_index(vaddr: VirtAddr, n: usize) -> (r: usize)
    requires
        n < 4,
    ensures
        r == pt_index(vaddr.0, n as int),
        r < 512,
{
    let raw = vaddr.0;
    let s: u64 = 12 + 9 * (n as u64);
    let masked = (raw >> s) & 0x1ff;
    proof {
        assert((raw >> s) & 0x1ff < 512) by (bit_vector);
    }
    masked as usize
}

/// The intra-region byte offset of `vaddr` for a mapping made at level `n`.
pub fn pg_offest(vaddr: VirtAddr, n: usize) -> (r: u64)
    requires
        n < 4,
    ensures
        r == page_offset(vaddr.0, n as int),
{
    let raw = vaddr.0;
    let s: u64 = 12 + 9 * (n as u64);
    proof {
        assert(1u64 << s != 0) by (bit_vector)
            requires
                s <= 39u64,
        ;
    }
    raw % (1u64 << s)
}

/// Round-trip law for this backend's flag folding: the present, user,
/// read, write and execute bits that go in come back out of a decode of
/// the encoded leaf.
pub proof fn lemma_flags_preserved(flags: u64)
    ensures
        fold_flags(flags) & (flags & 0x1f) == flags & 0x1f,
{
    assert(fold_flags(flags) & (flags & 0x1f) == flags & 0x1f) by (bit_vector);
}

} // verus!
