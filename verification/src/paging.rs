use vstd::prelude::*;

use crate::consts::PADDR_LIMIT;

verus! {

/// Size of the region one leaf entry maps.  Every backend here installs
/// base-size pages only; asking for a huge page is a caller error.
#[derive(Clone, Copy, Debug, PartialEq, Eq, Structural)]
pub enum MappingSize {
    /// Four KiB per page.
    Page4KB,
    /// Two MiB per page.
    Page2MB,
    /// One GiB per page.
    Page1GB,
}

/// Why a checked mapping request was refused.
#[derive(Clone, Copy, Debug, PartialEq, Eq, Structural)]
pub enum MapError {
    /// The requested page size is not implemented by the backend.
    UnsupportedSize,
    /// The physical frame is not page-aligned, is the null frame, or
    /// lies beyond what the entry format can name.
    InvalidFrame,
    /// The virtual address lies beyond the per-address-space ceiling.
    OutOfRange,
}

/// Whether `paddr` can hold a page-table node: page-aligned, not the
/// null page, and small enough for every backend's entry format.
pub open spec fn valid_table_page(paddr: u64) -> bool {
    &&& paddr % 0x1000 == 0
    &&& 0 < paddr < PADDR_LIMIT
}

/// Whether `paddr` can be the target of a leaf mapping: page-aligned,
/// not the null frame (which some entry formats cannot tell apart from
/// an empty slot), and small enough for every backend's entry format.
pub open spec fn valid_frame(paddr: u64) -> bool {
    &&& paddr % 0x1000 == 0
    &&& 0 < paddr < PADDR_LIMIT
}

/// The nine-bit table index that level `l` of the walk uses; level zero
/// indexes the leaf table.
pub open spec fn pt_index(vaddr: u64, l: int) -> u64
    recommends
        0 <= l < 4,
{
    (vaddr >> ((12 + 9 * l) as u64)) & 0x1ff
}

/// The intra-region byte offset of `vaddr` for a mapping made at level `l`.
pub open spec fn page_offset(vaddr: u64, l: int) -> u64
    recommends
        0 <= l < 4,
{
    vaddr % (1u64 << ((12 + 9 * l) as u64))
}

/// A table index is always one of the 512 slots.
pub proof fn lemma_pt_index_bound(vaddr: u64, l: int)
    ensures
        0 <= pt_index(vaddr, l) < 512,
{
    let s = (12 + 9 * l) as u64;
    assert((vaddr >> s) & 0x1ff < 512) by (bit_vector);
}

/// Whether `v1` and `v2` select the same slot at every level below `h`,
/// so that the two addresses resolve through the same entries.
pub open spec fn path_eq(v1: u64, v2: u64, h: int) -> bool {
    forall|l: int| 0 <= l < h ==> #[trigger] pt_index(v1, l) == pt_index(v2, l)
}

/// Sharing a path of height `h` is sharing the slot at level `h - 1` and
/// the path below it.
pub proof fn lemma_path_eq_unfold(v1: u64, v2: u64, h: int)
    requires
        h >= 1,
    ensures
        path_eq(v1, v2, h) <==> (path_eq(v1, v2, h - 1) && pt_index(v1, h - 1) == pt_index(
            v2,
            h - 1,
        )),
{
    if path_eq(v1, v2, h - 1) && pt_index(v1, h - 1) == pt_index(v2, h - 1) {
        assert forall|l: int| 0 <= l < h implies #[trigger] pt_index(v1, l) == pt_index(v2, l) by {
            if l < h - 1 {
                assert(pt_index(v1, l) == pt_index(v2, l));
            }
        }
    }
}

/// One hardware paging format.  A backend is stateless: every function is
/// a pure mapping over machine words, fixed by the architecture manual.
/// The engine in [`crate::vspace`] is written once against this interface.
pub trait PagingArch: Sized {
    /// Number of translation levels the format walks (three or four).
    spec fn spec_levels() -> int;

    /// Exclusive bound on the root-table slots that belong to one address
    /// space; slots at and above it are shared, kernel-half territory.
    spec fn spec_global_range() -> int;

    /// The raw word that marks a slot as pointing to the child table at
    /// `paddr`.
    spec fn spec_table_pte(paddr: u64) -> u64;

    /// The raw word for a leaf mapping of `paddr` with the generic flag
    /// bits `flags`.
    spec fn spec_leaf_pte(paddr: u64, flags: u64) -> u64;

    /// Whether the word is a valid (non-empty) entry.
    spec fn spec_is_valid(pte: u64) -> bool;

    /// Whether the word marks its slot as pointing to a child table.
    spec fn spec_is_table(pte: u64) -> bool;

    /// The physical address the word references, flag bits stripped.
    spec fn spec_paddr(pte: u64) -> u64;

    /// The generic flag bits the word decodes to.
    spec fn spec_flags(pte: u64) -> u64;

    /// What a round trip through [`Self::spec_leaf_pte`] and
    /// [`Self::spec_flags`] makes of the generic flags: the backend's
    /// documented lossy folding.
    spec fn spec_fold_flags(flags: u64) -> u64;

    /// Whether a leaf written with `flags` decodes as a live mapping.
    spec fn spec_leaf_live(flags: u64) -> bool;

    /// Number of translation levels.
    fn levels() -> (r: usize)
        ensures
            r as int == Self::spec_levels(),
            3 <= Self::spec_levels() <= 4,
    ;

    /// Exclusive bound on the per-address-space root-table slots.
    fn global_range() -> (r: usize)
        ensures
            r as int == Self::spec_global_range(),
            0 < Self::spec_global_range() <= 512,
    ;

    /// Encodes a pointer to the child table at `paddr`.
    fn table_pte(paddr: u64) -> (r: u64)
        requires
            valid_table_page(paddr),
        ensures
            r == Self::spec_table_pte(paddr),
    ;

    /// Encodes a leaf mapping of `paddr` with generic flags `flags`.
    fn leaf_pte(paddr: u64, flags: u64) -> (r: u64)
        requires
            valid_frame(paddr),
        ensures
            r == Self::spec_leaf_pte(paddr, flags),
    ;

    /// Whether the word is a valid (non-empty) entry.
    fn is_valid(pte: u64) -> (r: bool)
        ensures
            r == Self::spec_is_valid(pte),
    ;

    /// Whether the word marks its slot as pointing to a child table.
    fn is_table(pte: u64) -> (r: bool)
        ensures
            r == Self::spec_is_table(pte),
    ;

    /// The physical address the word references.
    fn pte_paddr(pte: u64) -> (r: u64)
        ensures
            r == Self::spec_paddr(pte),
    ;

    /// The generic flag bits the word decodes to.
    fn pte_flags(pte: u64) -> (r: u64)
        ensures
            r == Self::spec_flags(pte),
    ;

    /// The format's shape: three or four levels, and a nonempty
    /// per-address-space root range of at most the full table.
    proof fn lemma_arch()
        ensures
            3 <= Self::spec_levels() <= 4,
            0 < Self::spec_global_range() <= 512,
    ;

    /// The empty word is neither valid nor a table pointer.
    proof fn lemma_zero_pte()
        ensures
            !Self::spec_is_valid(0),
            !Self::spec_is_table(0),
    ;

    /// A table pointer is a valid table entry and names the child again.
    proof fn lemma_table_pte(paddr: u64)
        requires
            valid_table_page(paddr),
        ensures
            Self::spec_is_valid(Self::spec_table_pte(paddr)),
            Self::spec_is_table(Self::spec_table_pte(paddr)),
            Self::spec_paddr(Self::spec_table_pte(paddr)) == paddr,
    ;

    /// A leaf entry names its frame again and decodes to the folded flags;
    /// it reads as mapped exactly when the flags make a live leaf.
    proof fn lemma_leaf_pte(paddr: u64, flags: u64)
        requires
            valid_frame(paddr),
        ensures
            Self::spec_paddr(Self::spec_leaf_pte(paddr, flags)) == paddr,
            Self::spec_flags(Self::spec_leaf_pte(paddr, flags)) == Self::spec_fold_flags(flags),
            Self::spec_is_valid(Self::spec_leaf_pte(paddr, flags)) == Self::spec_leaf_live(flags),
    ;

    /// Whatever the word, the address it references is page-aligned (so
    /// in particular it leaves room for any intra-page offset).
    proof fn lemma_paddr_aligned()
        ensures
            forall|pte: u64|
                (#[trigger] Self::spec_paddr(pte)) % 0x1000 == 0 && Self::spec_paddr(pte)
                    <= 0xFFFF_FFFF_FFFF_F000u64,
    ;
}

} // verus!
