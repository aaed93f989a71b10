use vstd::prelude::*;

use core::marker::PhantomData;

use crate::addr::{PhysAddr, VirtAddr};
use crate::flags::MappingFlags;
use crate::frame::VSpaceAO;
use crate::paging::{
    MapError, MappingSize, PagingArch, lemma_path_eq_unfold, lemma_pt_index_bound, path_eq, pt_index,
    valid_frame, valid_table_page,
};

verus! {

/// One page-table node: the physical page it lives in, its 512 raw entry
/// words, and the owned child node for every slot whose word points at a
/// child table.
struct TableNode {
    paddr: u64,
    entries: Vec<u64>,
    children: Vec<Option<TableNode>>,
}

/// The physical pages of the subtree hanging off one optional child.
spec fn opt_pages(child: Option<TableNode>, hc: nat) -> Set<u64> {
    match child {
        Some(c) => subtree_pages(c, hc),
        None => Set::empty(),
    }
}

/// The physical pages of the subtrees hanging off the first `n` slots.
spec fn children_pages(s: Seq<Option<TableNode>>, hc: nat, n: nat) -> Set<u64>
    decreases hc, n + 1,
{
    if n == 0 {
        Set::empty()
    } else {
        children_pages(s, hc, (n - 1) as nat) + match s[n - 1] {
            Some(c) => subtree_pages(c, hc),
            None => Set::<u64>::empty(),
        }
    }
}

/// Every physical page the node's subtree occupies, its own included.
spec fn subtree_pages(node: TableNode, h: nat) -> Set<u64>
    decreases h, 0nat,
{
    set![node.paddr] + if h <= 1 {
        Set::<u64>::empty()
    } else {
        children_pages(node.children@, (h - 1) as nat, 512)
    }
}

/// Well-formedness of one slot of a node at height `h`: an occupied slot
/// holds the word that points at its child, an empty one holds zero.
spec fn slot_wf<A: PagingArch>(pte: u64, child: Option<TableNode>, h: nat) -> bool
    decreases h, 0nat,
{
    if h < 2 {
        child is None && pte == 0
    } else {
        match child {
            Some(c) => pte == A::spec_table_pte(c.paddr) && node_wf::<A>(c, (h - 1) as nat),
            None => pte == 0,
        }
    }
}

/// Well-formedness of a node at height `h` (the leaf tables have height
/// one): full-width tables on a valid page, children only below the top
/// of the tree, and every slot coherent with its child.
spec fn node_wf<A: PagingArch>(node: TableNode, h: nat) -> bool
    decreases h, 1nat,
{
    &&& node.entries@.len() == 512
    &&& node.children@.len() == 512
    &&& valid_table_page(node.paddr)
    &&& h >= 1
    &&& if h == 1 {
        forall|i: int| 0 <= i < 512 ==> (#[trigger] node.children@[i]) is None
    } else {
        forall|i: int|
            0 <= i < 512 ==> slot_wf::<A>(node.entries@[i], #[trigger] node.children@[i], h)
    }
}

/// Disjointness of one slot's subtree, recursively.
spec fn slot_disj(child: Option<TableNode>, h: nat) -> bool
    decreases h, 0nat,
{
    if h < 2 {
        true
    } else {
        match child {
            Some(c) => node_disj(c, (h - 1) as nat),
            None => true,
        }
    }
}

/// No physical page appears twice in the tree: the node's own page is in
/// no child subtree, distinct child subtrees share no page, and the same
/// holds inside every child.
spec fn node_disj(node: TableNode, h: nat) -> bool
    decreases h, 1nat,
{
    h > 1 ==> {
        &&& forall|i: int|
            0 <= i < 512 ==> !opt_pages(#[trigger] node.children@[i], (h - 1) as nat).contains(
                node.paddr,
            )
        &&& forall|i: int, j: int|
            0 <= i < 512 && 0 <= j < 512 && i != j ==> opt_pages(
                #[trigger] node.children@[i],
                (h - 1) as nat,
            ).disjoint(opt_pages(#[trigger] node.children@[j], (h - 1) as nat))
        &&& forall|i: int| 0 <= i < 512 ==> slot_disj(#[trigger] node.children@[i], h)
    }
}

/// What the walk of height `h` resolves `vaddr` to: the leaf entry's
/// referenced address and decoded flags, or nothing if the path runs into
/// an empty slot or an invalid leaf.
spec fn node_lookup<A: PagingArch>(node: TableNode, h: nat, vaddr: u64) -> Option<(u64, u64)>
    decreases h,
{
    let i = pt_index(vaddr, h - 1) as int;
    if h <= 1 {
        let pte = node.entries@[i];
        if A::spec_is_valid(pte) {
            Some((A::spec_paddr(pte), A::spec_flags(pte)))
        } else {
            None
        }
    } else {
        match node.children@[i] {
            Some(c) => node_lookup::<A>(c, (h - 1) as nat, vaddr),
            None => None,
        }
    }
}

/// With no child in any slot, the children own no page.
proof fn lemma_children_none_pages(s: Seq<Option<TableNode>>, hc: nat)
    requires
        forall|i: int| 0 <= i < 512 ==> (#[trigger] s[i]) is None,
    ensures
        children_pages(s, hc, 512) =~= Set::<u64>::empty(),
{
    lemma_children_pages_elem(s, hc, 512);
    assert forall|x: u64| !children_pages(s, hc, 512).contains(x) by {
        if children_pages(s, hc, 512).contains(x) {
            let j = choose|j: int| 0 <= j < 512 && opt_pages(#[trigger] s[j], hc).contains(x);
            assert(s[j] is None);
        }
    }
}

/// Membership in the union over the first `n` slots is membership in
/// some slot's subtree.
proof fn lemma_children_pages_elem(s: Seq<Option<TableNode>>, hc: nat, n: nat)
    ensures
        forall|x: u64|
            #[trigger] children_pages(s, hc, n).contains(x) <==> exists|j: int|
                0 <= j < n && opt_pages(#[trigger] s[j], hc).contains(x),
    decreases n,
{
    if n > 0 {
        lemma_children_pages_elem(s, hc, (n - 1) as nat);
        assert forall|x: u64| #[trigger] children_pages(s, hc, n).contains(x) implies exists|j: int|
            0 <= j < n && opt_pages(#[trigger] s[j], hc).contains(x) by {
            if children_pages(s, hc, (n - 1) as nat).contains(x) {
            } else {
                assert(opt_pages(s[n - 1], hc).contains(x));
            }
        }
        assert forall|x: u64|
            exists|j: int| 0 <= j < n && opt_pages(#[trigger] s[j], hc).contains(x) implies #[trigger] children_pages(
            s,
            hc,
            n,
        ).contains(x) by {
            let j = choose|j: int| 0 <= j < n && opt_pages(#[trigger] s[j], hc).contains(x);
            if j < n - 1 {
                assert(children_pages(s, hc, (n - 1) as nat).contains(x));
            } else {
                assert(opt_pages(s[n - 1], hc).contains(x));
            }
        }
    }
}

/// An empty node: zeroed entries, no children.
fn new_node(paddr: u64) -> (r: TableNode)
    ensures
        r.paddr == paddr,
        r.entries@.len() == 512,
        r.children@.len() == 512,
        forall|i: int| 0 <= i < 512 ==> r.entries@[i] == 0,
        forall|i: int| 0 <= i < 512 ==> (#[trigger] r.children@[i]) is None,
{
    let entries: Vec<u64> = vec![0u64; 512];
    let mut children: Vec<Option<TableNode>> = Vec::new();
    while children.len() < 512
        invariant
            children@.len() <= 512,
            forall|i: int| 0 <= i < children@.len() ==> (#[trigger] children@[i]) is None,
        decreases 512 - children.len(),
    {
        children.push(None);
    }
    TableNode { paddr, entries, children }
}

/// A fresh empty node is well-formed at any height, owns only its own
/// page, and resolves nothing.
proof fn lemma_new_node_wf<A: PagingArch>(node: TableNode, h: nat)
    requires
        node.entries@.len() == 512,
        node.children@.len() == 512,
        valid_table_page(node.paddr),
        h >= 1,
        forall|i: int| 0 <= i < 512 ==> node.entries@[i] == 0,
        forall|i: int| 0 <= i < 512 ==> (#[trigger] node.children@[i]) is None,
    ensures
        node_wf::<A>(node, h),
        node_disj(node, h),
        subtree_pages(node, h) == set![node.paddr],
        forall|v: u64| node_lookup::<A>(node, h, v) is None,
{
    A::lemma_zero_pte();
    if h > 1 {
        lemma_children_none_pages(node.children@, (h - 1) as nat);
    }
    assert(subtree_pages(node, h) =~= set![node.paddr]);
    assert forall|v: u64| node_lookup::<A>(node, h, v) is None by {
        let i = pt_index(v, h - 1) as int;
        lemma_pt_index_bound(v, h - 1);
        if h == 1 {
            assert(node.entries@[i] == 0);
        } else {
            assert(node.children@[i] is None);
        }
    }
}

/// The nine-bit table index for level `l`, as the walk computes it.
fn level_index(vaddr: u64, l: usize) -> (r: usize)
    requires
        l < 4,
    ensures
        r == pt_index(vaddr, l as int),
        r < 512,
{
    let s: u64 = 12 + 9 * (l as u64);
    let masked = (vaddr >> s) & 0x1ff;
    proof {
        assert((vaddr >> s) & 0x1ff < 512) by (bit_vector);
    }
    masked as usize
}

/// A complete virtual address space: one owned tree of page-table nodes,
/// rooted at the physical page `root_paddr` reports.
pub struct VSpace<A: PagingArch> {
    root: TableNode,
    arch: PhantomData<A>,
}

impl<A: PagingArch> VSpace<A> {
    /// The structural invariant of the space: a well-formed tree of full
    /// tables whose pages are pairwise distinct, with the shared root
    /// slots (at and above the backend's global range) untouched.
    pub closed spec fn wf(self) -> bool {
        &&& node_wf::<A>(self.root, A::spec_levels() as nat)
        &&& node_disj(self.root, A::spec_levels() as nat)
        &&& forall|i: int|
            A::spec_global_range() <= i < 512 ==> self.root.entries@[i] == 0 && (
            #[trigger] self.root.children@[i]) is None
    }

    /// What the space resolves `vaddr` to: the mapped frame and the
    /// decoded generic flags, or nothing.
    pub closed spec fn lookup(self, vaddr: u64) -> Option<(u64, u64)> {
        node_lookup::<A>(self.root, A::spec_levels() as nat, vaddr)
    }

    /// Every physical page the space occupies, the root page included.
    pub closed spec fn pages(self) -> Set<u64> {
        subtree_pages(self.root, A::spec_levels() as nat)
    }

    /// The physical page of the root table.
    pub closed spec fn spec_root(self) -> u64 {
        self.root.paddr
    }

    /// Builds an empty address space on a root page drawn from `alloc`.
    pub fn new<AO: VSpaceAO>(alloc: &mut AO) -> (r: Self)
        requires
            old(alloc).wf(),
            old(alloc).free_set().len() > 0,
        ensures
            r.wf(),
            final(alloc).wf(),
            valid_table_page(r.spec_root()),
            old(alloc).free_set().contains(r.spec_root()),
            final(alloc).free_set() == old(alloc).free_set().remove(r.spec_root()),
            r.pages() == set![r.spec_root()],
            forall|v: u64| r.lookup(v) is None,
    {
        let pa = alloc.alloc_page();
        let root = new_node(pa.0);
        proof {
            A::lemma_arch();
            lemma_new_node_wf::<A>(root, A::spec_levels() as nat);
        }
        VSpace { root, arch: PhantomData }
    }

    /// The physical page of the root table, for the embedding kernel to
    /// install in the translation-root register and to free in the end.
    pub fn root_paddr(&self) -> (r: PhysAddr)
        ensures
            r.0 == self.spec_root(),
    {
        PhysAddr(self.root.paddr)
    }

    /// Maps the base-size page at `paddr` under the virtual address
    /// `vaddr`, overwriting whatever leaf the address held before — the
    /// intended way to remap or change permissions.  Intermediate tables
    /// are created as needed from `alloc`; the address must lie inside
    /// the per-address-space range and the frame must be mappable, as
    /// violating either is a fatal caller error.  The caller owes the
    /// hardware a TLB invalidation of `vaddr` afterwards.
    pub fn map_page<AO: VSpaceAO>(
        &mut self,
        alloc: &mut AO,
        vaddr: VirtAddr,
        paddr: PhysAddr,
        flags: MappingFlags,
        size: MappingSize,
    )
        requires
            old(self).wf(),
            old(alloc).wf(),
            old(self).pages().disjoint(old(alloc).free_set()),
            old(alloc).free_set().len() >= A::spec_levels() - 1,
            valid_frame(paddr.0),
            size == MappingSize::Page4KB,
            pt_index(vaddr.0, A::spec_levels() - 1) < A::spec_global_range(),
        ensures
            final(self).wf(),
            final(alloc).wf(),
            final(self).spec_root() == old(self).spec_root(),
            final(alloc).free_set().subset_of(old(alloc).free_set()),
            final(self).pages() == old(self).pages() + (old(alloc).free_set()
                - final(alloc).free_set()),
            final(self).pages().disjoint(final(alloc).free_set()),
            forall|v2: u64|
                path_eq(vaddr.0, v2, A::spec_levels()) ==> #[trigger] final(self).lookup(v2) == (
                if A::spec_leaf_live(flags.0) {
                    Some((paddr.0, A::spec_fold_flags(flags.0)))
                } else {
                    None::<(u64, u64)>
                }),
            forall|v2: u64|
                !path_eq(vaddr.0, v2, A::spec_levels()) ==> #[trigger] final(self).lookup(v2)
                    == old(self).lookup(v2),
            final(self).lookup(vaddr.0) == (if A::spec_leaf_live(flags.0) {
                Some((paddr.0, A::spec_fold_flags(flags.0)))
            } else {
                None::<(u64, u64)>
            }),
    {
        let leaf = A::leaf_pte(paddr.0, flags.0);
        let levels = A::levels();
        proof {
            A::lemma_leaf_pte(paddr.0, flags.0);
        }
        map_rec::<A, AO>(&mut self.root, levels, alloc, vaddr.0, leaf);
        proof {
            assert forall|j: int|
                A::spec_global_range() <= j < 512 implies self.root.entries@[j] == 0 && (
            #[trigger] self.root.children@[j]) is None by {
                assert(self.root.entries@[j] == old(self).root.entries@[j]);
                assert(self.root.children@[j] == old(self).root.children@[j]);
            }
            assert(path_eq(vaddr.0, vaddr.0, A::spec_levels()));
        }
    }

    /// Like [`Self::map_page`], but checks the request first and refuses
    /// a bad one instead of treating it as a fatal caller error: an
    /// unsupported page size, an unusable frame, or a virtual address
    /// beyond the per-address-space ceiling leaves the space untouched.
    pub fn try_map_page<AO: VSpaceAO>(
        &mut self,
        alloc: &mut AO,
        vaddr: VirtAddr,
        paddr: PhysAddr,
        flags: MappingFlags,
        size: MappingSize,
    ) -> (r: Result<(), MapError>)
        requires
            old(self).wf(),
            old(alloc).wf(),
            old(self).pages().disjoint(old(alloc).free_set()),
            old(alloc).free_set().len() >= A::spec_levels() - 1,
        ensures
            final(self).wf(),
            final(alloc).wf(),
            final(self).spec_root() == old(self).spec_root(),
            r == (if size != MappingSize::Page4KB {
                Err::<(), MapError>(MapError::UnsupportedSize)
            } else if !valid_frame(paddr.0) {
                Err::<(), MapError>(MapError::InvalidFrame)
            } else if pt_index(vaddr.0, A::spec_levels() - 1) >= A::spec_global_range() {
                Err::<(), MapError>(MapError::OutOfRange)
            } else {
                Ok::<(), MapError>(())
            }),
            r is Err ==> *final(self) == *old(self) && *final(alloc) == *old(alloc),
            r is Ok ==> final(alloc).free_set().subset_of(old(alloc).free_set()),
            r is Ok ==> final(self).pages() == old(self).pages() + (old(alloc).free_set()
                - final(alloc).free_set()),
            r is Ok ==> final(self).pages().disjoint(final(alloc).free_set()),
            r is Ok ==> forall|v2: u64|
                path_eq(vaddr.0, v2, A::spec_levels()) ==> #[trigger] final(self).lookup(v2) == (
                if A::spec_leaf_live(flags.0) {
                    Some((paddr.0, A::spec_fold_flags(flags.0)))
                } else {
                    None::<(u64, u64)>
                }),
            r is Ok ==> forall|v2: u64|
                !path_eq(vaddr.0, v2, A::spec_levels()) ==> #[trigger] final(self).lookup(v2)
                    == old(self).lookup(v2),
    {
        if size != MappingSize::Page4KB {
            return Err(MapError::UnsupportedSize);
        }
        if paddr.0 % 0x1000 != 0 || paddr.0 == 0 || paddr.0 >= crate::consts::PADDR_LIMIT {
            return Err(MapError::InvalidFrame);
        }
        let levels = A::levels();
        let top = level_index(vaddr.0, levels - 1);
        if top >= A::global_range() {
            return Err(MapError::OutOfRange);
        }
        self.map_page(alloc, vaddr, paddr, flags, size);
        Ok(())
    }

    /// Removes whatever base-size mapping `vaddr` holds.  The walk never
    /// allocates and never reclaims intermediate tables; an address with
    /// no mapping, or with no complete table path, is left as it is —
    /// not an error.  The caller owes the hardware a TLB invalidation
    /// of `vaddr` afterwards.
    pub fn unmap_page(&mut self, vaddr: VirtAddr, _size: MappingSize)
        requires
            old(self).wf(),
        ensures
            final(self).wf(),
            final(self).spec_root() == old(self).spec_root(),
            final(self).pages() == old(self).pages(),
            forall|v2: u64|
                path_eq(vaddr.0, v2, A::spec_levels()) ==> #[trigger] final(self).lookup(
                    v2,
                ) is None,
            forall|v2: u64|
                !path_eq(vaddr.0, v2, A::spec_levels()) ==> #[trigger] final(self).lookup(v2)
                    == old(self).lookup(v2),
            final(self).lookup(vaddr.0) is None,
    {
        let levels = A::levels();
        unmap_rec::<A>(&mut self.root, levels, vaddr.0);
        proof {
            A::lemma_zero_pte();
            lemma_pt_index_bound(vaddr.0, A::spec_levels() - 1);
            let i = pt_index(vaddr.0, A::spec_levels() - 1) as int;
            if A::spec_global_range() <= i {
                assert(old(self).root.entries@[i] == 0);
                assert(!A::spec_is_table(old(self).root.entries@[i]));
            }
            assert forall|j: int|
                A::spec_global_range() <= j < 512 implies self.root.entries@[j] == 0 && (
            #[trigger] self.root.children@[j]) is None by {
                if j != i {
                    assert(self.root.entries@[j] == old(self).root.entries@[j]);
                    assert(self.root.children@[j] == old(self).root.children@[j]);
                }
            }
            assert(path_eq(vaddr.0, vaddr.0, A::spec_levels()));
        }
    }

    /// Tears down every mapping and every intermediate table of the
    /// per-address-space root slots, handing each interior table page
    /// back to `alloc` exactly once — grandchildren before children.
    /// The root page itself stays with the space; its owner frees it.
    pub fn release<AO: VSpaceAO>(&mut self, alloc: &mut AO)
        requires
            old(self).wf(),
            old(alloc).wf(),
            old(self).pages().disjoint(old(alloc).free_set()),
        ensures
            final(self).wf(),
            final(alloc).wf(),
            final(self).spec_root() == old(self).spec_root(),
            final(self).pages() == set![old(self).spec_root()],
            final(alloc).free_set() == old(alloc).free_set() + (old(self).pages() - set![old(
                self,
            ).spec_root()]),
            final(self).pages().disjoint(final(alloc).free_set()),
            forall|v2: u64| #[trigger] final(self).lookup(v2) is None,
    {
        let range = A::global_range();
        let levels = A::levels();
        let ghost a0 = alloc.free_set();
        let ghost r0 = self.root;
        let ghost h = A::spec_levels() as nat;
        let ghost hc = (h - 1) as nat;
        let ghost s0 = self.root.children@;
        proof {
            assert(subtree_pages(r0, h).contains(r0.paddr));
            assert forall|j: int| 0 <= j < 512 implies opt_pages(#[trigger] s0[j], hc).disjoint(
                alloc.free_set(),
            ) by {
                lemma_slot_pages_subset(r0, h, j);
                assert forall|x: u64|
                    opt_pages(s0[j], hc).contains(x) implies !alloc.free_set().contains(x) by {
                    assert(subtree_pages(r0, h).contains(x));
                }
            }
        }
        let mut k: usize = 0;
        while k < range
            invariant
                node_wf::<A>(r0, h),
                node_disj(r0, h),
                3 <= A::spec_levels() <= 4,
                h == A::spec_levels() as nat,
                hc == h - 1,
                levels == A::spec_levels(),
                range == A::spec_global_range(),
                0 < range <= 512,
                s0 == r0.children@,
                subtree_pages(r0, h).disjoint(a0),
                k <= range,
                self.root.paddr == r0.paddr,
                self.root.entries@.len() == 512,
                self.root.children@.len() == 512,
                forall|j: int| 0 <= j < k ==> (#[trigger] self.root.entries@[j]) == 0,
                forall|j: int| 0 <= j < k ==> (#[trigger] self.root.children@[j]) is None,
                forall|j: int|
                    k <= j < 512 ==> (#[trigger] self.root.entries@[j]) == r0.entries@[j],
                forall|j: int|
                    k <= j < 512 ==> (#[trigger] self.root.children@[j]) == r0.children@[j],
                alloc.wf(),
                alloc.free_set() == a0 + children_pages(s0, hc, k as nat),
                forall|j: int|
                    k <= j < 512 ==> opt_pages(#[trigger] s0[j], hc).disjoint(alloc.free_set()),
                !alloc.free_set().contains(r0.paddr),
            decreases range - k,
        {
            let ghost pre = self.root.children@;
            let ghost pre_e = self.root.entries@;
            let taken = self.root.children.remove(k);
            self.root.children.insert(k, None);
            self.root.entries[k] = 0;
            let ghost a_pre = alloc.free_set();
            proof {
                lemma_remove_insert(pre, k as int, None);
                assert(self.root.children@ =~= pre.update(k as int, None));
                assert(self.root.entries@ =~= pre_e.update(k as int, 0u64));
                assert(self.root.paddr == r0.paddr);
            }
            match taken {
                Some(c) => {
                    proof {
                        assert(s0[k as int] == Some(c));
                        assert(slot_wf::<A>(r0.entries@[k as int], s0[k as int], h));
                        assert(slot_disj(s0[k as int], h));
                        assert(opt_pages(s0[k as int], hc).disjoint(a_pre));
                        assert(subtree_pages(c, hc).disjoint(a_pre));
                    }
                    release_node::<A, AO>(c, levels - 1, alloc);
                    proof {
                        assert(children_pages(s0, hc, (k + 1) as nat) == children_pages(
                            s0,
                            hc,
                            k as nat,
                        ) + subtree_pages(c, hc));
                        assert(alloc.free_set() =~= a0 + children_pages(s0, hc, (k + 1) as nat));
                        assert forall|j: int| k + 1 <= j < 512 implies opt_pages(
                            #[trigger] s0[j],
                            hc,
                        ).disjoint(alloc.free_set()) by {
                            assert(opt_pages(s0[j], hc).disjoint(opt_pages(s0[k as int], hc)));
                            assert forall|x: u64|
                                opt_pages(s0[j], hc).contains(x) implies !alloc.free_set().contains(
                                x,
                            ) by {
                                assert(!a_pre.contains(x));
                                assert(!subtree_pages(c, hc).contains(x));
                            }
                        }
                        assert(!opt_pages(s0[k as int], hc).contains(r0.paddr));
                        assert(!alloc.free_set().contains(r0.paddr));
                    }
                },
                None => {
                    proof {
                        assert(s0[k as int] is None);
                        assert(children_pages(s0, hc, (k + 1) as nat) =~= children_pages(
                            s0,
                            hc,
                            k as nat,
                        ));
                    }
                },
            }
            k += 1;
        }
        proof {
            assert forall|j: int| 0 <= j < 512 implies (#[trigger] self.root.entries@[j]) == 0 by {
                if range <= j {
                    assert(r0.children@[j] is None);
                    assert(r0.entries@[j] == 0);
                    assert(self.root.entries@[j] == r0.entries@[j]);
                }
            }
            assert forall|j: int|
                0 <= j < 512 implies (#[trigger] self.root.children@[j]) is None by {
                if range <= j {
                    assert(self.root.children@[j] == r0.children@[j]);
                }
            }
            lemma_new_node_wf::<A>(self.root, h);
            assert forall|j: int| range <= j < 512 implies (#[trigger] s0[j]) is None by {
                assert(r0.children@[j] is None);
            }
            lemma_children_pages_prefix(s0, hc, range as nat, 512);
            lemma_children_pages_no_paddr(r0, h);
            assert(subtree_pages(r0, h).contains(r0.paddr));
            assert(children_pages(s0, hc, 512) =~= subtree_pages(r0, h) - set![r0.paddr]);
            assert(alloc.free_set() == a0 + children_pages(s0, hc, range as nat));
            assert(alloc.free_set() =~= a0 + (subtree_pages(r0, h) - set![r0.paddr]));
        }
    }

    /// Translates a virtual address: the mapped physical address plus the
    /// intra-page offset, with the mapping's decoded flags, or `None` if
    /// the path to `vaddr` is incomplete.  The walk is read-only.
    pub fn translate(&self, vaddr: VirtAddr) -> (r: Option<(PhysAddr, MappingFlags)>)
        requires
            self.wf(),
        ensures
            r == with_offset(self.lookup(vaddr.0), vaddr.0),
    {
        let levels = A::levels();
        match translate_rec::<A>(&self.root, levels, vaddr.0) {
            Some((pa, fl)) => {
                let off = vaddr.0 & 0xfff;
                proof {
                    let v = vaddr.0;
                    assert(v & 0xfff == v % 0x1000 && v & 0xfff < 0x1000) by (bit_vector);
                }
                Some((PhysAddr(pa + off), MappingFlags(fl)))
            },
            None => None,
        }
    }
}

/// Round-trip mapping: a space whose walk resolves a page-aligned
/// `vaddr` to the frame `paddr` with the folded flags — as `map_page`
/// leaves it for any live flag set — answers a translation of `vaddr`
/// with exactly that frame and those flags.  Which of the requested
/// bits the folding keeps is each backend's own preservation law.
pub proof fn lemma_translate_after_map<A: PagingArch>(
    s: VSpace<A>,
    vaddr: u64,
    paddr: u64,
    flags: u64,
)
    requires
        vaddr % 0x1000 == 0,
        A::spec_leaf_live(flags),
        s.lookup(vaddr) == Some((paddr, A::spec_fold_flags(flags))),
    ensures
        with_offset(s.lookup(vaddr), vaddr) == Some(
            (PhysAddr(paddr), MappingFlags(A::spec_fold_flags(flags))),
        ),
{
}

/// Unmapping removes the mapping: a space whose walk resolves nothing
/// along `vaddr`'s path — as `unmap_page` leaves it — answers a
/// translation of `vaddr`, or of any address of the same page, with
/// nothing.
pub proof fn lemma_translate_after_unmap<A: PagingArch>(s: VSpace<A>, vaddr: u64, v2: u64)
    requires
        path_eq(vaddr, v2, A::spec_levels()),
        forall|v: u64| path_eq(vaddr, v, A::spec_levels()) ==> #[trigger] s.lookup(v) is None,
    ensures
        with_offset(s.lookup(v2), v2) is None,
{
}

/// Isolation: a mapping pass for `v1` — which, per `map_page`'s
/// contract, changes only the addresses sharing `v1`'s whole slot path —
/// leaves the translation of every other address exactly as it was.
pub proof fn lemma_map_isolation<A: PagingArch>(s0: VSpace<A>, s1: VSpace<A>, v1: u64, v2: u64)
    requires
        !path_eq(v1, v2, A::spec_levels()),
        forall|v: u64| !path_eq(v1, v, A::spec_levels()) ==> #[trigger] s1.lookup(v) == s0.lookup(v),
    ensures
        s1.lookup(v2) == s0.lookup(v2),
        with_offset(s1.lookup(v2), v2) == with_offset(s0.lookup(v2), v2),
{
}

/// The translation result with the intra-page offset of `vaddr` added.
pub open spec fn with_offset(res: Option<(u64, u64)>, vaddr: u64) -> Option<
    (PhysAddr, MappingFlags),
> {
    match res {
        Some((pa, fl)) => Some((PhysAddr((pa + vaddr % 0x1000) as u64), MappingFlags(fl))),
        None => None,
    }
}

/// A slot's subtree pages are among the node's pages.
proof fn lemma_slot_pages_subset(node: TableNode, h: nat, j: int)
    requires
        h > 1,
        0 <= j < 512,
    ensures
        opt_pages(node.children@[j], (h - 1) as nat).subset_of(subtree_pages(node, h)),
{
    lemma_children_pages_elem(node.children@, (h - 1) as nat, 512);
    assert forall|x: u64|
        opt_pages(node.children@[j], (h - 1) as nat).contains(x) implies subtree_pages(
        node,
        h,
    ).contains(x) by {
        assert(opt_pages(node.children@[j], (h - 1) as nat).contains(x));
        assert(children_pages(node.children@, (h - 1) as nat, 512).contains(x));
    }
}

/// Replacing the subtree in one slot adds that slot's new pages and
/// keeps every other slot's pages.
proof fn lemma_children_pages_update(
    s: Seq<Option<TableNode>>,
    s2: Seq<Option<TableNode>>,
    hc: nat,
    i: int,
    d: Set<u64>,
)
    requires
        s.len() == 512,
        s2.len() == 512,
        0 <= i < 512,
        forall|j: int| 0 <= j < 512 && j != i ==> s2[j] == s[j],
        opt_pages(s2[i], hc) == opt_pages(s[i], hc) + d,
    ensures
        children_pages(s2, hc, 512) == children_pages(s, hc, 512) + d,
{
    lemma_children_pages_elem(s, hc, 512);
    lemma_children_pages_elem(s2, hc, 512);
    assert forall|x: u64| children_pages(s2, hc, 512).contains(x) implies (children_pages(
        s,
        hc,
        512,
    ) + d).contains(x) by {
        let j = choose|j: int| 0 <= j < 512 && opt_pages(#[trigger] s2[j], hc).contains(x);
        if j != i {
            assert(opt_pages(s[j], hc).contains(x));
        } else {
            assert((opt_pages(s[i], hc) + d).contains(x));
            if opt_pages(s[i], hc).contains(x) {
                assert(opt_pages(s[i], hc).contains(x));
            }
        }
    }
    assert forall|x: u64| (children_pages(s, hc, 512) + d).contains(x) implies children_pages(
        s2,
        hc,
        512,
    ).contains(x) by {
        if d.contains(x) {
            assert(opt_pages(s2[i], hc).contains(x));
        } else {
            let j = choose|j: int| 0 <= j < 512 && opt_pages(#[trigger] s[j], hc).contains(x);
            if j != i {
                assert(opt_pages(s2[j], hc).contains(x));
            } else {
                assert(opt_pages(s2[i], hc).contains(x));
            }
        }
    }
    assert(children_pages(s2, hc, 512) =~= children_pages(s, hc, 512) + d);
}

/// Taking a slot's content out and putting a value back in its place is
/// an update of that slot.
proof fn lemma_remove_insert(s: Seq<Option<TableNode>>, i: int, x: Option<TableNode>)
    requires
        0 <= i < s.len(),
    ensures
        s.remove(i).insert(i, x) =~= s.update(i, x),
{
}

/// The mapping walk: descends `h` levels below `node` along `vaddr`'s
/// slots, growing a fresh table wherever the path hits an empty slot,
/// and overwrites the leaf slot with `leaf`.
fn map_rec<A: PagingArch, AO: VSpaceAO>(
    node: &mut TableNode,
    h: usize,
    alloc: &mut AO,
    vaddr: u64,
    leaf: u64,
)
    requires
        node_wf::<A>(*old(node), h as nat),
        node_disj(*old(node), h as nat),
        1 <= h <= 4,
        old(alloc).wf(),
        old(alloc).free_set().len() >= h - 1,
        subtree_pages(*old(node), h as nat).disjoint(old(alloc).free_set()),
    ensures
        node_wf::<A>(*final(node), h as nat),
        node_disj(*final(node), h as nat),
        final(node).paddr == old(node).paddr,
        final(alloc).wf(),
        final(alloc).free_set().subset_of(old(alloc).free_set()),
        final(alloc).free_set().len() >= old(alloc).free_set().len() - (h - 1),
        subtree_pages(*final(node), h as nat) == subtree_pages(*old(node), h as nat) + (old(
            alloc,
        ).free_set() - final(alloc).free_set()),
        subtree_pages(*final(node), h as nat).disjoint(final(alloc).free_set()),
        forall|j: int|
            0 <= j < 512 && j != pt_index(vaddr, h - 1) ==> (#[trigger] final(node).entries@[j])
                == old(node).entries@[j] && (#[trigger] final(node).children@[j]) == old(
                node,
            ).children@[j],
        forall|v2: u64|
            path_eq(vaddr, v2, h as int) ==> #[trigger] node_lookup::<A>(
                *final(node),
                h as nat,
                v2,
            ) == (if A::spec_is_valid(leaf) {
                Some((A::spec_paddr(leaf), A::spec_flags(leaf)))
            } else {
                None::<(u64, u64)>
            }),
        forall|v2: u64|
            !path_eq(vaddr, v2, h as int) ==> #[trigger] node_lookup::<A>(
                *final(node),
                h as nat,
                v2,
            ) == node_lookup::<A>(*old(node), h as nat, v2),
    decreases h,
{
    let ghost n0 = *node;
    let ghost a0 = alloc.free_set();
    proof {
        alloc.lemma_wf();
    }
    let i = level_index(vaddr, h - 1);
    if h == 1 {
        node.entries[i] = leaf;
        proof {
            assert(subtree_pages(*node, 1) =~= subtree_pages(n0, 1) + (a0 - alloc.free_set()));
            assert forall|v2: u64| path_eq(vaddr, v2, 1) implies #[trigger] node_lookup::<A>(
                *node,
                1nat,
                v2,
            ) == (if A::spec_is_valid(leaf) {
                Some((A::spec_paddr(leaf), A::spec_flags(leaf)))
            } else {
                None::<(u64, u64)>
            }) by {
                assert(pt_index(v2, 0) == pt_index(vaddr, 0));
            }
            assert forall|v2: u64| !path_eq(vaddr, v2, 1) implies #[trigger] node_lookup::<A>(
                *node,
                1nat,
                v2,
            ) == node_lookup::<A>(n0, 1nat, v2) by {
                if pt_index(v2, 0) == pt_index(vaddr, 0) {
                    assert forall|l: int| 0 <= l < 1 implies #[trigger] pt_index(vaddr, l)
                        == pt_index(v2, l) by {
                        assert(l == 0);
                    }
                }
                lemma_pt_index_bound(v2, 0);
            }
        }
    } else {
        let pte = node.entries[i];
        if !A::is_valid(pte) {
            proof {
                match node.children@[i as int] {
                    Some(c) => {
                        assert(node_wf::<A>(c, (h - 1) as nat));
                        A::lemma_table_pte(c.paddr);
                        assert(false);
                    },
                    None => {},
                }
            }
            let pa = alloc.alloc_page();
            let t = A::table_pte(pa.0);
            node.entries[i] = t;
            let child = new_node(pa.0);
            proof {
                lemma_new_node_wf::<A>(child, (h - 1) as nat);
            }
            let taken = node.children.remove(i);
            node.children.insert(i, Some(child));
            proof {
                lemma_remove_insert(n0.children@, i as int, Some(child));
                assert(node.children@ =~= n0.children@.update(i as int, Some(child)));
                assert(subtree_pages(child, (h - 1) as nat) =~= opt_pages(
                    n0.children@[i as int],
                    (h - 1) as nat,
                ) + set![pa.0]);
                lemma_children_pages_update(
                    n0.children@,
                    node.children@,
                    (h - 1) as nat,
                    i as int,
                    set![pa.0],
                );
                assert(subtree_pages(*node, h as nat) =~= subtree_pages(n0, h as nat)
                    + set![pa.0]);
                // the fresh page is no page of the tree
                assert(subtree_pages(n0, h as nat).contains(n0.paddr));
                assert(!subtree_pages(n0, h as nat).contains(pa.0));
                assert forall|j: int| 0 <= j < 512 && j != i implies !opt_pages(
                    #[trigger] node.children@[j],
                    (h - 1) as nat,
                ).contains(pa.0) by {
                    lemma_slot_pages_subset(n0, h as nat, j);
                }
                // well-formedness after installing the empty child
                assert forall|j: int| 0 <= j < 512 implies slot_wf::<A>(
                    node.entries@[j],
                    #[trigger] node.children@[j],
                    h as nat,
                ) by {
                    if j != i {
                        assert(slot_wf::<A>(n0.entries@[j], n0.children@[j], h as nat));
                    }
                }
                assert(node_wf::<A>(*node, h as nat));
                // disjointness after installing the empty child
                assert forall|j: int, k: int|
                    0 <= j < 512 && 0 <= k < 512 && j != k implies opt_pages(
                    #[trigger] node.children@[j],
                    (h - 1) as nat,
                ).disjoint(opt_pages(#[trigger] node.children@[k], (h - 1) as nat)) by {
                    if j != i && k != i {
                        assert(opt_pages(n0.children@[j], (h - 1) as nat).disjoint(
                            opt_pages(n0.children@[k], (h - 1) as nat),
                        ));
                    }
                }
                assert(node_disj(*node, h as nat));
                // no lookup changed yet
                assert forall|v2: u64|
                    #[trigger] node_lookup::<A>(*node, h as nat, v2) == node_lookup::<A>(
                    n0,
                    h as nat,
                    v2,
                ) by {
                    lemma_pt_index_bound(v2, h - 1);
                    let i2 = pt_index(v2, h as nat - 1) as int;
                    if i2 == i {
                        assert(node_lookup::<A>(*node, h as nat, v2) == node_lookup::<A>(
                            child,
                            (h - 1) as nat,
                            v2,
                        ));
                    }
                }
            }
        } else {
            proof {
                A::lemma_zero_pte();
                match node.children@[i as int] {
                    Some(c) => {},
                    None => {
                        assert(node.entries@[i as int] == 0);
                        assert(false);
                    },
                }
            }
        }
        let ghost n1 = *node;
        let ghost a1 = alloc.free_set();
        proof {
            assert(node_wf::<A>(n1, h as nat));
            assert(node_disj(n1, h as nat));
            assert(n1.paddr == n0.paddr);
            assert(n1.children@[i as int] is Some);
            assert(subtree_pages(n1, h as nat) == subtree_pages(n0, h as nat) + (a0 - a1));
            assert(subtree_pages(n1, h as nat).disjoint(a1));
            assert(a1.subset_of(a0));
            assert(a1.len() >= a0.len() - 1 >= h - 2);
            assert(forall|v2: u64|
                #[trigger] node_lookup::<A>(n1, h as nat, v2) == node_lookup::<A>(
                    n0,
                    h as nat,
                    v2,
                ));
            alloc.lemma_wf();
        }
        let taken = node.children.remove(i);
        let mut child = match taken {
            Some(c) => c,
            None => {
                proof {
                    assert(false);
                }
                TableNode { paddr: 0, entries: Vec::new(), children: Vec::new() }
            },
        };
        proof {
            assert(slot_wf::<A>(n1.entries@[i as int], n1.children@[i as int], h as nat));
            lemma_slot_pages_subset(n1, h as nat, i as int);
            assert(subtree_pages(child, (h - 1) as nat).disjoint(a1));
        }
        map_rec::<A, AO>(&mut child, h - 1, alloc, vaddr, leaf);
        let ghost a2 = alloc.free_set();
        let ghost child1 = child;
        node.children.insert(i, Some(child));
        proof {
            let hc = (h - 1) as nat;
            let ghost d = a1 - a2;
            lemma_remove_insert(n1.children@, i as int, Some(child1));
            assert(node.children@ =~= n1.children@.update(i as int, Some(child1)));
            let c0 = n1.children@[i as int]->Some_0;
            assert(subtree_pages(child1, hc) == subtree_pages(c0, hc) + d);
            assert(opt_pages(node.children@[i as int], hc) == opt_pages(n1.children@[i as int], hc)
                + d);
            lemma_children_pages_update(n1.children@, node.children@, hc, i as int, d);
            assert(subtree_pages(*node, h as nat) =~= subtree_pages(n1, h as nat) + d);
            assert(subtree_pages(*node, h as nat) =~= subtree_pages(n0, h as nat) + ((a0 - a1) + (
            a1 - a2)));
            assert((a0 - a1) + (a1 - a2) =~= a0 - a2);
            assert(subtree_pages(*node, h as nat) == subtree_pages(n0, h as nat) + (a0 - a2));
            // well-formedness
            assert forall|j: int| 0 <= j < 512 implies slot_wf::<A>(
                node.entries@[j],
                #[trigger] node.children@[j],
                h as nat,
            ) by {
                assert(slot_wf::<A>(n1.entries@[j], n1.children@[j], h as nat));
            }
            assert(node_wf::<A>(*node, h as nat));
            // disjointness: the descent only added pages taken from the
            // free set, which no other slot's subtree can hold
            assert forall|j: int| 0 <= j < 512 && j != i implies opt_pages(
                #[trigger] node.children@[j],
                hc,
            ).disjoint(subtree_pages(child1, hc)) by {
                lemma_slot_pages_subset(n1, h as nat, j);
                assert(opt_pages(n1.children@[j], hc).disjoint(opt_pages(n1.children@[i as int], hc)));
                assert forall|x: u64| opt_pages(node.children@[j], hc).contains(x) implies
                    !subtree_pages(child1, hc).contains(x) by {
                    assert(!d.contains(x));
                    assert(!subtree_pages(c0, hc).contains(x));
                }
            }
            assert forall|j: int, k: int|
                0 <= j < 512 && 0 <= k < 512 && j != k implies opt_pages(
                #[trigger] node.children@[j],
                hc,
            ).disjoint(opt_pages(#[trigger] node.children@[k], hc)) by {
                if j != i && k != i {
                    assert(opt_pages(n1.children@[j], hc).disjoint(opt_pages(n1.children@[k], hc)));
                }
            }
            assert(!subtree_pages(child1, hc).contains(node.paddr));
            assert(node_disj(*node, h as nat));
            // the free set only shrank, and stays apart from the tree
            assert(subtree_pages(*node, h as nat).disjoint(a2));
            // lookups
            assert forall|v2: u64| path_eq(vaddr, v2, h as int) implies #[trigger] node_lookup::<A>(
                *node,
                h as nat,
                v2,
            ) == (if A::spec_is_valid(leaf) {
                Some((A::spec_paddr(leaf), A::spec_flags(leaf)))
            } else {
                None::<(u64, u64)>
            }) by {
                lemma_path_eq_unfold(vaddr, v2, h as int);
                assert(pt_index(v2, h as int - 1) == pt_index(vaddr, h as int - 1));
                assert(node_lookup::<A>(*node, h as nat, v2) == node_lookup::<A>(child1, hc, v2));
            }
            assert forall|v2: u64| !path_eq(vaddr, v2, h as int) implies #[trigger] node_lookup::<
                A,
            >(*node, h as nat, v2) == node_lookup::<A>(n0, h as nat, v2) by {
                lemma_path_eq_unfold(vaddr, v2, h as int);
                lemma_pt_index_bound(v2, h - 1);
                let i2 = pt_index(v2, h as nat - 1) as int;
                if i2 == i {
                    assert(!path_eq(vaddr, v2, h as int - 1));
                    assert(node_lookup::<A>(*node, h as nat, v2) == node_lookup::<A>(
                        child1,
                        hc,
                        v2,
                    ));
                    assert(node_lookup::<A>(child1, hc, v2) == node_lookup::<A>(c0, hc, v2));
                    assert(node_lookup::<A>(n1, h as nat, v2) == node_lookup::<A>(c0, hc, v2));
                } else {
                    assert(node_lookup::<A>(*node, h as nat, v2) == node_lookup::<A>(
                        n1,
                        h as nat,
                        v2,
                    ));
                }
            }
        }
    }
}

/// Slots known to be empty contribute nothing to the union.
proof fn lemma_children_pages_prefix(s: Seq<Option<TableNode>>, hc: nat, n1: nat, n2: nat)
    requires
        n1 <= n2,
        forall|j: int| n1 <= j < n2 ==> (#[trigger] s[j]) is None,
    ensures
        children_pages(s, hc, n2) == children_pages(s, hc, n1),
    decreases n2,
{
    if n2 > n1 {
        lemma_children_pages_prefix(s, hc, n1, (n2 - 1) as nat);
        assert(s[n2 - 1] is None);
        assert(children_pages(s, hc, n2) =~= children_pages(s, hc, (n2 - 1) as nat));
    }
}

/// In a page-disjoint node, the children's pages never include the
/// node's own page.
proof fn lemma_children_pages_no_paddr(node: TableNode, h: nat)
    requires
        node_disj(node, h),
        h > 1,
    ensures
        !children_pages(node.children@, (h - 1) as nat, 512).contains(node.paddr),
{
    lemma_children_pages_elem(node.children@, (h - 1) as nat, 512);
    if children_pages(node.children@, (h - 1) as nat, 512).contains(node.paddr) {
        let j = choose|j: int|
            0 <= j < 512 && opt_pages(#[trigger] node.children@[j], (h - 1) as nat).contains(
                node.paddr,
            );
        assert(!opt_pages(node.children@[j], (h - 1) as nat).contains(node.paddr));
    }
}

/// Tears one subtree down, freeing every page it occupies — children
/// before parents, so a page goes back only after nothing points at it.
fn release_node<A: PagingArch, AO: VSpaceAO>(node: TableNode, h: usize, alloc: &mut AO)
    requires
        node_wf::<A>(node, h as nat),
        node_disj(node, h as nat),
        1 <= h <= 4,
        old(alloc).wf(),
        subtree_pages(node, h as nat).disjoint(old(alloc).free_set()),
    ensures
        final(alloc).wf(),
        final(alloc).free_set() == old(alloc).free_set() + subtree_pages(node, h as nat),
    decreases h,
{
    let ghost gnode = node;
    let ghost a0 = alloc.free_set();
    let ghost hc = (h - 1) as nat;
    let paddr = node.paddr;
    let mut children = node.children;
    let ghost s0 = children@;
    if h > 1 {
        proof {
            assert(subtree_pages(gnode, h as nat).contains(gnode.paddr));
            assert forall|j: int| 0 <= j < 512 implies opt_pages(#[trigger] s0[j], hc).disjoint(
                alloc.free_set(),
            ) by {
                lemma_slot_pages_subset(gnode, h as nat, j);
                assert forall|x: u64|
                    opt_pages(s0[j], hc).contains(x) implies !alloc.free_set().contains(x) by {
                    assert(subtree_pages(gnode, h as nat).contains(x));
                }
            }
        }
        let mut k: usize = 0;
        while k < 512
            invariant
                node_wf::<A>(gnode, h as nat),
                node_disj(gnode, h as nat),
                1 <= h <= 4,
                h > 1,
                hc == h - 1,
                s0 == gnode.children@,
                paddr == gnode.paddr,
                subtree_pages(gnode, h as nat).disjoint(a0),
                k <= 512,
                children@.len() == 512,
                forall|j: int| k <= j < 512 ==> children@[j] == s0[j],
                alloc.wf(),
                alloc.free_set() == a0 + children_pages(s0, hc, k as nat),
                forall|j: int|
                    k <= j < 512 ==> opt_pages(#[trigger] s0[j], hc).disjoint(alloc.free_set()),
                !alloc.free_set().contains(paddr),
            decreases 512 - k,
        {
            let ghost pre = children@;
            let taken = children.remove(k);
            children.insert(k, None);
            let ghost a_pre = alloc.free_set();
            proof {
                lemma_remove_insert(pre, k as int, None);
                assert(children@ =~= pre.update(k as int, None));
            }
            match taken {
                Some(c) => {
                    proof {
                        assert(s0[k as int] == Some(c));
                        assert(slot_wf::<A>(gnode.entries@[k as int], s0[k as int], h as nat));
                        assert(slot_disj(s0[k as int], h as nat));
                        assert(opt_pages(s0[k as int], hc).disjoint(a_pre));
                        assert(subtree_pages(c, hc).disjoint(a_pre));
                    }
                    release_node::<A, AO>(c, h - 1, alloc);
                    proof {
                        assert(children_pages(s0, hc, (k + 1) as nat) == children_pages(
                            s0,
                            hc,
                            k as nat,
                        ) + subtree_pages(c, hc));
                        assert(alloc.free_set() =~= a0 + children_pages(s0, hc, (k + 1) as nat));
                        assert forall|j: int| k + 1 <= j < 512 implies opt_pages(
                            #[trigger] s0[j],
                            hc,
                        ).disjoint(alloc.free_set()) by {
                            assert(opt_pages(s0[j], hc).disjoint(opt_pages(s0[k as int], hc)));
                            assert forall|x: u64|
                                opt_pages(s0[j], hc).contains(x) implies !alloc.free_set().contains(
                                x,
                            ) by {
                                assert(!a_pre.contains(x));
                                assert(!subtree_pages(c, hc).contains(x));
                            }
                        }
                        assert(!opt_pages(s0[k as int], hc).contains(paddr));
                        assert(!alloc.free_set().contains(paddr));
                    }
                },
                None => {
                    proof {
                        assert(s0[k as int] is None);
                        assert(children_pages(s0, hc, (k + 1) as nat) =~= children_pages(
                            s0,
                            hc,
                            k as nat,
                        ));
                    }
                },
            }
            k += 1;
        }
    }
    proof {
        assert(subtree_pages(gnode, h as nat).contains(gnode.paddr));
    }
    alloc.free_page(PhysAddr(paddr));
    proof {
        if h > 1 {
            assert(alloc.free_set() =~= a0 + subtree_pages(gnode, h as nat));
        } else {
            assert(subtree_pages(gnode, h as nat) =~= set![gnode.paddr]);
            assert(alloc.free_set() =~= a0 + subtree_pages(gnode, h as nat));
        }
    }
}

/// The unmapping walk: follows `vaddr`'s slots `h` levels below `node`
/// without ever allocating, and zeroes the leaf slot; a missing table on
/// the way makes the walk a silent no-op.
fn unmap_rec<A: PagingArch>(node: &mut TableNode, h: usize, vaddr: u64)
    requires
        node_wf::<A>(*old(node), h as nat),
        node_disj(*old(node), h as nat),
        1 <= h <= 4,
    ensures
        node_wf::<A>(*final(node), h as nat),
        node_disj(*final(node), h as nat),
        final(node).paddr == old(node).paddr,
        subtree_pages(*final(node), h as nat) == subtree_pages(*old(node), h as nat),
        forall|j: int|
            0 <= j < 512 && j != pt_index(vaddr, h - 1) ==> (#[trigger] final(node).entries@[j])
                == old(node).entries@[j] && (#[trigger] final(node).children@[j]) == old(
                node,
            ).children@[j],
        h > 1 && !A::spec_is_table(old(node).entries@[pt_index(vaddr, h - 1) as int])
            ==> *final(node) == *old(node),
        forall|v2: u64|
            path_eq(vaddr, v2, h as int) ==> #[trigger] node_lookup::<A>(
                *final(node),
                h as nat,
                v2,
            ) is None,
        forall|v2: u64|
            !path_eq(vaddr, v2, h as int) ==> #[trigger] node_lookup::<A>(
                *final(node),
                h as nat,
                v2,
            ) == node_lookup::<A>(*old(node), h as nat, v2),
    decreases h,
{
    let ghost n0 = *node;
    let i = level_index(vaddr, h - 1);
    if h == 1 {
        node.entries[i] = 0;
        proof {
            A::lemma_zero_pte();
            assert(subtree_pages(*node, 1) =~= subtree_pages(n0, 1));
            assert forall|v2: u64| path_eq(vaddr, v2, 1) implies #[trigger] node_lookup::<A>(
                *node,
                1nat,
                v2,
            ) is None by {
                assert(pt_index(v2, 0) == pt_index(vaddr, 0));
            }
            assert forall|v2: u64| !path_eq(vaddr, v2, 1) implies #[trigger] node_lookup::<A>(
                *node,
                1nat,
                v2,
            ) == node_lookup::<A>(n0, 1nat, v2) by {
                if pt_index(v2, 0) == pt_index(vaddr, 0) {
                    assert forall|l: int| 0 <= l < 1 implies #[trigger] pt_index(vaddr, l)
                        == pt_index(v2, l) by {
                        assert(l == 0);
                    }
                }
                lemma_pt_index_bound(v2, 0);
            }
        }
    } else {
        let pte = node.entries[i];
        if !A::is_table(pte) {
            proof {
                match node.children@[i as int] {
                    Some(c) => {
                        assert(slot_wf::<A>(
                            node.entries@[i as int],
                            node.children@[i as int],
                            h as nat,
                        ));
                        assert(node_wf::<A>(c, (h - 1) as nat));
                        A::lemma_table_pte(c.paddr);
                        assert(false);
                    },
                    None => {},
                }
                assert forall|v2: u64| path_eq(vaddr, v2, h as int) implies #[trigger] node_lookup::<
                    A,
                >(*node, h as nat, v2) is None by {
                    assert(pt_index(v2, h as int - 1) == pt_index(vaddr, h as int - 1));
                }
            }
        } else {
            proof {
                A::lemma_zero_pte();
                match node.children@[i as int] {
                    Some(c) => {},
                    None => {
                        assert(node.entries@[i as int] == 0);
                        assert(false);
                    },
                }
            }
            let taken = node.children.remove(i);
            let mut child = match taken {
                Some(c) => c,
                None => {
                    proof {
                        assert(false);
                    }
                    TableNode { paddr: 0, entries: Vec::new(), children: Vec::new() }
                },
            };
            proof {
                assert(slot_wf::<A>(n0.entries@[i as int], n0.children@[i as int], h as nat));
            }
            unmap_rec::<A>(&mut child, h - 1, vaddr);
            let ghost child1 = child;
            node.children.insert(i, Some(child));
            proof {
                let hc = (h - 1) as nat;
                lemma_remove_insert(n0.children@, i as int, Some(child1));
                assert(node.children@ =~= n0.children@.update(i as int, Some(child1)));
                let c0 = n0.children@[i as int]->Some_0;
                assert(subtree_pages(child1, hc) =~= subtree_pages(c0, hc) + Set::<u64>::empty());
                assert(opt_pages(node.children@[i as int], hc) == opt_pages(
                    n0.children@[i as int],
                    hc,
                ) + Set::<u64>::empty());
                lemma_children_pages_update(
                    n0.children@,
                    node.children@,
                    hc,
                    i as int,
                    Set::<u64>::empty(),
                );
                assert(subtree_pages(*node, h as nat) =~= subtree_pages(n0, h as nat));
                assert forall|j: int| 0 <= j < 512 implies slot_wf::<A>(
                    node.entries@[j],
                    #[trigger] node.children@[j],
                    h as nat,
                ) by {
                    assert(slot_wf::<A>(n0.entries@[j], n0.children@[j], h as nat));
                }
                assert(node_wf::<A>(*node, h as nat));
                assert forall|j: int, k: int|
                    0 <= j < 512 && 0 <= k < 512 && j != k implies opt_pages(
                    #[trigger] node.children@[j],
                    hc,
                ).disjoint(opt_pages(#[trigger] node.children@[k], hc)) by {
                    assert(opt_pages(n0.children@[j], hc).disjoint(opt_pages(n0.children@[k], hc)));
                    assert(opt_pages(node.children@[j], hc) =~= opt_pages(n0.children@[j], hc));
                    assert(opt_pages(node.children@[k], hc) =~= opt_pages(n0.children@[k], hc));
                }
                assert forall|j: int| 0 <= j < 512 implies !opt_pages(
                    #[trigger] node.children@[j],
                    hc,
                ).contains(node.paddr) by {
                    assert(!opt_pages(n0.children@[j], hc).contains(n0.paddr));
                    assert(opt_pages(node.children@[j], hc) =~= opt_pages(n0.children@[j], hc));
                }
                assert(node_disj(*node, h as nat));
                assert forall|v2: u64| path_eq(vaddr, v2, h as int) implies #[trigger] node_lookup::<
                    A,
                >(*node, h as nat, v2) is None by {
                    lemma_path_eq_unfold(vaddr, v2, h as int);
                    assert(pt_index(v2, h as int - 1) == pt_index(vaddr, h as int - 1));
                    assert(node_lookup::<A>(*node, h as nat, v2) == node_lookup::<A>(
                        child1,
                        hc,
                        v2,
                    ));
                }
                assert forall|v2: u64| !path_eq(vaddr, v2, h as int) implies #[trigger] node_lookup::<
                    A,
                >(*node, h as nat, v2) == node_lookup::<A>(n0, h as nat, v2) by {
                    lemma_path_eq_unfold(vaddr, v2, h as int);
                    lemma_pt_index_bound(v2, h - 1);
                    let i2 = pt_index(v2, h as nat - 1) as int;
                    if i2 == i {
                        assert(!path_eq(vaddr, v2, h as int - 1));
                        assert(node_lookup::<A>(*node, h as nat, v2) == node_lookup::<A>(
                            child1,
                            hc,
                            v2,
                        ));
                        assert(node_lookup::<A>(child1, hc, v2) == node_lookup::<A>(c0, hc, v2));
                        assert(node_lookup::<A>(n0, h as nat, v2) == node_lookup::<A>(c0, hc, v2));
                    } else {
                        assert(node_lookup::<A>(*node, h as nat, v2) == node_lookup::<A>(
                            n0,
                            h as nat,
                            v2,
                        ));
                    }
                }
            }
        }
    }
}

/// The read-only walk shared by `translate`.
fn translate_rec<A: PagingArch>(node: &TableNode, h: usize, vaddr: u64) -> (r: Option<(u64, u64)>)
    requires
        node_wf::<A>(*node, h as nat),
        h <= 4,
    ensures
        r == node_lookup::<A>(*node, h as nat, vaddr),
        match r {
            Some(p) => p.0 % 0x1000 == 0 && p.0 <= 0xFFFF_FFFF_FFFF_F000u64,
            None => true,
        },
    decreases h,
{
    let i = level_index(vaddr, h - 1);
    let pte = node.entries[i];
    if h == 1 {
        if A::is_valid(pte) {
            proof {
                A::lemma_paddr_aligned();
            }
            Some((A::pte_paddr(pte), A::pte_flags(pte)))
        } else {
            None
        }
    } else {
        if !A::is_table(pte) {
            proof {
                match node.children@[i as int] {
                    Some(c) => {
                        assert(slot_wf::<A>(
                            node.entries@[i as int],
                            node.children@[i as int],
                            h as nat,
                        ));
                        assert(node_wf::<A>(c, (h - 1) as nat));
                        A::lemma_table_pte(c.paddr);
                        assert(false);
                    },
                    None => {},
                }
            }
            None
        } else {
            match &node.children[i] {
                Some(c) => translate_rec::<A>(c, h - 1, vaddr),
                None => {
                    proof {
                        A::lemma_zero_pte();
                        assert(false);
                    }
                    None
                },
            }
        }
    }
}

} // verus!
