use vstd::prelude::*;

use crate::addr::PhysAddr;
use crate::paging::valid_table_page;

verus! {

/// The frame-allocator capability the engine draws page-table pages
/// from.  An implementation owns a set of free page-aligned physical
/// pages; whatever `alloc_page` hands out is owned exclusively by the
/// caller until it comes back through `free_page`.
pub trait VSpaceAO: Sized {
    /// The physical pages the allocator can still hand out.
    spec fn free_set(&self) -> Set<u64>;

    /// The allocator's own invariant.
    spec fn wf(&self) -> bool;

    /// A well-formed allocator holds finitely many free pages, each of
    /// which can carry a page-table node.
    proof fn lemma_wf(&self)
        requires
            self.wf(),
        ensures
            self.free_set().finite(),
            forall|p: u64| self.free_set().contains(p) ==> valid_table_page(p),
    ;

    /// Hands out one free physical page; the page leaves the free set.
    /// Exhaustion is a fatal condition, so a page must be available.
    fn alloc_page(&mut self) -> (r: PhysAddr)
        requires
            old(self).wf(),
            old(self).free_set().len() > 0,
        ensures
            final(self).wf(),
            valid_table_page(r.0),
            old(self).free_set().contains(r.0),
            final(self).free_set() == old(self).free_set().remove(r.0),
    ;

    /// Takes back a page previously handed out; freeing a page the
    /// allocator still holds (a double free) is a caller error.
    fn free_page(&mut self, paddr: PhysAddr)
        requires
            old(self).wf(),
            valid_table_page(paddr.0),
            !old(self).free_set().contains(paddr.0),
        ensures
            final(self).wf(),
            final(self).free_set() == old(self).free_set().insert(paddr.0),
    ;
}

/// A placeholder capability for embeddings that never grow or tear down
/// an address space.  It is never well-formed, so no call on it is ever
/// legal: any attempt to draw from it or return to it is ruled out by
/// contract instead of halting at run time.
pub struct VSpaceAODummy;

impl VSpaceAO for VSpaceAODummy {
    open spec fn free_set(&self) -> Set<u64> {
        Set::empty()
    }

    open spec fn wf(&self) -> bool {
        false
    }

    proof fn lemma_wf(&self) {
    }

    fn alloc_page(&mut self) -> (r: PhysAddr) {
        proof {
            assert(false);
        }
        PhysAddr(0x1000)
    }

    fn free_page(&mut self, paddr: PhysAddr) {
        proof {
            assert(false);
        }
    }
}

/// A frame allocator backed by an explicit stack of free pages: the
/// embedding kernel seeds it with `give`, and `free_count` lets it watch
/// how many pages the engine takes and returns.
pub struct FreeList {
    pages: Vec<u64>,
}

proof fn lemma_push_to_set(s: Seq<u64>, x: u64)
    ensures
        s.push(x).to_set() == s.to_set().insert(x),
{
    assert forall|y: u64| s.push(x).to_set().contains(y) implies s.to_set().insert(x).contains(
        y,
    ) by {
        let i = choose|i: int| 0 <= i < s.push(x).len() && s.push(x)[i] == y;
        if i < s.len() {
            assert(s[i] == y);
        }
    }
    assert forall|y: u64| s.to_set().insert(x).contains(y) implies s.push(x).to_set().contains(
        y,
    ) by {
        if s.to_set().contains(y) {
            let i = choose|i: int| 0 <= i < s.len() && s[i] == y;
            assert(s.push(x)[i] == y);
        } else {
            assert(s.push(x)[s.len() as int] == x);
        }
    }
    assert(s.push(x).to_set() =~= s.to_set().insert(x));
}

proof fn lemma_drop_last_to_set(s: Seq<u64>)
    requires
        s.len() > 0,
        s.no_duplicates(),
    ensures
        s.drop_last().to_set() == s.to_set().remove(s.last()),
        s.drop_last().no_duplicates(),
{
    assert forall|y: u64| s.drop_last().to_set().contains(y) implies s.to_set().remove(
        s.last(),
    ).contains(y) by {
        let i = choose|i: int| 0 <= i < s.drop_last().len() && s.drop_last()[i] == y;
        assert(s[i] == y);
        assert(s[s.len() - 1] == s.last());
    }
    assert forall|y: u64| s.to_set().remove(s.last()).contains(y) implies s.drop_last(
    ).to_set().contains(y) by {
        let i = choose|i: int| 0 <= i < s.len() && s[i] == y;
        assert(i < s.len() - 1);
        assert(s.drop_last()[i] == y);
    }
    assert(s.drop_last().to_set() =~= s.to_set().remove(s.last()));
}

impl FreeList {
    /// An allocator with nothing to hand out yet.
    pub fn new() -> (r: Self)
        ensures
            r.wf(),
            r.free_set() == Set::<u64>::empty(),
    {
        let r = FreeList { pages: Vec::new() };
        proof {
            assert(r.pages@.to_set() =~= Set::<u64>::empty());
        }
        r
    }

    /// Seeds the allocator with one free page it does not hold yet.
    pub fn give(&mut self, paddr: PhysAddr)
        requires
            old(self).wf(),
            valid_table_page(paddr.0),
            !old(self).free_set().contains(paddr.0),
        ensures
            final(self).wf(),
            final(self).free_set() == old(self).free_set().insert(paddr.0),
    {
        proof {
            lemma_push_to_set(self.pages@, paddr.0);
        }
        self.pages.push(paddr.0);
    }

    /// How many pages are free right now.
    pub fn free_count(&self) -> (r: usize)
        requires
            self.wf(),
        ensures
            r == self.free_set().len(),
    {
        proof {
            self.pages@.unique_seq_to_set();
        }
        self.pages.len()
    }
}

impl VSpaceAO for FreeList {
    closed spec fn free_set(&self) -> Set<u64> {
        self.pages@.to_set()
    }

    closed spec fn wf(&self) -> bool {
        &&& self.pages@.no_duplicates()
        &&& forall|i: int| 0 <= i < self.pages@.len() ==> valid_table_page(#[trigger] self.pages@[i])
    }

    proof fn lemma_wf(&self) {
        broadcast use vstd::seq_lib::seq_to_set_is_finite;

        assert forall|p: u64| self.free_set().contains(p) implies valid_table_page(p) by {
            let i = choose|i: int| 0 <= i < self.pages@.len() && self.pages@[i] == p;
        }
    }

    fn alloc_page(&mut self) -> (r: PhysAddr)
    {
        proof {
            self.pages@.unique_seq_to_set();
            lemma_drop_last_to_set(self.pages@);
        }
        let p = match self.pages.pop() {
            Some(p) => p,
            None => {
                proof {
                    assert(false);
                }
                0
            },
        };
        PhysAddr(p)
    }

    fn free_page(&mut self, paddr: PhysAddr) {
        proof {
            lemma_push_to_set(self.pages@, paddr.0);
        }
        self.pages.push(paddr.0);
    }
}

} // verus!
