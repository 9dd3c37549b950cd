//! The upstream byte source that supplies raw chunk regions.
//!
//! The arena itself never retains a source: one is borrowed for the
//! duration of a slow-path or reset call, exactly as the design asks.

use vstd::prelude::*;
use vstd::multiset::Multiset;
use crate::chunk::{AllocError, Region};
use crate::layout::is_pow2;

verus! {

/// Supplies the backing address regions that chunks live in.
///
/// Implementations promise placement facts about a fresh region — it is
/// aligned as asked, starts above the null address, and stays within
/// the address space — and keep a ledger, [`Self::on_loan`], of the
/// regions handed out and not yet returned, with the alignment each was
/// requested at. Every successful `allocate_region` adds exactly its
/// region to the ledger; every `deallocate_region` strikes exactly one
/// occurrence of its region. The arena's reset contract speaks over
/// this ledger: each released chunk is handed back once, as the region
/// it was created with. Failure to allocate is always permitted.
pub trait ChunkSource: Sized {
    /// The regions currently on loan from this source, with the
    /// alignment each was requested at. The default ledger is empty;
    /// an implementation that wants its allocation contract provable
    /// overrides it with its own bookkeeping.
    open spec fn on_loan(self) -> Multiset<(Region, usize)> {
        Multiset::empty()
    }

    /// Obtain a region of `size` bytes aligned to `align`.
    fn allocate_region(&mut self, size: usize, align: usize) -> (r: Result<Region, AllocError>)
        requires
            is_pow2(align as int),
            size + align <= usize::MAX,
        ensures
            match r {
                Ok(reg) => {
                    &&& reg.size == size
                    &&& reg.addr as int % align as int == 0
                    &&& 1 <= reg.addr
                    &&& reg.addr + reg.size <= usize::MAX
                    &&& final(self).on_loan() == old(self).on_loan().insert((reg, align))
                },
                Err(_) => final(self).on_loan() == old(self).on_loan(),
            },
    ;

    /// Return a region previously obtained from `allocate_region`, with
    /// the alignment it was requested at: one occurrence leaves the
    /// ledger (none, if the region was not on loan).
    fn deallocate_region(&mut self, reg: Region, align: usize)
        ensures
            final(self).on_loan() == old(self).on_loan().remove((reg, align)),
    ;
}

/// A source that hands out fresh, never-reused address ranges by moving a
/// watermark, so distinct allocations never overlap. Returned regions are
/// only retired from the ledger: `deallocate_region` reclaims nothing.
pub struct FreshSource {
    pub next: usize,
    /// Ledger of the regions handed out and not yet returned.
    pub loaned: Ghost<Multiset<(Region, usize)>>,
}

impl FreshSource {
    pub fn new() -> (r: FreshSource)
        ensures
            r.next == 1,
            r.on_loan() == Multiset::<(Region, usize)>::empty(),
    {
        FreshSource { next: 1, loaned: Ghost(Multiset::empty()) }
    }
}

impl ChunkSource for FreshSource {
    open spec fn on_loan(self) -> Multiset<(Region, usize)> {
        self.loaned@
    }

    fn allocate_region(&mut self, size: usize, align: usize) -> (r: Result<Region, AllocError>) {
        let start = if self.next == 0 {
            1
        } else {
            self.next
        };
        proof {
            assert(align >= 1);
            crate::chunk::lemma_align_up(start as int, align as int);
        }
        let rem = start % align;
        let pad = if rem == 0 {
            0
        } else {
            align - rem
        };
        if pad > usize::MAX - start {
            return Err(AllocError);
        }
        let addr = start + pad;
        if size > usize::MAX - addr {
            return Err(AllocError);
        }
        self.next = addr + size;
        let reg = Region { addr, size };
        proof {
            self.loaned@ = self.loaned@.insert((reg, align));
        }
        Ok(reg)
    }

    fn deallocate_region(&mut self, reg: Region, align: usize) {
        proof {
            self.loaned@ = self.loaned@.remove((reg, align));
        }
    }
}

} // verus!
