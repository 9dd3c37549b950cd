//! The single-owner arena: a chunk chain, a growth floor, and no
//! internal synchronization.

use vstd::prelude::*;
use vstd::multiset::Multiset;
use crate::chunk::{
    align_pad, align_up, chain_loans, lemma_align_up, lemma_base_aligned, AllocError, Chunk,
    Region, CHUNK_ALIGN, CHUNK_HEADER_SIZE,
};
use crate::growth::{chunk_capacity, grow_cap, grow_floor};
use crate::layout::{is_pow2, Layout};
use crate::source::ChunkSource;

verus! {

/// Default floor for slow-path growth requests.
pub const CHUNK_START_SIZE: usize = 32;

/// A bump arena owned by a single caller.
///
/// The arena owns a chain of chunks, newest first; allocation advances the
/// newest chunk's cursor, and the slow path links in a fresh chunk from an
/// upstream [`ChunkSource`]. The whole chain is reclaimed in one reset.
pub struct ArenaLocal {
    /// The newest chunk, owning all older ones through its back links.
    pub root: Option<Box<Chunk>>,
    /// Floor for the capacity of chunks requested on the slow path.
    pub min_chunk_size: usize,
}

impl ArenaLocal {
    pub open spec fn wf(self) -> bool {
        match self.root {
            None => true,
            Some(c) => c.wf(),
        }
    }

    pub open spec fn has_root(self) -> bool {
        self.root is Some
    }

    /// The newest chunk; meaningful only when one exists.
    pub open spec fn root_chunk(self) -> Chunk {
        match self.root {
            Some(c) => *c,
            None => arbitrary(),
        }
    }

    /// Bytes handed out so far: every older chunk counted in full (their
    /// unused tails were abandoned) plus the cursor offset in the newest.
    pub open spec fn allocated(self) -> int {
        match self.root {
            None => 0,
            Some(c) => c.cumulative + c.used(),
        }
    }

    /// Total usable bytes in all chunks of the chain.
    pub open spec fn capacity(self) -> int {
        match self.root {
            None => 0,
            Some(c) => c.cumulative + c.cap,
        }
    }

    pub fn new() -> (r: ArenaLocal)
        ensures
            r.wf(),
            !r.has_root(),
            r.min_chunk_size == CHUNK_START_SIZE,
            r.allocated() == 0,
            r.capacity() == 0,
    {
        ArenaLocal { root: None, min_chunk_size: CHUNK_START_SIZE }
    }

    pub fn with_chunk_size(min_chunk_size: usize) -> (r: ArenaLocal)
        ensures
            r.wf(),
            !r.has_root(),
            r.min_chunk_size == min_chunk_size,
            r.allocated() == 0,
            r.capacity() == 0,
    {
        ArenaLocal { root: None, min_chunk_size }
    }

    /// Capacity of the newest chunk alone, `0` before any chunk exists.
    pub fn last_chunk_size(&self) -> (r: usize)
        requires
            self.wf(),
        ensures
            r == if self.has_root() {
                self.root_chunk().cap as int
            } else {
                0
            },
    {
        match &self.root {
            None => 0,
            Some(c) => c.cap,
        }
    }

    /// Fast path: bump the newest chunk's cursor, touching neither the
    /// chain nor any upstream source. `None` means "no room here" and is
    /// the signal to call [`Self::alloc_slow`].
    pub fn alloc_fast(&mut self, layout: Layout) -> (r: Option<Region>)
        requires
            old(self).wf(),
            layout.wf(),
        ensures
            final(self).wf(),
            final(self).min_chunk_size == old(self).min_chunk_size,
            final(self).capacity() == old(self).capacity(),
            final(self).has_root() == old(self).has_root(),
            match r {
                Some(reg) => ({
                    let oc = old(self).root_chunk();
                    let nc = final(self).root_chunk();
                    &&& old(self).has_root()
                    &&& nc.same_frame(oc)
                    &&& reg.addr == align_up(oc.cursor as int, layout.align as int)
                    &&& reg.size == layout.size
                    &&& reg.addr as int % layout.align as int == 0
                    &&& oc.cursor <= reg.addr
                    &&& reg.addr + reg.size == nc.cursor
                    &&& nc.cursor <= nc.end()
                    &&& final(self).allocated() == old(self).allocated() + align_pad(
                        oc.cursor as int,
                        layout.align as int,
                    ) + layout.size
                    &&& 1 <= reg.addr
                    &&& reg.addr + reg.size <= usize::MAX
                }),
                None => {
                    &&& *final(self) == *old(self)
                    &&& old(self).has_root() ==> align_up(
                        old(self).root_chunk().cursor as int,
                        layout.align as int,
                    ) + layout.size > old(self).root_chunk().end()
                },
            },
    {
        match self.root.take() {
            None => None,
            Some(boxed) => {
                let mut c: Chunk = *boxed;
                let r = c.bump(layout);
                self.root = Some(Box::new(c));
                r
            },
        }
    }

    /// Slow path: request a fresh chunk from `source`, sized by the growth
    /// policy, link it in as the new root and serve `layout` from it. On
    /// any failure the chain is left untouched; when `source` delivers,
    /// the new chunk is guaranteed to satisfy the triggering request.
    pub fn alloc_slow<S: ChunkSource>(&mut self, layout: Layout, source: &mut S) -> (r: Result<
        Region,
        AllocError,
    >)
        requires
            old(self).wf(),
            layout.wf(),
        ensures
            final(self).wf(),
            final(self).min_chunk_size == old(self).min_chunk_size,
            match r {
                Ok(reg) => ({
                    let nc = final(self).root_chunk();
                    &&& final(self).has_root()
                    &&& nc.cumulative == old(self).capacity()
                    &&& nc.prev == old(self).root
                    &&& nc.cap == grow_cap(
                        old(self).min_chunk_size as int,
                        old(self).capacity() as int,
                        layout,
                    )
                    &&& nc.cursor == align_up(nc.base as int, layout.align as int) + layout.size
                    &&& reg.addr == align_up(nc.base as int, layout.align as int)
                    &&& reg.size == layout.size
                    &&& reg.addr as int % layout.align as int == 0
                    &&& final(self).capacity() == old(self).capacity() + nc.cap
                    &&& final(self).allocated() == old(self).capacity() + align_pad(
                        nc.base as int,
                        layout.align as int,
                    ) + layout.size
                    &&& 1 <= reg.addr
                    &&& reg.addr + reg.size <= usize::MAX
                    &&& final(source).on_loan() == old(source).on_loan().insert(
                        (nc.region(), CHUNK_ALIGN),
                    )
                }),
                Err(_) => *final(self) == *old(self) && final(source).on_loan() == old(source).on_loan(),
            },
            old(self).capacity() + grow_floor(old(self).min_chunk_size as int, layout)
                + CHUNK_HEADER_SIZE > usize::MAX / 4 + 1 ==> r is Err,
    {
        let prev_total = match &self.root {
            None => 0,
            Some(c) => c.cumulative + c.cap,
        };
        let cap = match chunk_capacity(self.min_chunk_size, prev_total, layout) {
            Ok(c) => c,
            Err(e) => {
                return Err(e);
            },
        };
        proof {
            reveal_with_fuel(is_pow2, 4);
        }
        let reg = match source.allocate_region(cap + CHUNK_HEADER_SIZE, CHUNK_ALIGN) {
            Ok(reg) => reg,
            Err(e) => {
                return Err(e);
            },
        };
        let base = reg.addr + CHUNK_HEADER_SIZE;
        proof {
            vstd::arithmetic::div_mod::lemma_add_mod_noop(
                reg.addr as int,
                CHUNK_HEADER_SIZE as int,
                CHUNK_ALIGN as int,
            );
            lemma_align_up(base as int, layout.align as int);
            if layout.align <= CHUNK_ALIGN {
                lemma_base_aligned(base as int, layout.align as int);
            }
            assert(align_up(base as int, layout.align as int) + layout.size <= base + cap);
        }
        let mut c = Chunk {
            base,
            cap,
            cursor: base,
            cumulative: prev_total,
            prev: self.root.take(),
        };
        let out = c.bump(layout);
        self.root = Some(Box::new(c));
        match out {
            Some(reg2) => Ok(reg2),
            None => {
                proof {
                    assert(false);
                }
                Err(AllocError)
            },
        }
    }

    /// Fast path of resize: in place on the newest chunk, only for the
    /// most recently allocated block. `None` signals the caller to fall
    /// back to allocate-copy-abandon ([`Self::resize_slow`]).
    pub fn resize_fast(&mut self, addr: usize, old_layout: Layout, new_layout: Layout) -> (r:
        Option<Region>)
        requires
            old(self).wf(),
            old_layout.wf(),
            new_layout.wf(),
        ensures
            final(self).wf(),
            final(self).min_chunk_size == old(self).min_chunk_size,
            final(self).capacity() == old(self).capacity(),
            final(self).has_root() == old(self).has_root(),
            match r {
                Some(reg) => ({
                    let oc = old(self).root_chunk();
                    let nc = final(self).root_chunk();
                    &&& old(self).has_root()
                    &&& nc.same_frame(oc)
                    &&& addr + old_layout.size == oc.cursor
                    &&& oc.base <= addr
                    &&& reg.addr == addr
                    &&& reg.size == new_layout.size
                    &&& reg.addr as int % new_layout.align as int == 0
                    &&& nc.cursor == addr + new_layout.size
                    &&& nc.cursor <= nc.end()
                    &&& final(self).allocated() == old(self).allocated() + new_layout.size
                        - old_layout.size
                    &&& 1 <= reg.addr
                    &&& reg.addr + reg.size <= usize::MAX
                }),
                None => {
                    &&& *final(self) == *old(self)
                    &&& old(self).has_root() ==> !({
                        let oc = old(self).root_chunk();
                        &&& addr + old_layout.size == oc.cursor
                        &&& oc.base <= addr
                        &&& addr as int % new_layout.align as int == 0
                        &&& addr + new_layout.size <= oc.end()
                    })
                },
            },
    {
        match self.root.take() {
            None => None,
            Some(boxed) => {
                let mut c: Chunk = *boxed;
                let r = c.resize(addr, old_layout, new_layout);
                self.root = Some(Box::new(c));
                r
            },
        }
    }

    /// Slow path of resize: obtain a fresh block for the new layout (fast
    /// path first, then a new chunk) and abandon the old block, which a
    /// bump arena never reclaims in place. The caller moves the contents.
    pub fn resize_slow<S: ChunkSource>(
        &mut self,
        addr: usize,
        old_layout: Layout,
        new_layout: Layout,
        source: &mut S,
    ) -> (r: Result<Region, AllocError>)
        requires
            old(self).wf(),
            old_layout.wf(),
            new_layout.wf(),
        ensures
            final(self).wf(),
            final(self).min_chunk_size == old(self).min_chunk_size,
            final(self).capacity() >= old(self).capacity(),
            match r {
                Ok(reg) => {
                    &&& reg.size == new_layout.size
                    &&& reg.addr as int % new_layout.align as int == 0
                    &&& 1 <= reg.addr
                    &&& reg.addr + reg.size <= usize::MAX
                    &&& final(self).allocated() + old_layout.size >= old(self).allocated()
                        + new_layout.size
                    &&& (final(source).on_loan() == old(source).on_loan()
                        || final(source).on_loan() == old(source).on_loan().insert(
                        (final(self).root_chunk().region(), CHUNK_ALIGN),
                    ))
                },
                Err(_) => *final(self) == *old(self) && final(source).on_loan() == old(source).on_loan(),
            },
            ({
                let fits = old(self).has_root() && align_up(
                    old(self).root_chunk().cursor as int,
                    new_layout.align as int,
                ) + new_layout.size <= old(self).root_chunk().end();
                &&& (fits ==> r is Ok)
                &&& (!fits && old(self).capacity() + grow_floor(
                    old(self).min_chunk_size as int,
                    new_layout,
                ) + CHUNK_HEADER_SIZE > usize::MAX / 4 + 1 ==> r is Err)
            }),
    {
        match self.alloc_fast(new_layout) {
            Some(reg) => Ok(reg),
            None => self.alloc_slow(new_layout, source),
        }
    }

    /// Tail reclamation: retract the newest chunk's cursor if and only if
    /// the freed block is the most recently allocated one; every other
    /// free is silently ignored.
    pub fn dealloc(&mut self, addr: usize, size: usize)
        requires
            old(self).wf(),
        ensures
            final(self).wf(),
            final(self).min_chunk_size == old(self).min_chunk_size,
            final(self).capacity() == old(self).capacity(),
            final(self).has_root() == old(self).has_root(),
            if old(self).has_root() && addr + size == old(self).root_chunk().cursor && old(
                self,
            ).root_chunk().base <= addr {
                &&& final(self).root_chunk().same_frame(old(self).root_chunk())
                &&& final(self).root_chunk().cursor == addr
                &&& final(self).allocated() == old(self).allocated() - size
            } else {
                *final(self) == *old(self)
            },
    {
        match self.root.take() {
            None => (),
            Some(boxed) => {
                let mut c: Chunk = *boxed;
                c.dealloc(addr, size);
                self.root = Some(Box::new(c));
            },
        }
    }

    /// Release the chain back to `source`: each chunk's full region
    /// (capacity plus bookkeeping overhead) leaves the source's ledger
    /// exactly once, as the region and alignment it was created with —
    /// except that `keep_last` retains the newest chunk, rewound to
    /// empty, for reuse.
    pub fn reset<S: ChunkSource>(&mut self, keep_last: bool, source: &mut S)
        requires
            old(self).wf(),
        ensures
            final(self).wf(),
            final(self).min_chunk_size == old(self).min_chunk_size,
            final(self).allocated() == 0,
            if keep_last && old(self).has_root() {
                &&& final(self).has_root()
                &&& final(self).root_chunk().base == old(self).root_chunk().base
                &&& final(self).root_chunk().cap == old(self).root_chunk().cap
                &&& final(self).root_chunk().cursor == final(self).root_chunk().base
                &&& final(self).root_chunk().cumulative == 0
                &&& final(self).root_chunk().prev is None
                &&& final(self).capacity() == old(self).root_chunk().cap
                &&& final(self).capacity() > 0
            } else {
                !final(self).has_root() && final(self).capacity() == 0
            },
            final(source).on_loan() == old(source).on_loan().sub(
                if keep_last && old(self).has_root() {
                    chain_loans(old(self).root_chunk().prev)
                } else {
                    chain_loans(old(self).root)
                },
            ),
    {
        let ghost loan0 = source.on_loan();
        match self.root.take() {
            None => {
                proof {
                    lemma_sub_empty(loan0);
                }
            },
            Some(boxed) => {
                let c: Chunk = *boxed;
                let ghost c0 = c;
                let Chunk { base, cap, cursor: _, cumulative: _, prev } = c;
                let ghost prev0 = prev;
                let mut link: Option<Box<Chunk>> = prev;
                let ghost mut released: Multiset<(Region, usize)> = Multiset::empty();
                proof {
                    broadcast use vstd::multiset::group_multiset_axioms;

                    assert(released.add(chain_loans(link)) =~= chain_loans(prev0));
                }
                while link.is_some()
                    invariant
                        loan0 == old(source).on_loan(),
                        source.on_loan() == loan0.sub(released),
                        released.add(chain_loans(link)) == chain_loans(prev0),
                        match link {
                            Some(b) => b.wf(),
                            None => true,
                        },
                    decreases link,
                {
                    let ghost link0 = link;
                    let ghost released0 = released;
                    let b = link.unwrap();
                    let ch: Chunk = *b;
                    let reg = Region {
                        addr: ch.base - CHUNK_HEADER_SIZE,
                        size: ch.cap + CHUNK_HEADER_SIZE,
                    };
                    source.deallocate_region(reg, CHUNK_ALIGN);
                    proof {
                        broadcast use vstd::multiset::group_multiset_axioms;

                        assert(reg == ch.region());
                        lemma_sub_remove_insert(loan0, released0, (reg, CHUNK_ALIGN));
                        released = released0.insert((reg, CHUNK_ALIGN));
                        assert(chain_loans(link0) == chain_loans(ch.prev).insert(
                            (reg, CHUNK_ALIGN),
                        ));
                        assert(released.add(chain_loans(ch.prev)) =~= released0.add(
                            chain_loans(link0),
                        ));
                    }
                    link = ch.prev;
                }
                proof {
                    broadcast use vstd::multiset::group_multiset_axioms;

                    assert(released.add(chain_loans(link)) =~= released);
                    assert(released == chain_loans(prev0));
                }
                if keep_last {
                    self.root = Some(
                        Box::new(Chunk { base, cap, cursor: base, cumulative: 0, prev: None }),
                    );
                } else {
                    let reg = Region {
                        addr: base - CHUNK_HEADER_SIZE,
                        size: cap + CHUNK_HEADER_SIZE,
                    };
                    source.deallocate_region(reg, CHUNK_ALIGN);
                    proof {
                        broadcast use vstd::multiset::group_multiset_axioms;

                        assert(reg == c0.region());
                        lemma_sub_remove_insert(loan0, released, (reg, CHUNK_ALIGN));
                        assert(chain_loans(old(self).root) == chain_loans(prev0).insert(
                            (reg, CHUNK_ALIGN),
                        ));
                    }
                }
            },
        }
    }

    /// Same protocol as [`Self::reset`], offered for callers that take
    /// responsibility for exclusivity themselves rather than proving it
    /// through a `&mut` borrow of the whole arena.
    pub fn reset_unchecked<S: ChunkSource>(&mut self, keep_last: bool, source: &mut S)
        requires
            old(self).wf(),
        ensures
            final(self).wf(),
            final(self).min_chunk_size == old(self).min_chunk_size,
            final(self).allocated() == 0,
            if keep_last && old(self).has_root() {
                &&& final(self).has_root()
                &&& final(self).root_chunk().base == old(self).root_chunk().base
                &&& final(self).root_chunk().cap == old(self).root_chunk().cap
                &&& final(self).root_chunk().cursor == final(self).root_chunk().base
                &&& final(self).root_chunk().cumulative == 0
                &&& final(self).root_chunk().prev is None
                &&& final(self).capacity() == old(self).root_chunk().cap
                &&& final(self).capacity() > 0
            } else {
                !final(self).has_root() && final(self).capacity() == 0
            },
            final(source).on_loan() == old(source).on_loan().sub(
                if keep_last && old(self).has_root() {
                    chain_loans(old(self).root_chunk().prev)
                } else {
                    chain_loans(old(self).root)
                },
            ),
    {
        self.reset(keep_last, source)
    }

    /// Reset without an upstream source: released chunks are abandoned in
    /// place instead of being returned, trading memory for not needing an
    /// allocator reference at reset time.
    pub fn reset_leak(&mut self, keep_last: bool)
        requires
            old(self).wf(),
        ensures
            final(self).wf(),
            final(self).min_chunk_size == old(self).min_chunk_size,
            final(self).allocated() == 0,
            if keep_last && old(self).has_root() {
                &&& final(self).has_root()
                &&& final(self).root_chunk().base == old(self).root_chunk().base
                &&& final(self).root_chunk().cap == old(self).root_chunk().cap
                &&& final(self).root_chunk().cursor == final(self).root_chunk().base
                &&& final(self).root_chunk().cumulative == 0
                &&& final(self).root_chunk().prev is None
                &&& final(self).capacity() == old(self).root_chunk().cap
                &&& final(self).capacity() > 0
            } else {
                !final(self).has_root() && final(self).capacity() == 0
            },
    {
        match self.root.take() {
            None => (),
            Some(boxed) => {
                if keep_last {
                    let c: Chunk = *boxed;
                    let Chunk { base, cap, cursor: _, cumulative: _, prev: _ } = c;
                    self.root = Some(
                        Box::new(Chunk { base, cap, cursor: base, cumulative: 0, prev: None }),
                    );
                }
            },
        }
    }

    /// Bytes allocated from this arena: exact once a single chunk serves
    /// the pattern, a slight over-approximation while older chunks (whose
    /// wasted tails are counted as used) are still in the chain.
    pub fn allocated_bytes(&self) -> (r: usize)
        requires
            self.wf(),
        ensures
            r == self.allocated(),
    {
        match &self.root {
            None => 0,
            Some(c) => {
                let used = c.cursor - c.base;
                c.cumulative + used
            },
        }
    }

    /// Total capacity of all chunks in the chain; never less than
    /// [`Self::allocated_bytes`].
    pub fn total_capacity(&self) -> (r: usize)
        requires
            self.wf(),
        ensures
            r == self.capacity(),
            self.allocated() <= r,
    {
        match &self.root {
            None => 0,
            Some(c) => c.cumulative + c.cap,
        }
    }
}


/// Striking one more occurrence off a ledger is the same as subtracting
/// it together with the rest.
proof fn lemma_sub_remove_insert<V>(a: Multiset<V>, b: Multiset<V>, x: V)
    ensures
        a.sub(b).remove(x) == a.sub(b.insert(x)),
{
    broadcast use vstd::multiset::group_multiset_axioms;

    assert(a.sub(b).remove(x) =~= a.sub(b.insert(x)));
}

/// Subtracting nothing changes nothing.
proof fn lemma_sub_empty<V>(a: Multiset<V>)
    ensures
        a.sub(Multiset::empty()) == a,
{
    broadcast use vstd::multiset::group_multiset_axioms;

    assert(a.sub(Multiset::empty()) =~= a);
}

} // verus!
