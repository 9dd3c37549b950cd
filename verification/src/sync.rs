//! The multi-reader-safe arena: the same chunk-chain model behind a
//! reader/writer lock.
//!
//! The lock's invariant keeps the protected chain well formed at all
//! times, so every observable state satisfies the chain laws (in
//! particular, total capacity never drops below the allocated count).
//! The precise cursor arithmetic is specified on [`ArenaLocal`], which
//! this type wraps; the contracts here state the facts about returned
//! values that hold regardless of what other callers did to the hidden
//! state in between. A cursor held in an atomic would let fast-path
//! bumps proceed under a read lock; this implementation keeps the cursor
//! a plain field and serializes cursor motion under the write lock,
//! trading fast-path concurrency for a chain the contracts can speak
//! about directly.

use vstd::prelude::*;
use vstd::multiset::Multiset;
use vstd::rwlock::{RwLock, RwLockPredicate};
use crate::chunk::{AllocError, Region};
use crate::layout::Layout;
use crate::local::ArenaLocal;
use crate::source::ChunkSource;

verus! {

/// The lock invariant: the protected chunk chain is always well formed.
pub struct ChainInv {}

impl RwLockPredicate<ArenaLocal> for ChainInv {
    open spec fn inv(self, v: ArenaLocal) -> bool {
        v.wf()
    }
}

/// A bump arena that may be shared across threads.
///
/// Fast-path allocations and chunk replacement both serialize on the
/// lock; resets and introspection do too.
pub struct ArenaSync {
    inner: RwLock<ArenaLocal, ChainInv>,
}

impl ArenaSync {
    pub fn new() -> ArenaSync {
        ArenaSync { inner: RwLock::new(ArenaLocal::new(), Ghost(ChainInv {  })) }
    }

    pub fn with_chunk_size(min_chunk_size: usize) -> ArenaSync {
        ArenaSync {
            inner: RwLock::new(ArenaLocal::with_chunk_size(min_chunk_size), Ghost(ChainInv {  })),
        }
    }

    /// Fast path: bump the newest chunk of the shared chain. `None` is the
    /// signal to call [`Self::alloc_slow`].
    pub fn alloc_fast(&self, layout: Layout) -> (r: Option<Region>)
        requires
            layout.wf(),
        ensures
            match r {
                Some(reg) => {
                    &&& reg.size == layout.size
                    &&& reg.addr as int % layout.align as int == 0
                    &&& 1 <= reg.addr
                    &&& reg.addr + reg.size <= usize::MAX
                },
                None => true,
            },
    {
        let (mut st, handle) = self.inner.acquire_write();
        let r = st.alloc_fast(layout);
        handle.release_write(st);
        r
    }

    /// Slow path: grow the shared chain by a fresh chunk from `source`
    /// and serve `layout` from it.
    pub fn alloc_slow<S: ChunkSource>(&self, layout: Layout, source: &mut S) -> (r: Result<
        Region,
        AllocError,
    >)
        requires
            layout.wf(),
        ensures
            match r {
                Ok(reg) => {
                    &&& reg.size == layout.size
                    &&& reg.addr as int % layout.align as int == 0
                    &&& 1 <= reg.addr
                    &&& reg.addr + reg.size <= usize::MAX
                },
                Err(_) => true,
            },
    {
        let (mut st, handle) = self.inner.acquire_write();
        let r = st.alloc_slow(layout, source);
        handle.release_write(st);
        r
    }

    /// In-place resize of the most recently allocated block, if it still
    /// fits its chunk; `None` is the signal for [`Self::resize_slow`].
    pub fn resize_fast(&self, addr: usize, old_layout: Layout, new_layout: Layout) -> (r: Option<
        Region,
    >)
        requires
            old_layout.wf(),
            new_layout.wf(),
        ensures
            match r {
                Some(reg) => {
                    &&& reg.addr == addr
                    &&& reg.size == new_layout.size
                    &&& reg.addr as int % new_layout.align as int == 0
                    &&& 1 <= reg.addr
                    &&& reg.addr + reg.size <= usize::MAX
                },
                None => true,
            },
    {
        let (mut st, handle) = self.inner.acquire_write();
        let r = st.resize_fast(addr, old_layout, new_layout);
        handle.release_write(st);
        r
    }

    /// Fallback resize: a fresh block for the new layout, the old block
    /// abandoned; the caller moves the contents.
    pub fn resize_slow<S: ChunkSource>(
        &self,
        addr: usize,
        old_layout: Layout,
        new_layout: Layout,
        source: &mut S,
    ) -> (r: Result<Region, AllocError>)
        requires
            old_layout.wf(),
            new_layout.wf(),
        ensures
            match r {
                Ok(reg) => {
                    &&& reg.size == new_layout.size
                    &&& reg.addr as int % new_layout.align as int == 0
                    &&& 1 <= reg.addr
                    &&& reg.addr + reg.size <= usize::MAX
                },
                Err(_) => true,
            },
    {
        let (mut st, handle) = self.inner.acquire_write();
        let r = st.resize_slow(addr, old_layout, new_layout, source);
        handle.release_write(st);
        r
    }

    /// Tail reclamation on the shared chain; frees of anything but the
    /// most recent block are silently ignored.
    pub fn dealloc(&self, addr: usize, size: usize) {
        let (mut st, handle) = self.inner.acquire_write();
        st.dealloc(addr, size);
        handle.release_write(st);
    }

    /// Release the shared chain back to `source`, optionally retaining
    /// the newest chunk rewound for reuse.
    pub fn reset<S: ChunkSource>(&mut self, keep_last: bool, source: &mut S) {
        let (mut st, handle) = self.inner.acquire_write();
        st.reset(keep_last, source);
        handle.release_write(st);
    }

    /// Same protocol as [`Self::reset`] through shared access; the caller
    /// takes responsibility for not racing the teardown.
    pub fn reset_unchecked<S: ChunkSource>(&self, keep_last: bool, source: &mut S) {
        let (mut st, handle) = self.inner.acquire_write();
        st.reset(keep_last, source);
        handle.release_write(st);
    }

    /// Bytes allocated from the shared arena, as of this observation.
    pub fn allocated_bytes(&self) -> usize {
        let handle = self.inner.acquire_read();
        let r = handle.borrow().allocated_bytes();
        handle.release_read();
        r
    }

    /// Total capacity of the shared chain, as of this observation; the
    /// lock invariant keeps it at or above the allocated count.
    pub fn total_capacity(&self) -> usize {
        let handle = self.inner.acquire_read();
        let r = handle.borrow().total_capacity();
        handle.release_read();
        r
    }

    /// Allocated bytes and total capacity read under one lock
    /// acquisition: a consistent snapshot, in which the capacity never
    /// falls below the allocated count — the well-formedness the lock
    /// invariant maintains across every operation.
    pub fn usage(&self) -> (r: (usize, usize))
        ensures
            r.0 <= r.1,
    {
        let handle = self.inner.acquire_read();
        let allocated = handle.borrow().allocated_bytes();
        let capacity = handle.borrow().total_capacity();
        handle.release_read();
        (allocated, capacity)
    }
}

/// Chunk supply for a local arena drawn from a shared [`ArenaSync`]: the
/// local fast path stays private, and only chunk-sized requests touch the
/// shared arena's lock. Handing a region back is at most a tail
/// retraction on the shared chain; local chunks truly flow back only when
/// the shared arena itself is reset.
pub struct SharedSource<'a, S: ChunkSource> {
    /// The shared arena that chunk requests are served from.
    pub shared: &'a ArenaSync,
    /// Source for the shared arena's own slow path.
    pub upstream: S,
    /// Ledger of the regions handed to the local arena and not yet
    /// returned.
    pub loaned: Ghost<Multiset<(Region, usize)>>,
}

impl<'a, S: ChunkSource> SharedSource<'a, S> {
    pub fn new(shared: &'a ArenaSync, upstream: S) -> (r: SharedSource<'a, S>)
        ensures
            r.on_loan() == Multiset::<(Region, usize)>::empty(),
    {
        SharedSource { shared, upstream, loaned: Ghost(Multiset::empty()) }
    }
}

impl<'a, S: ChunkSource> ChunkSource for SharedSource<'a, S> {
    open spec fn on_loan(self) -> Multiset<(Region, usize)> {
        self.loaned@
    }

    fn allocate_region(&mut self, size: usize, align: usize) -> (r: Result<Region, AllocError>) {
        let layout = Layout { size, align };
        let served = match self.shared.alloc_fast(layout) {
            Some(reg) => Ok(reg),
            None => self.shared.alloc_slow(layout, &mut self.upstream),
        };
        match served {
            Ok(reg) => {
                proof {
                    self.loaned@ = self.loaned@.insert((reg, align));
                }
                Ok(reg)
            },
            Err(e) => Err(e),
        }
    }

    fn deallocate_region(&mut self, reg: Region, align: usize) {
        self.shared.dealloc(reg.addr, reg.size);
        proof {
            self.loaned@ = self.loaned@.remove((reg, align));
        }
    }
}

} // verus!
