use blink_alloc::{ArenaLocal, ArenaSync, FreshSource, Layout, Region, SharedSource};

fn layout(size: usize, align: usize) -> Layout {
    Layout::from_size_align(size, align).unwrap()
}

fn allocate(arena: &mut ArenaLocal, source: &mut FreshSource, l: Layout) -> Region {
    match arena.alloc_fast(l) {
        Some(reg) => reg,
        None => arena.alloc_slow(l, source).unwrap(),
    }
}

/// A chunk seeded at 32 bytes serving eleven 3-byte allocations: the
/// first pass reports 35 bytes (33 plus 2 bytes of pre-warm-up tail
/// waste), the retained chunk after a reset holds 96 bytes, and the
/// second pass is exact.
#[test]
fn seeded_chunk_pre_and_post_warmup() {
    let mut arena = ArenaLocal::with_chunk_size(32);
    let mut source = FreshSource::new();
    let l = layout(3, 1);
    for _ in 0..11 {
        allocate(&mut arena, &mut source, l);
    }
    assert_eq!(arena.allocated_bytes(), 35);
    assert_eq!(arena.total_capacity(), 32 + 96);
    arena.reset(true, &mut source);
    assert_eq!(arena.allocated_bytes(), 0);
    assert_eq!(arena.total_capacity(), 96);
    for _ in 0..11 {
        allocate(&mut arena, &mut source, l);
    }
    assert_eq!(arena.allocated_bytes(), 33);
    assert_eq!(arena.total_capacity(), 96);
    arena.reset(false, &mut source);
}

/// A shared arena seeded at 512 bytes feeds a local arena performing the
/// same eleven 3-byte allocations: the local arena builds a 32-byte and
/// a 96-byte chunk, and the shared arena's allocated count is the sum of
/// both chunk regions including their bookkeeping overhead, not 33.
#[test]
fn shared_arena_feeds_local_proxy() {
    let shared = ArenaSync::with_chunk_size(512);
    let mut local = ArenaLocal::with_chunk_size(32);
    let mut source = SharedSource::new(&shared, FreshSource::new());
    let l = layout(3, 1);
    for _ in 0..11 {
        match local.alloc_fast(l) {
            Some(_) => (),
            None => {
                local.alloc_slow(l, &mut source).unwrap();
            },
        }
    }
    assert_eq!(local.last_chunk_size(), 96);
    assert_eq!(local.total_capacity(), 32 + 96);
    assert_eq!(local.allocated_bytes(), 35);
    // Each local chunk costs its capacity plus 32 bytes of bookkeeping.
    assert_eq!(shared.allocated_bytes(), (32 + 32) + (96 + 32));
    local.reset_leak(false);
}

/// Blocks handed out by a run of fast-path allocations from one shared
/// chunk are pairwise disjoint address ranges.
#[test]
fn fast_path_ranges_disjoint() {
    let shared = ArenaSync::with_chunk_size(4096);
    let mut upstream = FreshSource::new();
    let l = layout(24, 8);
    let mut regions: Vec<Region> = Vec::new();
    for _ in 0..64 {
        let reg = match shared.alloc_fast(l) {
            Some(reg) => reg,
            None => shared.alloc_slow(l, &mut upstream).unwrap(),
        };
        regions.push(reg);
    }
    for i in 0..regions.len() {
        for j in 0..regions.len() {
            if i != j {
                let a = regions[i];
                let b = regions[j];
                let disjoint = a.addr + a.size <= b.addr || b.addr + b.size <= a.addr;
                assert!(disjoint, "ranges {} and {} overlap", i, j);
            }
        }
    }
}

/// Deallocating the most recent block retracts exactly its size;
/// deallocating an older block changes nothing.
#[test]
fn tail_dealloc_reclaims_only_newest() {
    let mut arena = ArenaLocal::with_chunk_size(256);
    let mut source = FreshSource::new();
    let a = allocate(&mut arena, &mut source, layout(16, 8));
    let b = allocate(&mut arena, &mut source, layout(24, 8));
    let before = arena.allocated_bytes();
    // Not the most recent block: ignored.
    arena.dealloc(a.addr, a.size);
    assert_eq!(arena.allocated_bytes(), before);
    // The most recent block: reclaimed in full.
    arena.dealloc(b.addr, b.size);
    assert_eq!(arena.allocated_bytes(), before - 24);
    // And again: now `a` is the tail.
    arena.dealloc(a.addr, a.size);
    assert_eq!(arena.allocated_bytes(), before - 24 - 16);
    arena.reset(false, &mut source);
}

/// In-place resize succeeds only on the most recent block: growing
/// advances the cursor by the difference, shrinking retracts it, and an
/// older block cannot be resized in place.
#[test]
fn resize_in_place_on_tail_only() {
    let mut arena = ArenaLocal::with_chunk_size(256);
    let mut source = FreshSource::new();
    let a = allocate(&mut arena, &mut source, layout(16, 8));
    let grown = arena.resize_fast(a.addr, layout(16, 8), layout(40, 8));
    assert_eq!(grown.unwrap().addr, a.addr);
    assert_eq!(arena.allocated_bytes(), 40);
    let shrunk = arena.resize_fast(a.addr, layout(40, 8), layout(8, 8));
    assert_eq!(shrunk.unwrap().addr, a.addr);
    assert_eq!(arena.allocated_bytes(), 8);
    let b = allocate(&mut arena, &mut source, layout(16, 8));
    assert!(b.addr > a.addr);
    // `a` is no longer the newest block: in-place resize must refuse.
    assert!(arena.resize_fast(a.addr, layout(8, 8), layout(32, 8)).is_none());
    arena.reset(false, &mut source);
}

/// The slow path of resize falls back to a fresh block when the chunk
/// cannot grow the tail block in place.
#[test]
fn resize_slow_moves_to_fresh_block() {
    let mut arena = ArenaLocal::with_chunk_size(32);
    let mut source = FreshSource::new();
    let a = allocate(&mut arena, &mut source, layout(24, 8));
    // Growing past the chunk end cannot happen in place.
    assert!(arena.resize_fast(a.addr, layout(24, 8), layout(640, 8)).is_none());
    let moved = arena.resize_slow(a.addr, layout(24, 8), layout(640, 8), &mut source).unwrap();
    assert_eq!(moved.size, 640);
    assert_ne!(moved.addr, a.addr);
    assert!(arena.allocated_bytes() >= 640);
    arena.reset(false, &mut source);
}

/// A retaining reset leaves capacity for reuse and a leaking reset never
/// touches the upstream source.
#[test]
fn reset_leak_keeps_or_drops_everything() {
    let mut arena = ArenaLocal::with_chunk_size(64);
    let mut source = FreshSource::new();
    for _ in 0..10 {
        allocate(&mut arena, &mut source, layout(32, 8));
    }
    arena.reset_leak(true);
    assert_eq!(arena.allocated_bytes(), 0);
    assert!(arena.total_capacity() > 0);
    arena.reset_leak(false);
    assert_eq!(arena.allocated_bytes(), 0);
    assert_eq!(arena.total_capacity(), 0);
}

/// The shared arena's own reset protocol mirrors the local one.
#[test]
fn sync_arena_reset_and_tracking() {
    let mut shared = ArenaSync::new();
    let mut upstream = FreshSource::new();
    let l = layout(8, 8);
    for _ in 0..100 {
        match shared.alloc_fast(l) {
            Some(_) => (),
            None => {
                shared.alloc_slow(l, &mut upstream).unwrap();
            },
        }
    }
    assert!(shared.allocated_bytes() >= 800);
    assert!(shared.total_capacity() >= shared.allocated_bytes());
    shared.reset(true, &mut upstream);
    assert_eq!(shared.allocated_bytes(), 0);
    assert!(shared.total_capacity() > 0);
    shared.reset(false, &mut upstream);
    assert_eq!(shared.allocated_bytes(), 0);
    assert_eq!(shared.total_capacity(), 0);
}

/// The sync arena's in-place resize obeys the same tail discipline.
#[test]
fn sync_resize_fast_tail() {
    let mut shared = ArenaSync::with_chunk_size(256);
    let mut upstream = FreshSource::new();
    let a = match shared.alloc_fast(layout(16, 8)) {
        Some(reg) => reg,
        None => shared.alloc_slow(layout(16, 8), &mut upstream).unwrap(),
    };
    let grown = shared.resize_fast(a.addr, layout(16, 8), layout(48, 8));
    assert_eq!(grown.unwrap().addr, a.addr);
    assert_eq!(shared.allocated_bytes(), 48);
    shared.dealloc(a.addr, 48);
    assert_eq!(shared.allocated_bytes(), 0);
    shared.reset(false, &mut upstream);
}

/// An upstream failure surfaces as an error and leaves the chain intact.
#[test]
fn upstream_failure_leaves_chain_valid() {
    struct FailingSource;

    impl blink_alloc::ChunkSource for FailingSource {
        fn allocate_region(
            &mut self,
            _size: usize,
            _align: usize,
        ) -> Result<Region, blink_alloc::AllocError> {
            Err(blink_alloc::AllocError)
        }

        fn deallocate_region(&mut self, _reg: Region, _align: usize) {
        }
    }

    let mut arena = ArenaLocal::with_chunk_size(32);
    let mut source = FreshSource::new();
    allocate(&mut arena, &mut source, layout(8, 8));
    let before_alloc = arena.allocated_bytes();
    let before_cap = arena.total_capacity();
    let mut failing = FailingSource;
    assert!(arena.alloc_slow(layout(64, 8), &mut failing).is_err());
    assert_eq!(arena.allocated_bytes(), before_alloc);
    assert_eq!(arena.total_capacity(), before_cap);
    arena.reset(false, &mut source);
}

/// A warm pattern replay returns one block per request, in address
/// order, with the exact folded advance reported as allocated.
#[test]
fn pattern_replay_exact_and_ordered() {
    let mut arena = ArenaLocal::with_chunk_size(256);
    let mut source = FreshSource::new();
    // Warm the arena to a single rewound chunk.
    allocate(&mut arena, &mut source, layout(1, 1));
    arena.reset(true, &mut source);
    let pattern = vec![layout(1, 1), layout(8, 8), layout(3, 1), layout(16, 16)];
    let regs = blink_alloc::laws::alloc_pattern_fast(&mut arena, &pattern).unwrap();
    assert_eq!(regs.len(), 4);
    for w in regs.windows(2) {
        assert!(w[0].addr + w[0].size <= w[1].addr);
    }
    // base is 8-aligned: 1 byte, pad to 8 for the u64, 8 bytes, 3 bytes,
    // pad to 16, 16 bytes: 40 bytes in all.
    assert_eq!(arena.allocated_bytes(), 40);
    arena.reset(false, &mut source);
}

/// A snapshot of the shared arena's tracking is internally consistent:
/// capacity dominates the allocated count.
#[test]
fn sync_usage_snapshot_consistent() {
    let mut shared = ArenaSync::with_chunk_size(128);
    let mut upstream = FreshSource::new();
    for _ in 0..40 {
        let l = layout(8, 8);
        match shared.alloc_fast(l) {
            Some(_) => (),
            None => {
                shared.alloc_slow(l, &mut upstream).unwrap();
            },
        }
        let (allocated, capacity) = shared.usage();
        assert!(allocated <= capacity);
    }
    shared.reset(false, &mut upstream);
}

/// Even a zero-sized first request on a zero-seeded arena leaves a
/// nonempty chunk behind, so a retaining reset always keeps capacity.
#[test]
fn retaining_reset_keeps_positive_capacity() {
    let mut arena = ArenaLocal::with_chunk_size(0);
    let mut source = FreshSource::new();
    allocate(&mut arena, &mut source, layout(0, 1));
    arena.reset(true, &mut source);
    assert_eq!(arena.allocated_bytes(), 0);
    assert!(arena.total_capacity() > 0);
    arena.reset(false, &mut source);
}

/// Replaying the same pattern after a retaining reset reproduces the
/// same blocks, the same allocated count and the same capacity.
#[test]
fn pattern_replay_reproducible_after_reset() {
    let mut arena = ArenaLocal::with_chunk_size(256);
    let mut source = FreshSource::new();
    allocate(&mut arena, &mut source, layout(1, 1));
    arena.reset(true, &mut source);
    let pattern = vec![layout(3, 1), layout(8, 8), layout(1, 1), layout(16, 16)];
    let first = blink_alloc::laws::alloc_pattern_fast(&mut arena, &pattern).unwrap();
    let first_allocated = arena.allocated_bytes();
    let cap_before = arena.total_capacity();
    arena.reset(true, &mut source);
    let second = blink_alloc::laws::alloc_pattern_fast(&mut arena, &pattern).unwrap();
    assert_eq!(first, second);
    assert_eq!(arena.allocated_bytes(), first_allocated);
    assert_eq!(arena.total_capacity(), cap_before);
    arena.reset(false, &mut source);
}
