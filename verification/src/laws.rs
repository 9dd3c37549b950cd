//! General laws of the arena, stated over the same spec model that the
//! operation contracts use.

use vstd::prelude::*;
use crate::chunk::{align_up, lemma_align_up, Chunk, Region};
use crate::layout::Layout;
use crate::local::ArenaLocal;

verus! {

/// The cursor after serving one request from `cursor`: aligned up, then
/// advanced by the requested size. This is exactly the advance that
/// [`ArenaLocal::alloc_fast`] promises for each successful call.
pub open spec fn bump_cursor(cursor: int, l: Layout) -> int {
    align_up(cursor, l.align as int) + l.size
}

/// The cursor after serving `pattern` in order from `cursor`.
pub open spec fn bump_all(cursor: int, pattern: Seq<Layout>) -> int
    decreases pattern.len(),
{
    if pattern.len() == 0 {
        cursor
    } else {
        bump_all(bump_cursor(cursor, pattern[0]), pattern.drop_first())
    }
}

/// Every request of `pattern`, served in order from `cursor`, stays
/// within `end`.
pub open spec fn pattern_fits(cursor: int, pattern: Seq<Layout>, end: int) -> bool
    decreases pattern.len(),
{
    if pattern.len() == 0 {
        true
    } else {
        bump_cursor(cursor, pattern[0]) <= end && pattern_fits(
            bump_cursor(cursor, pattern[0]),
            pattern.drop_first(),
            end,
        )
    }
}

/// One step never moves the cursor backwards, and pads by less than the
/// requested alignment.
pub proof fn lemma_bump_cursor_bounds(cursor: int, l: Layout)
    requires
        cursor >= 0,
        l.wf(),
    ensures
        cursor + l.size <= bump_cursor(cursor, l) < cursor + l.align + l.size,
{
    assert(l.align >= 1);
    lemma_align_up(cursor, l.align as int);
}

/// A whole pattern never moves the cursor backwards.
pub proof fn lemma_bump_all_monotonic(cursor: int, pattern: Seq<Layout>)
    requires
        cursor >= 0,
        forall|i: int| 0 <= i < pattern.len() ==> #[trigger] pattern[i].wf(),
    ensures
        cursor <= bump_all(cursor, pattern),
    decreases pattern.len(),
{
    if pattern.len() > 0 {
        lemma_bump_cursor_bounds(cursor, pattern[0]);
        assert(pattern.drop_first().len() == pattern.len() - 1);
        assert forall|i: int|
            0 <= i < pattern.drop_first().len() implies #[trigger] pattern.drop_first()[i].wf() by {
            assert(pattern.drop_first()[i] == pattern[i + 1]);
        }
        lemma_bump_all_monotonic(bump_cursor(cursor, pattern[0]), pattern.drop_first());
    }
}

/// Serving one more request after a pattern is the same as folding the
/// longer pattern: the fold grows one step at a time.
pub proof fn lemma_bump_all_snoc(cursor: int, pattern: Seq<Layout>, l: Layout)
    ensures
        bump_all(cursor, pattern.push(l)) == bump_cursor(bump_all(cursor, pattern), l),
    decreases pattern.len(),
{
    let p2 = pattern.push(l);
    assert(p2.len() == pattern.len() + 1);
    assert(bump_all(cursor, p2) == bump_all(bump_cursor(cursor, p2[0]), p2.drop_first()));
    if pattern.len() == 0 {
        assert(p2[0] == l);
        assert(p2.drop_first() =~= pattern);
        assert(bump_all(cursor, pattern) == cursor);
        assert(bump_all(bump_cursor(cursor, l), p2.drop_first()) == bump_cursor(cursor, l));
    } else {
        assert(p2[0] == pattern[0]);
        assert(p2.drop_first() =~= pattern.drop_first().push(l));
        lemma_bump_all_snoc(bump_cursor(cursor, pattern[0]), pattern.drop_first(), l);
        assert(bump_all(cursor, pattern) == bump_all(
            bump_cursor(cursor, pattern[0]),
            pattern.drop_first(),
        ));
    }
}

/// Law (stabilization): the cursor only ever moves forward, so if the
/// whole pattern's folded advance lands within the chunk, every
/// intermediate step does too. A retained chunk whose capacity covers
/// the fold therefore serves the pattern entirely on the fast path, and
/// with [`ArenaLocal::alloc_fast`]'s contract the capacity no longer
/// changes from cycle to cycle.
pub proof fn lemma_final_fit_fits_throughout(cursor: int, pattern: Seq<Layout>, end: int)
    requires
        cursor >= 0,
        forall|i: int| 0 <= i < pattern.len() ==> #[trigger] pattern[i].wf(),
        bump_all(cursor, pattern) <= end,
    ensures
        pattern_fits(cursor, pattern, end),
    decreases pattern.len(),
{
    if pattern.len() > 0 {
        let c1 = bump_cursor(cursor, pattern[0]);
        lemma_bump_cursor_bounds(cursor, pattern[0]);
        assert forall|i: int|
            0 <= i < pattern.drop_first().len() implies #[trigger] pattern.drop_first()[i].wf() by {
            assert(pattern.drop_first()[i] == pattern[i + 1]);
        }
        lemma_bump_all_monotonic(c1, pattern.drop_first());
        assert(bump_all(cursor, pattern) == bump_all(c1, pattern.drop_first()));
        lemma_final_fit_fits_throughout(c1, pattern.drop_first(), end);
    }
}

/// Law (exact warm tracking, fast path suffices): on a chunk that fits
/// `pattern` from its current cursor, every single step of the pattern
/// meets the fast path's success condition — no step spills to the slow
/// path. Combined with the contract of [`ArenaLocal::alloc_fast`], a
/// warm (single-chunk) replay therefore leaves the capacity untouched
/// and raises the allocated count by exactly the fold of aligned, padded
/// advances, `bump_all(cursor, pattern) - cursor`.
pub proof fn lemma_warm_pattern_fast_path(c: Chunk, pattern: Seq<Layout>, i: int)
    requires
        c.wf(),
        pattern_fits(c.cursor as int, pattern, c.end()),
        0 <= i < pattern.len(),
    ensures
        align_up(bump_all(c.cursor as int, pattern.take(i)), pattern[i].align as int)
            + pattern[i].size <= c.end(),
{
    lemma_fits_prefix_step(c.cursor as int, pattern, c.end(), i);
}

/// Unfolds `pattern_fits` at one position: the cursor reached after any
/// prefix still accommodates the next request.
proof fn lemma_fits_prefix_step(cursor: int, pattern: Seq<Layout>, end: int, i: int)
    requires
        pattern_fits(cursor, pattern, end),
        0 <= i < pattern.len(),
    ensures
        bump_cursor(bump_all(cursor, pattern.take(i)), pattern[i]) <= end,
    decreases i,
{
    if i == 0 {
        assert(pattern.take(0) =~= Seq::<Layout>::empty());
    } else {
        let c1 = bump_cursor(cursor, pattern[0]);
        lemma_fits_prefix_step(c1, pattern.drop_first(), end, i - 1);
        assert(pattern.drop_first().take(i - 1) =~= pattern.take(i).drop_first());
        assert(pattern.drop_first()[i - 1] == pattern[i]);
        assert(bump_all(cursor, pattern.take(i)) == bump_all(c1, pattern.take(i).drop_first()));
    }
}

/// Law: the capacity of a well-formed chain never drops below its
/// allocated count, whatever operations produced it.
pub proof fn lemma_capacity_dominates_allocated(a: ArenaLocal)
    requires
        a.wf(),
    ensures
        a.allocated() <= a.capacity(),
{
}

/// Law (warm replay is reproducible): two arenas left by a retaining
/// reset of the same chunk — rewound cursor, cleared cumulative count,
/// same bounds — serve any pattern identically: the fold of advances,
/// and with it the allocated count the replay produces, agrees, and so
/// does the capacity.
pub proof fn lemma_retaining_reset_reproducible(
    a1: ArenaLocal,
    a2: ArenaLocal,
    pattern: Seq<Layout>,
)
    requires
        a1.wf(),
        a2.wf(),
        a1.has_root(),
        a2.has_root(),
        a1.root_chunk().cursor == a1.root_chunk().base,
        a2.root_chunk().cursor == a2.root_chunk().base,
        a1.root_chunk().cumulative == 0,
        a2.root_chunk().cumulative == 0,
        a1.root_chunk().base == a2.root_chunk().base,
        a1.root_chunk().cap == a2.root_chunk().cap,
    ensures
        bump_all(a1.root_chunk().cursor as int, pattern) - a1.root_chunk().base == bump_all(
            a2.root_chunk().cursor as int,
            pattern,
        ) - a2.root_chunk().base,
        a1.allocated() == a2.allocated(),
        a1.capacity() == a2.capacity(),
{
}

/// Serves a whole pattern of requests from the fast path alone, giving
/// up (`None`) as soon as one does not fit the current chunk.
///
/// The contract is the sequence form of the arena laws: a successful
/// replay raises the allocated count by exactly the fold of aligned,
/// padded advances over the pattern (exact warm tracking), leaves the
/// capacity untouched (no upstream contact), and the returned blocks
/// are pairwise disjoint, handed out in address order.
pub fn alloc_pattern_fast(arena: &mut ArenaLocal, pattern: &Vec<Layout>) -> (r: Option<
    Vec<Region>,
>)
    requires
        old(arena).wf(),
        forall|i: int| 0 <= i < pattern@.len() ==> (#[trigger] pattern@[i]).wf(),
    ensures
        final(arena).wf(),
        final(arena).min_chunk_size == old(arena).min_chunk_size,
        final(arena).capacity() == old(arena).capacity(),
        final(arena).has_root() == old(arena).has_root(),
        final(arena).has_root() ==> final(arena).root_chunk().same_frame(
            old(arena).root_chunk(),
        ),
        old(arena).has_root() && pattern_fits(
            old(arena).root_chunk().cursor as int,
            pattern@,
            old(arena).root_chunk().end(),
        ) ==> r is Some,
        match r {
            Some(regs) => {
                &&& regs@.len() == pattern@.len()
                &&& final(arena).allocated() == old(arena).allocated() + (bump_all(
                    old(arena).root_chunk().cursor as int,
                    pattern@,
                ) - old(arena).root_chunk().cursor)
                &&& forall|k: int|
                    0 <= k < regs@.len() ==> (#[trigger] regs@[k]).size == pattern@[k].size
                &&& forall|k: int|
                    0 <= k < regs@.len() ==> (#[trigger] regs@[k]).addr == align_up(
                        bump_all(old(arena).root_chunk().cursor as int, pattern@.take(k)),
                        pattern@[k].align as int,
                    )
                &&& forall|k: int, j: int|
                    0 <= k < j < regs@.len() ==> (#[trigger] regs@[k]).addr + regs@[k].size
                        <= (#[trigger] regs@[j]).addr
            },
            None => true,
        },
{
    let ghost a0 = *arena;
    let ghost c0 = a0.root_chunk().cursor as int;
    let mut regs: Vec<Region> = Vec::new();
    let mut i: usize = 0;
    while i < pattern.len()
        invariant
            a0 == *old(arena),
            c0 == a0.root_chunk().cursor as int,
            arena.wf(),
            i <= pattern@.len(),
            regs@.len() == i,
            forall|k: int| 0 <= k < pattern@.len() ==> (#[trigger] pattern@[k]).wf(),
            arena.min_chunk_size == a0.min_chunk_size,
            arena.capacity() == a0.capacity(),
            arena.has_root() == a0.has_root(),
            arena.has_root() ==> arena.root_chunk().same_frame(a0.root_chunk()),
            arena.has_root() ==> arena.root_chunk().cursor as int == bump_all(
                c0,
                pattern@.take(i as int),
            ),
            !arena.has_root() ==> i == 0,
            forall|k: int|
                0 <= k < i ==> (#[trigger] regs@[k]).addr == align_up(
                    bump_all(c0, pattern@.take(k)),
                    pattern@[k].align as int,
                ),
            arena.allocated() == a0.allocated() + (bump_all(c0, pattern@.take(i as int)) - c0),
            forall|k: int| 0 <= k < i ==> (#[trigger] regs@[k]).size == pattern@[k].size,
            arena.has_root() ==> forall|k: int|
                0 <= k < i ==> (#[trigger] regs@[k]).addr + regs@[k].size
                    <= arena.root_chunk().cursor,
            forall|k: int, j: int|
                0 <= k < j < i ==> (#[trigger] regs@[k]).addr + regs@[k].size
                    <= (#[trigger] regs@[j]).addr,
        decreases pattern@.len() - i,
    {
        let l = pattern[i];
        match arena.alloc_fast(l) {
            None => {
                proof {
                    if a0.has_root() && pattern_fits(c0, pattern@, a0.root_chunk().end()) {
                        lemma_fits_prefix_step(c0, pattern@, a0.root_chunk().end(), i as int);
                        assert(false);
                    }
                }
                return None;
            },
            Some(reg) => {
                proof {
                    lemma_bump_all_snoc(c0, pattern@.take(i as int), l);
                    assert(pattern@.take(i as int).push(l) =~= pattern@.take(i as int + 1));
                }
                regs.push(reg);
                i = i + 1;
            },
        }
    }
    proof {
        assert(pattern@.take(pattern@.len() as int) =~= pattern@);
    }
    Some(regs)
}

/// Law (no overlapping blocks): under the cursor discipline that the
/// allocation contracts pin — each block starts at the aligned cursor
/// and the cursor moves to its end — the next block begins at or after
/// the end of the one before, so no two blocks ever share a byte.
pub proof fn lemma_consecutive_blocks_disjoint(cursor: int, l1: Layout, l2: Layout)
    requires
        cursor >= 0,
        l1.wf(),
        l2.wf(),
    ensures
        ({
            let first_start = align_up(cursor, l1.align as int);
            let first_end = first_start + l1.size;
            let second_start = align_up(first_end, l2.align as int);
            first_end <= second_start
        }),
{
    assert(l1.align >= 1);
    assert(l2.align >= 1);
    lemma_align_up(cursor, l1.align as int);
    lemma_align_up(align_up(cursor, l1.align as int) + l1.size, l2.align as int);
}

} // verus!
