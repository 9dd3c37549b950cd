//! One chunk of the arena: a contiguous address region with a bump cursor,
//! linked to the chunk allocated before it.

use vstd::prelude::*;
use vstd::multiset::Multiset;
use vstd::arithmetic::div_mod::{
    lemma_add_mod_noop, lemma_fundamental_div_mod, lemma_mod_division_less_than_divisor,
    lemma_mod_multiples_basic, lemma_mod_self_0, lemma_small_mod,
};
use crate::layout::{is_pow2, Layout};

verus! {

/// Bytes of bookkeeping at the front of every upstream region: room
/// for a cursor, an end bound, a back link and a cumulative size.
pub const CHUNK_HEADER_SIZE: usize = 32;

/// Alignment of a chunk region, and therefore of every chunk base.
pub const CHUNK_ALIGN: usize = 8;

/// An address range handed out by the arena.
#[derive(Clone, Copy, Debug, PartialEq, Eq, Structural)]
pub struct Region {
    pub addr: usize,
    pub size: usize,
}

/// Failure to obtain memory from the upstream source.
#[derive(Clone, Copy, Debug, PartialEq, Eq, Structural)]
pub struct AllocError;

/// Distance from `addr` up to the next multiple of `align`.
pub open spec fn align_pad(addr: int, align: int) -> int {
    (align - addr % align) % align
}

/// `addr` rounded up to the next multiple of `align`.
pub open spec fn align_up(addr: int, align: int) -> int {
    addr + align_pad(addr, align)
}

/// The padding is less than `align`, lands on a multiple of `align`,
/// and vanishes when `addr` is already aligned.
pub proof fn lemma_align_up(addr: int, align: int)
    requires
        addr >= 0,
        align >= 1,
    ensures
        0 <= align_pad(addr, align) < align,
        align_up(addr, align) % align == 0,
        align_pad(addr, align) == if addr % align == 0 {
            0int
        } else {
            align - addr % align
        },
{
    let r = addr % align;
    lemma_mod_division_less_than_divisor(addr, align);
    if r == 0 {
        lemma_mod_self_0(align);
        assert(align_pad(addr, align) == 0);
    } else {
        lemma_small_mod((align - r) as nat, align as nat);
        assert(align_pad(addr, align) == align - r);
        lemma_add_mod_noop(addr, align - r, align);
        lemma_mod_self_0(align);
    }
}

/// A power of two no larger than eight divides every multiple of eight.
pub proof fn lemma_base_aligned(base: int, align: int)
    requires
        base >= 0,
        base % 8 == 0,
        is_pow2(align),
        align <= 8,
    ensures
        base % align == 0,
{
    reveal_with_fuel(is_pow2, 5);
    assert(align == 1 || align == 2 || align == 4 || align == 8);
    let k = base / 8;
    lemma_fundamental_div_mod(base, 8);
    assert(base == 8 * k);
    if align == 1 {
        lemma_mod_multiples_basic(base, 1);
    } else if align == 2 {
        lemma_mod_multiples_basic(4 * k, 2);
        assert(2 * (4 * k) == base);
    } else if align == 4 {
        lemma_mod_multiples_basic(2 * k, 4);
        assert(4 * (2 * k) == base);
    } else {
        lemma_mod_multiples_basic(k, 8);
    }
}

/// One contiguous region with a bump cursor, owning the chunk that was
/// the arena's newest before this one.
pub struct Chunk {
    /// Address of the first usable byte, just past the chunk bookkeeping.
    pub base: usize,
    /// Usable bytes between `base` and the end bound.
    pub cap: usize,
    /// Address of the next free byte.
    pub cursor: usize,
    /// Sum of the capacities of all older chunks in the chain.
    pub cumulative: usize,
    /// The chunk allocated immediately before this one.
    pub prev: Option<Box<Chunk>>,
}

impl Chunk {
    pub open spec fn end(self) -> int {
        self.base + self.cap
    }

    /// Bytes consumed in this chunk so far.
    pub open spec fn used(self) -> int {
        self.cursor - self.base
    }

    pub open spec fn wf(self) -> bool
        decreases self,
    {
        &&& CHUNK_HEADER_SIZE < self.base
        &&& self.base as int % CHUNK_ALIGN as int == 0
        &&& 1 <= self.cap
        &&& self.base + self.cap <= usize::MAX
        &&& self.base <= self.cursor <= self.base + self.cap
        &&& self.cumulative + self.cap <= usize::MAX
        &&& match self.prev {
            None => self.cumulative == 0,
            Some(p) => p.wf() && self.cumulative == p.cumulative + p.cap,
        }
    }

    /// The full upstream region this chunk lives in: its usable bytes
    /// plus the bookkeeping in front of them, exactly as it was
    /// requested from the source at creation.
    pub open spec fn region(self) -> Region {
        Region {
            addr: (self.base - CHUNK_HEADER_SIZE) as usize,
            size: (self.cap + CHUNK_HEADER_SIZE) as usize,
        }
    }

    /// The bookkeeping fields untouched by cursor movement.
    pub open spec fn same_frame(self, other: Chunk) -> bool {
        &&& self.base == other.base
        &&& self.cap == other.cap
        &&& self.cumulative == other.cumulative
        &&& self.prev == other.prev
    }

    /// Fast-path bump allocation: advance the cursor to the next address
    /// satisfying `layout`, if the block still fits before the end bound.
    /// `None` is not an error but the signal to take the slow path.
    pub fn bump(&mut self, layout: Layout) -> (r: Option<Region>)
        requires
            old(self).wf(),
            layout.wf(),
        ensures
            final(self).same_frame(*old(self)),
            final(self).wf(),
            match r {
                Some(reg) => {
                    &&& reg.addr == align_up(old(self).cursor as int, layout.align as int)
                    &&& reg.size == layout.size
                    &&& reg.addr as int % layout.align as int == 0
                    &&& old(self).cursor <= reg.addr
                    &&& reg.addr + reg.size == final(self).cursor
                    &&& final(self).cursor <= final(self).end()
                },
                None => {
                    &&& final(self).cursor == old(self).cursor
                    &&& align_up(old(self).cursor as int, layout.align as int) + layout.size
                        > old(self).end()
                },
            },
    {
        proof {
            assert(layout.align >= 1);
            lemma_align_up(self.cursor as int, layout.align as int);
        }
        let end = self.base + self.cap;
        let rem = self.cursor % layout.align;
        let pad = if rem == 0 {
            0
        } else {
            layout.align - rem
        };
        if pad > end - self.cursor {
            return None;
        }
        let aligned = self.cursor + pad;
        if layout.size > end - aligned {
            return None;
        }
        self.cursor = aligned + layout.size;
        Some(Region { addr: aligned, size: layout.size })
    }

    /// Fast-path in-place resize: succeeds only when `addr` is the most
    /// recently allocated block (its end is exactly the cursor) and the
    /// new extent still fits; the cursor then moves to the new end,
    /// growing or retracting without a copy.
    pub fn resize(&mut self, addr: usize, old_layout: Layout, new_layout: Layout) -> (r: Option<
        Region,
    >)
        requires
            old(self).wf(),
            old_layout.wf(),
            new_layout.wf(),
        ensures
            final(self).same_frame(*old(self)),
            final(self).wf(),
            match r {
                Some(reg) => {
                    &&& addr + old_layout.size == old(self).cursor
                    &&& old(self).base <= addr
                    &&& addr as int % new_layout.align as int == 0
                    &&& reg.addr == addr
                    &&& reg.size == new_layout.size
                    &&& final(self).cursor == addr + new_layout.size
                    &&& final(self).cursor <= final(self).end()
                },
                None => {
                    &&& final(self).cursor == old(self).cursor
                    &&& !({
                        &&& addr + old_layout.size == old(self).cursor
                        &&& old(self).base <= addr
                        &&& addr as int % new_layout.align as int == 0
                        &&& addr + new_layout.size <= old(self).end()
                    })
                },
            },
    {
        proof {
            assert(new_layout.align >= 1);
        }
        if old_layout.size > self.cursor {
            return None;
        }
        let start = self.cursor - old_layout.size;
        if start != addr || addr < self.base {
            return None;
        }
        if addr % new_layout.align != 0 {
            return None;
        }
        let end = self.base + self.cap;
        if new_layout.size > end - addr {
            return None;
        }
        self.cursor = addr + new_layout.size;
        Some(Region { addr, size: new_layout.size })
    }

    /// Tail reclamation: retract the cursor if and only if `addr..addr+size`
    /// is exactly the most recently allocated block; any other free is
    /// silently ignored.
    pub fn dealloc(&mut self, addr: usize, size: usize)
        requires
            old(self).wf(),
        ensures
            final(self).same_frame(*old(self)),
            final(self).wf(),
            if addr + size == old(self).cursor && old(self).base <= addr {
                final(self).cursor == addr
            } else {
                final(self).cursor == old(self).cursor
            },
    {
        if size > self.cursor {
            return ;
        }
        let start = self.cursor - size;
        if start == addr && addr >= self.base {
            self.cursor = addr;
        }
    }
}

/// The upstream regions of `link` and every older chunk in its chain,
/// each with the alignment it was requested at: what the chain still
/// holds on loan from its source.
pub open spec fn chain_loans(link: Option<Box<Chunk>>) -> Multiset<(Region, usize)>
    decreases link,
{
    match link {
        None => Multiset::empty(),
        Some(c) => chain_loans(c.prev).insert((c.region(), CHUNK_ALIGN)),
    }
}

} // verus!
