//! The slow-path growth policy: how large the next chunk is.
//!
//! A new chunk's capacity starts from the total of everything allocated so
//! far plus the larger of the configured minimum and the triggering request,
//! and is then rounded so that capacity plus bookkeeping overhead is a power
//! of two. Each new chunk therefore roughly doubles the arena, keeping the
//! number of upstream requests logarithmic, while the full upstream region
//! stays friendly to size-class allocators.

use vstd::prelude::*;
use crate::layout::{is_pow2, Layout};
use crate::chunk::{AllocError, CHUNK_ALIGN, CHUNK_HEADER_SIZE};

verus! {

/// The smallest power of two that is at least `n` (and at least one).
pub open spec fn pow2_ceil(n: int) -> int
    decreases n,
{
    if n <= 1 {
        1
    } else {
        2 * pow2_ceil((n + 1) / 2)
    }
}

/// `pow2_ceil` yields a power of two, at least `n`, and less than `2 * n`.
pub proof fn lemma_pow2_ceil_props(n: int)
    requires
        n >= 1,
    ensures
        is_pow2(pow2_ceil(n)),
        pow2_ceil(n) >= n,
        n >= 2 ==> pow2_ceil(n) <= 2 * n - 2,
    decreases n,
{
    if n >= 2 {
        let m = (n + 1) / 2;
        lemma_pow2_ceil_props(m);
        assert(pow2_ceil(n) == 2 * pow2_ceil(m));
        if m >= 2 {
            assert(pow2_ceil(m) <= 2 * m - 2);
            assert(2 * m <= n + 1);
        } else {
            assert(pow2_ceil(m) == 1);
        }
    }
}

/// No smaller power of two reaches `n`: `pow2_ceil` is minimal.
pub proof fn lemma_pow2_ceil_min(n: int, q: int)
    requires
        n >= 1,
        is_pow2(q),
        q >= n,
    ensures
        q >= pow2_ceil(n),
    decreases n,
{
    if n >= 2 {
        let m = (n + 1) / 2;
        assert(q >= 2);
        assert(q % 2 == 0 && is_pow2(q / 2));
        lemma_pow2_ceil_min(m, q / 2);
    }
}

/// Smallest power of two at least `n`, or an error where rounding up would
/// pass a quarter of the address space (a request that large cannot be
/// served anyway).
pub fn next_pow2(n: usize) -> (r: Result<usize, AllocError>)
    requires
        n >= 1,
    ensures
        match r {
            Ok(p) => p == pow2_ceil(n as int) && n <= p && p <= usize::MAX / 2 + 1 && n
                <= usize::MAX / 4 + 1,
            Err(_) => n > usize::MAX / 4 + 1,
        },
{
    proof {
        lemma_pow2_ceil_props(n as int);
    }
    if n > usize::MAX / 4 + 1 {
        return Err(AllocError);
    }
    let mut p: usize = 1;
    while p < n
        invariant
            1 <= p,
            n <= usize::MAX / 4 + 1,
            is_pow2(p as int),
            p <= pow2_ceil(n as int),
        decreases pow2_ceil(n as int) - p,
    {
        proof {
            lemma_pow2_ceil_props(n as int);
            // p < n <= pow2_ceil(n), both powers of two, so 2 * p still fits.
            if 2 * p > pow2_ceil(n as int) {
                crate::layout::lemma_pow2_no_between(p as int, pow2_ceil(n as int));
            }
        }
        p = p * 2;
    }
    proof {
        lemma_pow2_ceil_min(n as int, p as int);
    }
    Ok(p)
}

/// Capacity of the next chunk: enough for `layout` even in the worst
/// alignment case, at least the configured minimum, on top of everything
/// the arena already holds, rounded as the policy asks.
pub open spec fn grow_cap(min_chunk_size: int, prev_total: int, layout: Layout) -> int {
    pow2_ceil(prev_total + grow_floor(min_chunk_size, layout) + CHUNK_HEADER_SIZE)
        - CHUNK_HEADER_SIZE
}

/// The part of the new capacity that the triggering request dictates,
/// and at least one byte, so that a chunk is never empty and a retained
/// chunk always leaves capacity behind.
pub open spec fn grow_floor(min_chunk_size: int, layout: Layout) -> int {
    let needed = if layout.align <= CHUNK_ALIGN {
        layout.size as int
    } else {
        layout.size + layout.align
    };
    let req = if min_chunk_size >= needed {
        min_chunk_size
    } else {
        needed
    };
    if req >= 1 {
        req
    } else {
        1
    }
}

/// Computes `grow_cap`, reporting an error where the arithmetic would
/// leave the address space.
pub fn chunk_capacity(min_chunk_size: usize, prev_total: usize, layout: Layout) -> (r: Result<
    usize,
    AllocError,
>)
    requires
        layout.wf(),
    ensures
        match r {
            Ok(cap) => {
                &&& cap == grow_cap(min_chunk_size as int, prev_total as int, layout)
                &&& cap >= grow_floor(min_chunk_size as int, layout)
                &&& cap >= prev_total
                &&& cap + CHUNK_HEADER_SIZE <= usize::MAX / 2 + 1
                &&& is_pow2(cap + CHUNK_HEADER_SIZE)
                &&& prev_total + grow_floor(min_chunk_size as int, layout) + CHUNK_HEADER_SIZE
                    <= usize::MAX / 4 + 1
            },
            Err(_) => prev_total + grow_floor(min_chunk_size as int, layout) + CHUNK_HEADER_SIZE
                > usize::MAX / 4 + 1,
        },
{
    let needed = if layout.align <= CHUNK_ALIGN {
        layout.size
    } else {
        layout.size + layout.align
    };
    let req = if min_chunk_size >= needed {
        min_chunk_size
    } else {
        needed
    };
    let floor = if req >= 1 {
        req
    } else {
        1
    };
    if floor > usize::MAX - prev_total {
        return Err(AllocError);
    }
    let target = prev_total + floor;
    if target > usize::MAX - CHUNK_HEADER_SIZE {
        return Err(AllocError);
    }
    let total = target + CHUNK_HEADER_SIZE;
    let pow = match next_pow2(total) {
        Ok(p) => p,
        Err(e) => {
            return Err(e);
        },
    };
    proof {
        lemma_pow2_ceil_props(total as int);
    }
    Ok(pow - CHUNK_HEADER_SIZE)
}

} // verus!
