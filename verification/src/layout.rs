//! Size/alignment requests, as plain values.

use vstd::prelude::*;

verus! {

/// Whether `n` is a power of two.
pub open spec fn is_pow2(n: int) -> bool
    decreases n,
{
    if n <= 0 {
        false
    } else if n == 1 {
        true
    } else {
        n % 2 == 0 && is_pow2(n / 2)
    }
}

/// A size/alignment pair describing one allocation request.
///
/// The alignment is a power of two and the size is small enough that
/// rounding it up to the alignment cannot overflow an address.
#[derive(Clone, Copy, Debug)]
pub struct Layout {
    pub size: usize,
    pub align: usize,
}

impl Layout {
    pub open spec fn wf(self) -> bool {
        &&& is_pow2(self.align as int)
        &&& self.size + self.align <= usize::MAX
    }

    pub open spec fn spec_size(self) -> int {
        self.size as int
    }

    pub open spec fn spec_align(self) -> int {
        self.align as int
    }

    /// Builds a layout, rejecting alignments that are not powers of two
    /// and sizes so large that aligning them could overflow an address.
    pub fn from_size_align(size: usize, align: usize) -> (r: Option<Layout>)
        ensures
            match r {
                Some(l) => l.wf() && l.spec_size() == size && l.spec_align() == align,
                None => !(is_pow2(align as int) && size + align <= usize::MAX),
            },
    {
        if align == 0 {
            return None;
        }
        if size > usize::MAX - align {
            return None;
        }
        // Walk the powers of two up to `align` to decide whether it is one.
        let mut p: usize = 1;
        while p < align
            invariant
                1 <= p <= align,
                is_pow2(p as int),
            decreases align - p,
        {
            if p > align / 2 {
                proof {
                    lemma_pow2_no_between(p as int, align as int);
                }
                return None;
            }
            p = p * 2;
        }
        Some(Layout { size, align })
    }

    pub fn size(&self) -> (r: usize)
        ensures
            r == self.spec_size(),
    {
        self.size
    }

    pub fn align(&self) -> (r: usize)
        ensures
            r == self.spec_align(),
    {
        self.align
    }
}

/// There is no power of two strictly between a power of two `p` and `2 * p`.
pub proof fn lemma_pow2_no_between(p: int, n: int)
    requires
        is_pow2(p),
        p < n,
        n < 2 * p,
    ensures
        !is_pow2(n),
    decreases p,
{
    if is_pow2(n) {
        assert(n > 1);
        assert(p > 1) by {
            if p == 1 {
                assert(n < 2);
            }
        }
        assert(n % 2 == 0 && is_pow2(n / 2));
        assert(p % 2 == 0 && is_pow2(p / 2));
        lemma_pow2_no_between(p / 2, n / 2);
    }
}

} // verus!
