//! Page rounding and powers of two.
use crate::config::PAGE_SIZE;
use vstd::arithmetic::power2::{lemma2_to64, pow2};
use vstd::prelude::*;

verus! {

/// `size` rounded up to whole pages.
pub open spec fn page_aligned(size: int) -> int {
    (size + PAGE_SIZE - 1) / (PAGE_SIZE as int) * PAGE_SIZE
}

/// The page-rounded size is the least multiple of the page size that is not
/// below `size`.
pub proof fn page_aligned_is_least_multiple(size: int)
    ensures
        page_aligned(size) % (PAGE_SIZE as int) == 0,
        size <= page_aligned(size) < size + PAGE_SIZE,
{
}

/// Rounds a size up to whole pages.
pub fn align_up_page(size: usize) -> (res: usize)
    requires
        size + PAGE_SIZE - 1 <= usize::MAX,
    ensures
        res == page_aligned(size as int),
{
    (size + (PAGE_SIZE - 1)) / PAGE_SIZE * PAGE_SIZE
}

/// `n` is a power of two.
pub open spec fn is_pow2(n: u16) -> bool {
    exists|k: nat| k < 16 && n == #[trigger] pow2(k)
}

/// The sixteen powers of two of sixteen bits, one by one.
pub(crate) proof fn lemma_pow2_cases(n: u16)
    ensures
        is_pow2(n) <==> (n == 1 || n == 2 || n == 4 || n == 8 || n == 16 || n == 32 || n == 64 || n
            == 128 || n == 256 || n == 512 || n == 1024 || n == 2048 || n == 4096 || n == 8192 || n
            == 16384 || n == 32768),
{
    lemma2_to64();
    if is_pow2(n) {
        let k = choose|k: nat| k < 16 && n == #[trigger] pow2(k);
        assert(k == 0 || k == 1 || k == 2 || k == 3 || k == 4 || k == 5 || k == 6 || k == 7 || k
            == 8 || k == 9 || k == 10 || k == 11 || k == 12 || k == 13 || k == 14 || k == 15);
    }
}

/// Whether `n` is a power of two.
pub fn is_power_of_two(n: u16) -> (res: bool)
    ensures
        res == is_pow2(n),
{
    proof {
        lemma_pow2_cases(n);
        assert((n != 0 && n & ((n - 1) as u16) == 0) <==> (n == 1 || n == 2 || n == 4 || n == 8 || n
            == 16 || n == 32 || n == 64 || n == 128 || n == 256 || n == 512 || n == 1024 || n
            == 2048 || n == 4096 || n == 8192 || n == 16384 || n == 32768)) by (bit_vector);
    }
    n != 0 && n & (n - 1) == 0
}

/// Masking with a power of two less one is the remainder.
pub(crate) proof fn lemma_mask_is_mod(x: u16, n: u16)
    requires
        is_pow2(n),
    ensures
        n > 0,
        x & ((n - 1) as u16) == x % n,
        x % n < n,
{
    lemma_pow2_cases(n);
    assert(x & ((n - 1) as u16) == x % n && x % n < n && n > 0) by (bit_vector)
        requires
            n == 1 || n == 2 || n == 4 || n == 8 || n == 16 || n == 32 || n == 64 || n == 128 || n
                == 256 || n == 512 || n == 1024 || n == 2048 || n == 4096 || n == 8192 || n == 16384
                || n == 32768,
    ;
}

} // verus!
