//! Integer square roots, rounded quotients, and the cells that
//! coordinates fall in.

use vstd::prelude::*;

verus! {

/// Whether `r` is the square root of `n` rounded down.
pub open spec fn is_sqrt(n: int, r: int) -> bool {
    0 <= r && r * r <= n < (r + 1) * (r + 1)
}

/// The square root of `n` rounded down to a whole number.
pub open spec fn isqrt(n: int) -> int {
    choose|r: int| is_sqrt(n, r)
}

/// A number has at most one rounded-down square root.
pub proof fn lemma_sqrt_unique(n: int, r: int, s: int)
    requires
        is_sqrt(n, r),
        is_sqrt(n, s),
    ensures
        r == s,
{
    if r < s {
        assert((r + 1) * (r + 1) <= s * s) by (nonlinear_arith)
            requires
                0 <= r,
                r + 1 <= s,
        ;
    } else if s < r {
        assert((s + 1) * (s + 1) <= r * r) by (nonlinear_arith)
            requires
                0 <= s,
                s + 1 <= r,
        ;
    }
}

/// Whatever passes for the rounded-down square root of `n` is `isqrt(n)`.
pub proof fn lemma_isqrt(n: int, r: int)
    requires
        is_sqrt(n, r),
    ensures
        isqrt(n) == r,
{
    lemma_sqrt_unique(n, r, isqrt(n));
}

/// The quotient of `v` by `d` rounded toward zero.
pub open spec fn toward_zero(v: int, d: int) -> int {
    if v >= 0 {
        v / d
    } else {
        -((-v) / d)
    }
}

/// The quotient of `v` by `d` rounded toward zero.
pub fn div_toward_zero(v: i64, d: i64) -> (q: i64)
    requires
        d > 0,
    ensures
        q == toward_zero(v as int, d as int),
{
    if v >= 0 {
        v / d
    } else {
        let n: i128 = -(v as i128);
        proof {
            assert(0 <= (n as int) / (d as int) <= n) by (nonlinear_arith)
                requires
                    0 <= n,
                    d > 0,
            ;
        }
        (-(n / (d as i128))) as i64
    }
}

/// A coordinate that lies from the start of cell `lo` up to, but not in,
/// cell `hi` falls in a cell from `lo` up to, but not, `hi`.
pub proof fn lemma_cell_between(w: int, block_size: int, lo: int, hi: int)
    requires
        block_size > 0,
        lo * block_size <= w < hi * block_size,
    ensures
        lo <= w / block_size < hi,
{
    vstd::arithmetic::div_mod::lemma_fundamental_div_mod(w, block_size);
    vstd::arithmetic::div_mod::lemma_mod_bound(w, block_size);
    let i = w / block_size;
    assert(lo <= i < hi) by (nonlinear_arith)
        requires
            block_size > 0,
            lo * block_size <= w < hi * block_size,
            w == block_size * i + w % block_size,
            0 <= w % block_size < block_size,
    ;
}

/// A coordinate falls in cell `i` exactly when it lies from the start of
/// that cell up to the start of the next.
pub proof fn lemma_in_cell(w: int, block_size: int, i: int)
    requires
        block_size > 0,
    ensures
        (w / block_size == i) == (i * block_size <= w < i * block_size + block_size),
{
    vstd::arithmetic::div_mod::lemma_fundamental_div_mod(w, block_size);
    vstd::arithmetic::div_mod::lemma_mod_bound(w, block_size);
    let q = w / block_size;
    if i * block_size <= w < i * block_size + block_size {
        assert((i + 1) * block_size == i * block_size + block_size) by (nonlinear_arith);
        lemma_cell_between(w, block_size, i, i + 1);
    }
    if q == i {
        assert(i * block_size == block_size * q) by (nonlinear_arith)
            requires
                q == i,
        ;
    }
}

/// The square root of `n` rounded down to a whole number.
pub fn integer_sqrt(n: u128) -> (r: u64)
    ensures
        is_sqrt(n as int, r as int),
        r == isqrt(n as int),
{
    let mut lo: u128 = 0;
    let mut hi: u128 = 0x1_0000_0000_0000_0000;
    proof {
        assert(0x1_0000_0000_0000_0000 * 0x1_0000_0000_0000_0000 > u128::MAX) by (nonlinear_arith);
    }
    while hi - lo > 1
        invariant
            lo < hi <= 0x1_0000_0000_0000_0000,
            lo * lo <= n,
            n < hi * hi,
        decreases hi - lo,
    {
        let mid: u128 = lo + (hi - lo) / 2;
        proof {
            assert(mid * mid <= 0xffff_ffff_ffff_ffff * 0xffff_ffff_ffff_ffff) by (nonlinear_arith)
                requires
                    0 <= mid <= 0xffff_ffff_ffff_ffff,
            ;
        }
        if mid * mid <= n {
            lo = mid;
        } else {
            hi = mid;
        }
    }
    proof {
        lemma_isqrt(n as int, lo as int);
    }
    lo as u64
}

} // verus!
