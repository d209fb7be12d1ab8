//! Integer (floor) square roots. The matching formula takes the square root
//! of every individual contribution, so the roots must be exact integer
//! floors: no floating point anywhere, for bit-exact reproducibility.

use vstd::prelude::*;

verus! {

/// `r` is the floor of the square root of `n`.
pub open spec fn is_sqrt_floor(n: int, r: int) -> bool {
    &&& 0 <= r
    &&& r * r <= n
    &&& n < (r + 1) * (r + 1)
}

/// The floor of the square root of `n`.
pub closed spec fn sqrt_floor(n: nat) -> nat {
    choose|r: nat| is_sqrt_floor(n as int, r as int)
}

/// Every natural number has a floor square root.
pub proof fn lemma_sqrt_floor_exists(n: nat)
    ensures
        is_sqrt_floor(n as int, sqrt_floor(n) as int),
    decreases n,
{
    if n == 0 {
        assert(is_sqrt_floor(0, 0));
    } else {
        lemma_sqrt_floor_exists((n - 1) as nat);
        let r = sqrt_floor((n - 1) as nat) as int;
        if n < (r + 1) * (r + 1) {
            assert(is_sqrt_floor(n as int, r));
        } else {
            assert(n == (r + 1) * (r + 1));
            assert((r + 1) * (r + 1) < (r + 2) * (r + 2)) by (nonlinear_arith)
                requires
                    r >= 0,
            ;
            assert(is_sqrt_floor(n as int, r + 1));
        }
    }
}

/// A number has at most one floor square root.
pub proof fn lemma_sqrt_floor_unique(n: int, r1: int, r2: int)
    requires
        is_sqrt_floor(n, r1),
        is_sqrt_floor(n, r2),
    ensures
        r1 == r2,
{
    assert(r1 == r2) by (nonlinear_arith)
        requires
            0 <= r1,
            r1 * r1 <= n,
            n < (r1 + 1) * (r1 + 1),
            0 <= r2,
            r2 * r2 <= n,
            n < (r2 + 1) * (r2 + 1),
    ;
}

/// A witness of `is_sqrt_floor` is `sqrt_floor` itself.
pub proof fn lemma_sqrt_floor_is(n: nat, r: int)
    requires
        is_sqrt_floor(n as int, r),
    ensures
        sqrt_floor(n) == r,
{
    lemma_sqrt_floor_exists(n);
    lemma_sqrt_floor_unique(n as int, r, sqrt_floor(n) as int);
}

/// Floor square roots are superadditive under splitting: splitting a sum into
/// two parts never lowers the total of the roots. This is the heart of the
/// quadratic-funding bonus for broad support.
pub proof fn lemma_sqrt_floor_of_sum(x: nat, y: nat)
    ensures
        sqrt_floor((x + y) as nat) <= sqrt_floor(x) + sqrt_floor(y),
{
    lemma_sqrt_floor_exists(x);
    lemma_sqrt_floor_exists(y);
    lemma_sqrt_floor_exists((x + y) as nat);
    let a = sqrt_floor(x) as int;
    let b = sqrt_floor(y) as int;
    let c = sqrt_floor((x + y) as nat) as int;
    assert(x + y < (a + b + 1) * (a + b + 1)) by (nonlinear_arith)
        requires
            x < (a + 1) * (a + 1),
            y < (b + 1) * (b + 1),
            a >= 0,
            b >= 0,
    ;
    assert(c <= a + b) by (nonlinear_arith)
        requires
            c * c <= x + y,
            x + y < (a + b + 1) * (a + b + 1),
            c >= 0,
            a + b >= 0,
    ;
}

/// Squaring is monotone on the naturals.
pub proof fn lemma_square_monotone(a: int, b: int)
    requires
        0 <= a <= b,
    ensures
        a * a <= b * b,
{
    assert(a * a <= b * b) by (nonlinear_arith)
        requires
            0 <= a <= b,
    ;
}

/// The floor of the square root of `n`, by binary search.
pub fn integer_sqrt(n: u128) -> (r: u128)
    ensures
        is_sqrt_floor(n as int, r as int),
        r == sqrt_floor(n as nat),
{
    let mut lo: u128 = 0;
    let mut hi: u128 = 0x1_0000_0000_0000_0000;
    while hi - lo > 1
        invariant
            lo < hi <= 0x1_0000_0000_0000_0000u128,
            (lo as int) * (lo as int) <= n as int,
            (n as int) < (hi as int) * (hi as int),
        decreases hi - lo,
    {
        let mid = lo + (hi - lo) / 2;
        assert(lo < mid < hi);
        assert((mid as int) * (mid as int) <= u128::MAX) by (nonlinear_arith)
            requires
                0 < mid <= 0xffff_ffff_ffff_ffffu128,
        ;
        if mid * mid <= n {
            lo = mid;
        } else {
            hi = mid;
        }
    }
    assert(hi == lo + 1);
    proof {
        lemma_sqrt_floor_is(n as nat, lo as int);
    }
    lo
}

} // verus!
