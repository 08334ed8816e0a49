//! Integer square roots.

use vstd::prelude::*;

verus! {

/// One more than the largest square root that [`floor_sqrt_u128`] can return.
pub const ROOT_BOUND: u128 = 36028797018963968;

/// `r` is the square root of `n`, rounded down.
pub open spec fn is_floor_sqrt(n: int, r: int) -> bool {
    0 <= r && r * r <= n && n < (r + 1) * (r + 1)
}

/// The square root of `n`, rounded down.
pub open spec fn floor_sqrt(n: int) -> int {
    choose|r: int| is_floor_sqrt(n, r)
}

/// Every natural number has exactly one rounded-down square root.
pub proof fn lemma_floor_sqrt(n: int)
    requires
        0 <= n,
    ensures
        is_floor_sqrt(n, floor_sqrt(n)),
        forall|r: int| is_floor_sqrt(n, r) ==> r == floor_sqrt(n),
    decreases n,
{
    let w = floor_sqrt_witness(n);
    assert(is_floor_sqrt(n, w));
    assert forall|r: int| is_floor_sqrt(n, r) implies r == floor_sqrt(n) by {
        lemma_floor_sqrt_unique(n, r, floor_sqrt(n));
    }
}

proof fn floor_sqrt_witness(n: int) -> (r: int)
    requires
        0 <= n,
    ensures
        is_floor_sqrt(n, r),
    decreases n,
{
    if n == 0 {
        assert(is_floor_sqrt(0, 0)) by (nonlinear_arith);
        0
    } else {
        let r = floor_sqrt_witness(n - 1);
        if (r + 1) * (r + 1) <= n {
            assert(n < ((r + 1) + 1) * ((r + 1) + 1)) by (nonlinear_arith)
                requires
                    n - 1 < (r + 1) * (r + 1),
                    0 <= r,
            ;
            r + 1
        } else {
            r
        }
    }
}

proof fn lemma_floor_sqrt_unique(n: int, a: int, b: int)
    requires
        is_floor_sqrt(n, a),
        is_floor_sqrt(n, b),
    ensures
        a == b,
{
    if a < b {
        assert((a + 1) * (a + 1) <= b * b) by (nonlinear_arith)
            requires
                0 <= a,
                a + 1 <= b,
        ;
    } else if b < a {
        assert((b + 1) * (b + 1) <= a * a) by (nonlinear_arith)
            requires
                0 <= b,
                b + 1 <= a,
        ;
    }
}

/// The square root of `n`, rounded down, found by bisection.
pub fn floor_sqrt_u128(n: u128) -> (r: u128)
    requires
        n < ROOT_BOUND * ROOT_BOUND,
    ensures
        r == floor_sqrt(n as int),
        r < ROOT_BOUND,
{
    let mut lo: u128 = 0;
    let mut hi: u128 = ROOT_BOUND;
    while hi - lo > 1
        invariant
            lo < hi <= ROOT_BOUND,
            lo * lo <= n,
            n < hi * hi,
        decreases hi - lo,
    {
        let mid: u128 = lo + (hi - lo) / 2;
        assert(mid * mid < ROOT_BOUND * ROOT_BOUND) by (nonlinear_arith)
            requires
                mid < ROOT_BOUND,
        ;
        if mid * mid <= n {
            lo = mid;
        } else {
            hi = mid;
        }
    }
    proof {
        assert(is_floor_sqrt(n as int, lo as int));
        lemma_floor_sqrt(n as int);
    }
    lo
}

} // verus!
