//! Integer square roots, used to measure and rescale fixed-point vectors.
use vstd::prelude::*;

verus! {

/// The largest `r` with `r * r <= n`.
pub open spec fn floor_sqrt(n: nat) -> nat
    decreases n,
{
    if n == 0 {
        0
    } else {
        let r = floor_sqrt((n - 1) as nat);
        if (r + 1) * (r + 1) <= n {
            r + 1
        } else {
            r
        }
    }
}

/// The smallest `r` with `n <= r * r`.
pub open spec fn ceil_sqrt(n: nat) -> nat {
    let r = floor_sqrt(n);
    if r * r == n {
        r
    } else {
        r + 1
    }
}

pub proof fn lemma_floor_sqrt(n: nat)
    ensures
        floor_sqrt(n) as int * floor_sqrt(n) as int <= n,
        n < (floor_sqrt(n) + 1int) * (floor_sqrt(n) + 1int),
    decreases n,
{
    if n > 0 {
        lemma_floor_sqrt((n - 1) as nat);
        let r = floor_sqrt((n - 1) as nat) as int;
        let ni = n as int;
        assert(r * r <= ni - 1 && ni - 1 < (r + 1) * (r + 1));
        lemma_square_strict(r + 1, r + 2);
        if (r + 1) * (r + 1) <= ni {
            assert(floor_sqrt(n) == r + 1);
            assert(ni < (r + 2) * (r + 2));
        } else {
            assert(floor_sqrt(n) == r);
        }
    } else {
        assert(floor_sqrt(0) == 0);
    }
}

/// Squares of naturals grow with their bases.
pub proof fn lemma_square_monotone(a: int, b: int)
    requires
        0 <= a <= b,
    ensures
        a * a <= b * b,
{
    assert(a * a <= b * b) by (nonlinear_arith)
        requires
            0 <= a <= b,
    ;
}

/// Squares of naturals grow strictly with their bases.
pub proof fn lemma_square_strict(a: int, b: int)
    requires
        0 <= a < b,
    ensures
        a * a < b * b,
{
    assert(a * a < b * b) by (nonlinear_arith)
        requires
            0 <= a < b,
    ;
}

/// `floor_sqrt(n)` is the only `r` with `r * r <= n < (r + 1) * (r + 1)`.
pub proof fn lemma_floor_sqrt_unique(n: nat, r: nat)
    requires
        r * r <= n,
        n < (r + 1) * (r + 1),
    ensures
        floor_sqrt(n) == r,
{
    lemma_floor_sqrt(n);
    let f = floor_sqrt(n);
    if f < r {
        lemma_square_monotone(f + 1 as int, r as int);
    } else if f > r {
        lemma_square_monotone(r + 1 as int, f as int);
    }
}

pub proof fn lemma_ceil_sqrt(n: nat)
    ensures
        n <= ceil_sqrt(n) as int * ceil_sqrt(n) as int,
        ceil_sqrt(n) == 0 || (ceil_sqrt(n) - 1int) * (ceil_sqrt(n) - 1int) < n,
{
    lemma_floor_sqrt(n);
    let r = floor_sqrt(n) as int;
    if r * r == n {
        if r > 0 {
            lemma_square_strict(r - 1, r);
        }
    }
}

/// `ceil_sqrt(n) <= k` exactly when `n <= k * k`.
pub proof fn lemma_ceil_sqrt_le(n: nat, k: nat)
    ensures
        ceil_sqrt(n) <= k <==> n <= k * k,
{
    lemma_ceil_sqrt(n);
    let c = ceil_sqrt(n) as int;
    let ki = k as int;
    let ni = n as int;
    assert(ni <= c * c);
    if c <= ki {
        lemma_square_monotone(c, ki);
        assert(ni <= ki * ki);
    } else {
        assert((c - 1) * (c - 1) < ni);
        lemma_square_monotone(ki, c - 1);
        assert(ki * ki < ni);
    }
}

/// Floor of the square root of `n`.
pub fn isqrt_floor(n: u128) -> (r: u128)
    ensures
        r == floor_sqrt(n as nat),
        r < 0x1_0000_0000_0000_0000,
        r * r <= n,
        n < (r + 1) * (r + 1),
{
    let mut lo: u128 = 0;
    let mut hi: u128 = 0x1_0000_0000_0000_0000;
    proof {
        assert(hi * hi == 0x1_0000_0000_0000_0000_0000_0000_0000_0000);
    }
    while hi - lo > 1
        invariant
            lo < hi <= 0x1_0000_0000_0000_0000,
            lo * lo <= n,
            n < hi * hi,
        decreases hi - lo,
    {
        let mid = lo + (hi - lo) / 2;
        proof {
            lemma_square_strict(mid as int, 0x1_0000_0000_0000_0000);
        }
        if mid * mid <= n {
            lo = mid;
        } else {
            hi = mid;
        }
    }
    proof {
        lemma_floor_sqrt_unique(n as nat, lo as nat);
    }
    lo
}

/// Ceiling of the square root of `n`.
pub fn isqrt_ceil(n: u128) -> (r: u128)
    ensures
        r == ceil_sqrt(n as nat),
{
    let f = isqrt_floor(n);
    if f * f == n {
        f
    } else {
        f + 1
    }
}

} // verus!
