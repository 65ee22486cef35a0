//! Arithmetic lemmas and a verified integer square root.

use vstd::prelude::*;

verus! {

/// A square is non-negative and monotone in the magnitude of its argument.
pub proof fn lemma_square_bound(x: int, b: int)
    by (nonlinear_arith)
    requires
        -b <= x,
        x <= b,
    ensures
        0 <= x * x,
        x * x <= b * b,
{
}

/// Products of ordered non-negative factors are ordered.
pub proof fn lemma_mul_le(a: int, b: int, x: int, y: int)
    by (nonlinear_arith)
    requires
        0 <= a <= x,
        0 <= b <= y,
    ensures
        a * b <= x * y,
{
}

/// Dividing a vector bound by a positive scale: if `p` and `q` understate
/// `x / m` and `y / m`, and `(x, y)` has norm at most `l * m`, then
/// `(p, q)` has norm at most `l`.
pub proof fn lemma_norm_shrink(p: int, q: int, x: int, y: int, m: int, l: int)
    by (nonlinear_arith)
    requires
        0 <= p,
        0 <= q,
        0 < m,
        p * m <= x,
        q * m <= y,
        x * x + y * y <= l * l * (m * m),
    ensures
        p * p + q * q <= l * l,
{
}

/// A floor quotient is non-negative and understates the dividend:
/// `(x / d) * d <= x`.
pub proof fn lemma_div_mul_le(x: int, d: int)
    requires
        0 <= x,
        0 < d,
    ensures
        0 <= x / d,
        (x / d) * d <= x,
{
    vstd::arithmetic::div_mod::lemma_fundamental_div_mod(x, d);
    vstd::arithmetic::div_mod::lemma_div_pos_is_pos(x, d);
    vstd::arithmetic::div_mod::lemma_mod_division_less_than_divisor(x, d);
    assert((x / d) * d == d * (x / d)) by (nonlinear_arith);
}

/// A floor quotient respects an upper bound on the dividend:
/// `x <= b * d` gives `x / d <= b`.
pub proof fn lemma_div_le(x: int, d: int, b: int)
    requires
        0 <= x,
        0 < d,
        0 <= b,
        x <= b * d,
    ensures
        x / d <= b,
{
    lemma_div_mul_le(x, d);
    assert(x / d <= b) by (nonlinear_arith)
        requires
            0 < d,
            0 <= b,
            (x / d) * d <= x,
            x <= b * d,
    ;
}

/// The floor of the square root of `n`.
pub open spec fn sqrt_floor(n: nat) -> nat
    decreases n,
{
    if n == 0 {
        0
    } else {
        let s = sqrt_floor((n - 1) as nat);
        if (s + 1) * (s + 1) <= n {
            s + 1
        } else {
            s
        }
    }
}

/// `sqrt_floor(n)` is the unique `r` with `r * r <= n < (r + 1) * (r + 1)`.
pub proof fn lemma_sqrt_floor_bounds(n: nat)
    ensures
        sqrt_floor(n) * sqrt_floor(n) <= n,
        n < (sqrt_floor(n) + 1) * (sqrt_floor(n) + 1),
    decreases n,
{
    if n > 0 {
        lemma_sqrt_floor_bounds((n - 1) as nat);
        let s = sqrt_floor((n - 1) as nat);
        if (s + 1) * (s + 1) <= n {
            assert(sqrt_floor(n) == s + 1);
            assert(n - 1 < (s + 1) * (s + 1));
            assert((s + 1) * (s + 1) < (s + 2) * (s + 2)) by (nonlinear_arith)
                requires
                    0 <= s,
            ;
            assert(n <= (s + 1) * (s + 1));
            assert(n < (s + 2) * (s + 2));
            assert(sqrt_floor(n) * sqrt_floor(n) <= n);
            assert(n < (sqrt_floor(n) + 1) * (sqrt_floor(n) + 1)) by (nonlinear_arith)
                requires
                    n < (s + 2) * (s + 2),
                    sqrt_floor(n) == s + 1,
            ;
        } else {
            assert(sqrt_floor(n) == s);
            assert(sqrt_floor(n) * sqrt_floor(n) <= n);
            assert(n < (sqrt_floor(n) + 1) * (sqrt_floor(n) + 1)) by (nonlinear_arith)
                requires
                    n < (s + 1) * (s + 1),
                    sqrt_floor(n) == s,
            ;
        }
    } else {
        assert(sqrt_floor(n) == 0);
        assert(n < (sqrt_floor(n) + 1) * (sqrt_floor(n) + 1)) by (nonlinear_arith)
            requires
                n == 0,
                sqrt_floor(n) == 0,
        ;
    }
}

/// Any `r` meeting the square-root bracket equals `sqrt_floor(n)`.
pub proof fn lemma_sqrt_floor_unique(n: nat, r: nat)
    requires
        r * r <= n,
        n < (r + 1) * (r + 1),
    ensures
        r == sqrt_floor(n),
{
    lemma_sqrt_floor_bounds(n);
    let s = sqrt_floor(n);
    if r < s {
        assert(false) by (nonlinear_arith)
            requires
                r < s,
                s * s <= n,
                n < (r + 1) * (r + 1),
                0 <= r,
        ;
    }
    if s < r {
        assert(false) by (nonlinear_arith)
            requires
                s < r,
                r * r <= n,
                n < (s + 1) * (s + 1),
                0 <= s,
        ;
    }
}

/// Integer square root by bisection.
pub fn isqrt(n: u64) -> (r: u64)
    requires
        n < 0x4000_0000_0000_0000,
    ensures
        r == sqrt_floor(n as nat),
        r * r <= n,
        (n as int) < (r + 1) * (r + 1),
{
    let mut lo: u64 = 0;
    let mut hi: u64 = 0x8000_0000;
    while lo + 1 < hi
        invariant
            lo < hi <= 0x8000_0000,
            lo * lo <= n,
            (n as int) < hi * hi,
        decreases hi - lo,
    {
        let mid: u64 = lo + (hi - lo) / 2;
        proof {
            lemma_square_bound(mid as int, 0x8000_0000);
        }
        if mid * mid <= n {
            lo = mid;
        } else {
            hi = mid;
        }
    }
    proof {
        lemma_sqrt_floor_unique(n as nat, lo as nat);
    }
    lo
}

} // verus!
