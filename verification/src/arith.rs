//! Floor division and wrap-around on wide signed integers.
//!
//! In contracts `/` and `%` are Euclidean; for a positive divisor that is the
//! floor quotient and the non-negative remainder, which is what the renderer
//! needs for world coordinates on either side of the origin.

use vstd::arithmetic::div_mod::lemma_fundamental_div_mod_converse;
use vstd::prelude::*;

verus! {

/// For `n = -(k + 1)` with `k >= 0`, the floor quotient of `n` by `d` is
/// `-(k / d) - 1` and its remainder is `d - 1 - k % d`.
pub proof fn lemma_negative_floor(n: int, k: int, d: int)
    requires
        d > 0,
        k >= 0,
        n == -(k + 1),
    ensures
        n / d == -(k / d) - 1,
        n % d == d - 1 - k % d,
{
    let q: int = -(k / d) - 1;
    let r: int = d - 1 - k % d;
    assert(k == d * (k / d) + k % d && 0 <= k % d < d) by (nonlinear_arith)
        requires
            d > 0,
    ;
    assert(q * d == -(d * (k / d)) - d) by (nonlinear_arith)
        requires
            q == -(k / d) - 1,
    ;
    lemma_fundamental_div_mod_converse(n, d, q, r);
}

/// The floor of `n / d` for a positive divisor.
pub fn floor_div(n: i128, d: i128) -> (q: i128)
    requires
        d > 0,
    ensures
        q == (n as int) / (d as int),
{
    if n >= 0 {
        n / d
    } else {
        let k: i128 = -(n + 1);
        let t: i128 = k / d;
        proof {
            lemma_negative_floor(n as int, k as int, d as int);
        }
        -t - 1
    }
}

/// The representative of `n` in `0..m`: the remainder of floor division.
pub fn wrap(n: i128, m: u32) -> (r: u32)
    requires
        m > 0,
    ensures
        r == (n as int) % (m as int),
{
    if n >= 0 {
        (n % (m as i128)) as u32
    } else {
        let k: i128 = -(n + 1);
        let t: i128 = k % (m as i128);
        proof {
            lemma_negative_floor(n as int, k as int, m as int);
        }
        ((m as i128) - 1 - t) as u32
    }
}

} // verus!
