//! Small arithmetic and sequence helpers shared by the simulation.

use vstd::prelude::*;

verus! {

/// The quotient `a / b` rounded up, for `a >= 0` and `b > 0`.
pub open spec fn ceil_div(a: int, b: int) -> int {
    (a + b - 1) / b
}

pub open spec fn min_int(a: int, b: int) -> int {
    if a <= b {
        a
    } else {
        b
    }
}

/// `ceil_div(a, b)` is the least `q` with `q * b >= a`.
pub proof fn lemma_ceil_div_is_least(a: int, b: int)
    requires
        0 <= a,
        0 < b,
    ensures
        ceil_div(a, b) * b >= a,
        (ceil_div(a, b) - 1) * b < a,
        ceil_div(a, b) >= 0,
{
    let q = ceil_div(a, b);
    let n = a + b - 1;
    assert(n == b * (n / b) + n % b && 0 <= n % b < b) by {
        vstd::arithmetic::div_mod::lemma_fundamental_div_mod(n, b);
        vstd::arithmetic::div_mod::lemma_mod_bound(n, b);
    }
    assert(q * b == b * q) by (nonlinear_arith);
    assert((q - 1) * b == q * b - b) by (nonlinear_arith);
    assert(q >= 0) by (nonlinear_arith)
        requires
            q * b >= a,
            a >= 0,
            b > 0,
    ;
}

/// Any `q` with `(q - 1) * b < a <= q * b` is `ceil_div(a, b)`.
pub proof fn lemma_ceil_div_unique(a: int, b: int, q: int)
    requires
        0 <= a,
        0 < b,
        q * b >= a,
        (q - 1) * b < a,
    ensures
        ceil_div(a, b) == q,
{
    lemma_ceil_div_is_least(a, b);
    let c = ceil_div(a, b);
    assert(c == q) by (nonlinear_arith)
        requires
            0 < b,
            q * b >= a,
            (q - 1) * b < a,
            c * b >= a,
            (c - 1) * b < a,
    ;
}

/// Position of the first occurrence of `k` in `keys`, or `keys.len()` where it
/// does not occur.
pub open spec fn first_index<K>(keys: Seq<K>, k: K) -> int
    decreases keys.len(),
{
    if keys.len() == 0 {
        0
    } else if keys[0] == k {
        0
    } else {
        1 + first_index(keys.drop_first(), k)
    }
}

pub proof fn lemma_first_index_bounds<K>(keys: Seq<K>, k: K)
    ensures
        0 <= first_index(keys, k) <= keys.len(),
        first_index(keys, k) < keys.len() ==> keys[first_index(keys, k)] == k,
        forall|j: int| 0 <= j < first_index(keys, k) ==> keys[j] != k,
    decreases keys.len(),
{
    if keys.len() == 0 {
    } else if keys[0] == k {
    } else {
        let rest = keys.drop_first();
        lemma_first_index_bounds(rest, k);
        assert forall|j: int| 0 <= j < first_index(keys, k) implies keys[j] != k by {
            if j > 0 {
                assert(keys[j] == rest[j - 1]);
            }
        }
    }
}

/// The first index is the one position that holds `k` with no `k` before it.
pub proof fn lemma_first_index_is<K>(keys: Seq<K>, k: K, i: int)
    requires
        0 <= i <= keys.len(),
        forall|j: int| 0 <= j < i ==> keys[j] != k,
        i < keys.len() ==> keys[i] == k,
    ensures
        first_index(keys, k) == i,
{
    lemma_first_index_bounds(keys, k);
    let f = first_index(keys, k);
    if f < i {
        assert(keys[f] != k);
    } else if i < f {
        assert(keys[i] == k);
    }
}

} // verus!
