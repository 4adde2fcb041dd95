use vstd::prelude::*;
use vstd::arithmetic::div_mod::{
    lemma_div_denominator, lemma_fundamental_div_mod, lemma_fundamental_div_mod_converse,
};

verus! {

/// The number of the cell `(d0, d1, d2)` when the cells of a box are counted
/// with `d0` running fastest over `n0` values, then `d1` over `n1` values,
/// then `d2`.
pub open spec fn linear_index(d0: int, d1: int, d2: int, n0: int, n1: int) -> int {
    d0 + d1 * n0 + d2 * (n0 * n1)
}

/// The three digits of a cell's number can be read back from it.
pub proof fn lemma_linear_index_digits(d0: int, d1: int, d2: int, n0: int, n1: int)
    requires
        0 <= d0 < n0,
        0 <= d1 < n1,
        0 <= d2,
    ensures
        0 <= linear_index(d0, d1, d2, n0, n1),
        linear_index(d0, d1, d2, n0, n1) % n0 == d0,
        linear_index(d0, d1, d2, n0, n1) / n0 == d1 + d2 * n1,
        (linear_index(d0, d1, d2, n0, n1) / n0) % n1 == d1,
        linear_index(d0, d1, d2, n0, n1) / (n0 * n1) == d2,
        n0 * n1 > 0,
{
    let k = linear_index(d0, d1, d2, n0, n1);
    let upper = d1 + d2 * n1;
    assert(0 <= d2 * n1) by (nonlinear_arith)
        requires
            0 <= d2,
            0 < n1,
    ;
    assert(k == upper * n0 + d0) by (nonlinear_arith)
        requires
            k == d0 + d1 * n0 + d2 * (n0 * n1),
            upper == d1 + d2 * n1,
    ;
    assert(0 <= upper * n0) by (nonlinear_arith)
        requires
            0 <= upper,
            0 < n0,
    ;
    lemma_fundamental_div_mod_converse(k, n0, upper, d0);
    lemma_fundamental_div_mod_converse(upper, n1, d2, d1);
    lemma_div_denominator(k, n0, n1);
}

/// A cell of a box with `n0 * n1 * n2` cells has a number below that count.
pub proof fn lemma_linear_index_bound(d0: int, d1: int, d2: int, n0: int, n1: int, n2: int)
    requires
        0 <= d0 < n0,
        0 <= d1 < n1,
        0 <= d2 < n2,
    ensures
        0 <= linear_index(d0, d1, d2, n0, n1) < n0 * n1 * n2,
{
    let k = linear_index(d0, d1, d2, n0, n1);
    assert(0 <= k < n0 * n1 * n2) by (nonlinear_arith)
        requires
            k == d0 + d1 * n0 + d2 * (n0 * n1),
            0 <= d0 < n0,
            0 <= d1 < n1,
            0 <= d2 < n2,
    {
        assert(d1 * n0 <= (n1 - 1) * n0);
        assert(d2 * (n0 * n1) <= (n2 - 1) * (n0 * n1));
        assert(0 <= d1 * n0);
        assert(0 <= d2 * (n0 * n1));
    }
}

/// A number is the number of the cell made of its own digits.
pub proof fn lemma_digits_linear_index(k: int, n0: int, n1: int)
    requires
        0 <= k,
        0 < n0,
        0 < n1,
    ensures
        linear_index(k % n0, (k / n0) % n1, k / (n0 * n1), n0, n1) == k,
        0 <= k % n0 < n0,
        0 <= (k / n0) % n1 < n1,
        0 <= k / (n0 * n1),
{
    let q = k / n0;
    lemma_fundamental_div_mod(k, n0);
    lemma_fundamental_div_mod(q, n1);
    lemma_div_denominator(k, n0, n1);
    assert(0 <= q) by (nonlinear_arith)
        requires
            q == k / n0,
            0 <= k,
            0 < n0,
    ;
    assert(0 <= q / n1) by (nonlinear_arith)
        requires
            0 <= q,
            0 < n1,
    ;
    let d0 = k % n0;
    let d1 = q % n1;
    let d2 = q / n1;
    assert(d0 + d1 * n0 + d2 * (n0 * n1) == k) by (nonlinear_arith)
        requires
            k == n0 * q + d0,
            q == n1 * d2 + d1,
    ;
}

} // verus!
