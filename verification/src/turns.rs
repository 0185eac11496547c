//! Counting around a ring.

use vstd::prelude::*;

verus! {

/// Of the `len` turns from `start` on, place `j` of a ring of `len` places comes
/// up in exactly one.
pub(crate) proof fn lemma_turn(start: int, i: int, len: int, j: int)
    requires
        0 <= start,
        0 <= i < len,
        0 <= j < len,
    ensures
        0 <= (j - start) % len < len,
        ((start + i) % len == j) <==> i == (j - start) % len,
{
    let q = start / len;
    let r = start % len;
    vstd::arithmetic::div_mod::lemma_fundamental_div_mod(start, len);
    assert(start == q * len + r) by (nonlinear_arith)
        requires
            start == len * q + r,
    ;
    if r + i < len {
        vstd::arithmetic::div_mod::lemma_fundamental_div_mod_converse(start + i, len, q, r + i);
    } else {
        assert((q + 1) * len == q * len + len) by (nonlinear_arith);
        vstd::arithmetic::div_mod::lemma_fundamental_div_mod_converse(
            start + i,
            len,
            q + 1,
            r + i - len,
        );
    }
    if j >= r {
        assert((-q) * len == -(q * len)) by (nonlinear_arith);
        vstd::arithmetic::div_mod::lemma_fundamental_div_mod_converse(j - start, len, -q, j - r);
    } else {
        assert((-q - 1) * len == -(q * len) - len) by (nonlinear_arith);
        vstd::arithmetic::div_mod::lemma_fundamental_div_mod_converse(
            j - start,
            len,
            -q - 1,
            j - r + len,
        );
    }
}

}
