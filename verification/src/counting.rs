//! Counting the places below a bound that have a property.

use vstd::prelude::*;

verus! {

/// The places below `n` that have the property.
pub open spec fn below(p: spec_fn(int) -> bool, n: int) -> Set<int> {
    Set::new(|i: int| 0 <= i < n && p(i))
}

/// One more place adds one to the count where it has the property.
pub proof fn lemma_below_step(p: spec_fn(int) -> bool, n: int)
    requires
        0 <= n,
    ensures
        below(p, n).finite(),
        below(p, n + 1).finite(),
        below(p, n + 1).len() == below(p, n).len() + if p(n) {
            1nat
        } else {
            0nat
        },
        n == 0 ==> below(p, n).len() == 0,
    decreases n,
{
    if n == 0 {
        assert(below(p, n) =~= Set::empty());
    } else {
        lemma_below_step(p, n - 1);
    }
    if p(n) {
        assert(below(p, n + 1) =~= below(p, n).insert(n));
    } else {
        assert(below(p, n + 1) =~= below(p, n));
    }
}

}
