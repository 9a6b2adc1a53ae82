//! Counting the ways in which some of the first `n` positions can be chosen.

use vstd::arithmetic::power2::{lemma_pow2_unfold, pow2};
use vstd::prelude::*;
use vstd::relations::injective_on;
use vstd::set_lib::{lemma_map_size, lemma_set_disjoint_lens};

verus! {

/// The positions below `n`.
pub open spec fn positions(n: nat) -> Set<int> {
    Set::new(|i: int| 0 <= i < n)
}

/// Every choice of positions below `n`.
pub open spec fn combinations(n: nat) -> Set<Set<int>> {
    Set::new(|c: Set<int>| c.subset_of(positions(n)))
}

/// There are two to the power of `n` choices of positions below `n`.
pub proof fn lemma_combinations_count(n: nat)
    ensures
        combinations(n).finite(),
        combinations(n).len() == pow2(n),
    decreases n,
{
    if n == 0 {
        let none = Set::<int>::empty();
        assert forall|c: Set<int>| combinations(0).contains(c) implies c == none by {
            assert(c =~= none);
        }
        assert(combinations(0) =~= set![none]);
        assert(pow2(0) == 1) by {
            reveal(vstd::arithmetic::power::pow);
        }
    } else {
        let m = (n - 1) as nat;
        lemma_combinations_count(m);
        let without = combinations(m);
        let extend = |c: Set<int>| c.insert(m as int);
        let with = without.map(extend);
        assert(injective_on(extend, without)) by {
            assert forall|c1: Set<int>, c2: Set<int>|
                without.contains(c1) && without.contains(c2) && #[trigger] extend(c1)
                    == #[trigger] extend(c2) implies c1 == c2 by {
                assert forall|x: int| c1.contains(x) == c2.contains(x) by {
                    assert(extend(c1).contains(x) == extend(c2).contains(x));
                }
            }
        }
        lemma_map_size(without, with, extend);
        assert(without.disjoint(with)) by {
            assert forall|c: Set<int>| without.contains(c) implies !with.contains(c) by {
                if with.contains(c) {
                    let from = choose|from: Set<int>| without.contains(from) && c == extend(from);
                    assert(extend(from).contains(m as int));
                }
            }
        }
        assert(combinations(n) =~= without + with) by {
            assert forall|c: Set<int>| combinations(n).contains(c) implies (without + with).contains(
                c,
            ) by {
                if c.contains(m as int) {
                    let from = c.remove(m as int);
                    assert(without.contains(from));
                }
            }
        }
        lemma_set_disjoint_lens(without, with);
        lemma_pow2_unfold(n);
    }
}

} // verus!
