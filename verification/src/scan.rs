//! The first position of a sequence at which a predicate holds.

use vstd::prelude::*;

verus! {

/// `p` holds at position `i` of `s` and at no earlier position.
pub open spec fn is_first_index<T>(s: Seq<T>, p: spec_fn(T) -> bool, i: int) -> bool {
    &&& 0 <= i < s.len()
    &&& p(s[i])
    &&& forall|j: int| 0 <= j < i ==> !p(#[trigger] s[j])
}

/// The first position of `s` at which `p` holds, if there is one.
pub open spec fn first_index<T>(s: Seq<T>, p: spec_fn(T) -> bool) -> Option<int> {
    if exists|i: int| is_first_index(s, p, i) {
        Some(choose|i: int| is_first_index(s, p, i))
    } else {
        None
    }
}

/// A position that is first is the first position.
pub proof fn lemma_first_index_is<T>(s: Seq<T>, p: spec_fn(T) -> bool, i: int)
    requires
        is_first_index(s, p, i),
    ensures
        first_index(s, p) == Some(i),
{
}

/// What `first_index` returns: a first position, or the knowledge that `p`
/// holds nowhere.
pub proof fn lemma_first_index<T>(s: Seq<T>, p: spec_fn(T) -> bool)
    ensures
        match first_index(s, p) {
            Some(i) => is_first_index(s, p, i),
            None => forall|j: int| 0 <= j < s.len() ==> !p(#[trigger] s[j]),
        },
{
    if first_index(s, p) is None {
        assert forall|j: int| 0 <= j < s.len() implies !p(#[trigger] s[j]) by {
            if p(s[j]) {
                lemma_some_first(s, p, j);
            }
        }
    }
}

/// Where `p` holds at some position up to `n`, it holds at a first one.
proof fn lemma_some_first<T>(s: Seq<T>, p: spec_fn(T) -> bool, n: int)
    requires
        0 <= n < s.len(),
        p(s[n]),
    ensures
        exists|i: int| is_first_index(s, p, i),
    decreases n,
{
    if exists|j: int| 0 <= j < n && p(s[j]) {
        let j = choose|j: int| 0 <= j < n && p(s[j]);
        lemma_some_first(s, p, j);
    } else {
        assert(is_first_index(s, p, n));
    }
}

} // verus!
