//! Sequences whose elements have pairwise different keys, and the edits that
//! keep them so.

use vstd::prelude::*;

verus! {

/// Whether no two elements of `s` have the same key.
pub open spec fn keys_unique<A, K>(s: Seq<A>, key: spec_fn(A) -> K) -> bool {
    forall|i: int, j: int|
        0 <= i < s.len() && 0 <= j < s.len() && i != j ==> key(#[trigger] s[i]) != key(#[trigger] s[j])
}

/// Replacing an element by one with the same key keeps keys unique.
pub proof fn lemma_update_unique<A, K>(s: Seq<A>, key: spec_fn(A) -> K, i: int, x: A)
    requires
        keys_unique(s, key),
        0 <= i < s.len(),
        key(x) == key(s[i]),
    ensures
        keys_unique(s.update(i, x), key),
{
    let t = s.update(i, x);
    assert forall|a: int, b: int| 0 <= a < t.len() && 0 <= b < t.len() && a != b implies key(
        #[trigger] t[a],
    ) != key(#[trigger] t[b]) by {
        assert(key(t[a]) == key(s[a]) && key(t[b]) == key(s[b]));
    }
}

/// Appending an element whose key is new keeps keys unique.
pub proof fn lemma_push_unique<A, K>(s: Seq<A>, key: spec_fn(A) -> K, x: A)
    requires
        keys_unique(s, key),
        forall|j: int| 0 <= j < s.len() ==> key(#[trigger] s[j]) != key(x),
    ensures
        keys_unique(s.push(x), key),
{
    let t = s.push(x);
    assert forall|a: int, b: int| 0 <= a < t.len() && 0 <= b < t.len() && a != b implies key(
        #[trigger] t[a],
    ) != key(#[trigger] t[b]) by {
        if a < s.len() {
            assert(t[a] == s[a]);
        }
        if b < s.len() {
            assert(t[b] == s[b]);
        }
    }
}

/// Removing an element keeps keys unique.
pub proof fn lemma_remove_unique<A, K>(s: Seq<A>, key: spec_fn(A) -> K, i: int)
    requires
        keys_unique(s, key),
        0 <= i < s.len(),
    ensures
        keys_unique(s.remove(i), key),
{
    let t = s.remove(i);
    assert forall|a: int, b: int| 0 <= a < t.len() && 0 <= b < t.len() && a != b implies key(
        #[trigger] t[a],
    ) != key(#[trigger] t[b]) by {
        let a2 = if a < i { a } else { a + 1 };
        let b2 = if b < i { b } else { b + 1 };
        assert(t[a] == s[a2] && t[b] == s[b2]);
    }
}

} // verus!
