//! Facts about sequences without duplicates, used by the node's tables.
use vstd::prelude::*;

verus! {

/// Removing an element keeps a sequence free of duplicates.
pub proof fn lemma_remove_unique<A>(s: Seq<A>, i: int)
    requires
        0 <= i < s.len(),
        s.no_duplicates(),
    ensures
        s.remove(i).no_duplicates(),
        !s.remove(i).contains(s[i]),
        forall|x: A| x != s[i] ==> (s.remove(i).contains(x) <==> s.contains(x)),
{
    let t = s.remove(i);
    assert forall|a: int, b: int| 0 <= a < t.len() && 0 <= b < t.len() && a != b implies t[a]
        != t[b] by {
        let a2 = if a < i { a } else { a + 1 };
        let b2 = if b < i { b } else { b + 1 };
        assert(t[a] == s[a2]);
        assert(t[b] == s[b2]);
    }
    assert forall|x: A| x != s[i] implies (t.contains(x) <==> s.contains(x)) by {
        if s.contains(x) {
            let k = choose|k: int| 0 <= k < s.len() && s[k] == x;
            assert(k != i);
            let k2 = if k < i { k } else { k - 1 };
            assert(t[k2] == x);
        }
        if t.contains(x) {
            let k = choose|k: int| 0 <= k < t.len() && t[k] == x;
            let k2 = if k < i { k } else { k + 1 };
            assert(s[k2] == x);
        }
    }
    if t.contains(s[i]) {
        let k = choose|k: int| 0 <= k < t.len() && t[k] == s[i];
        let k2 = if k < i { k } else { k + 1 };
        assert(s[k2] == s[i]);
    }
}

/// Appending an element not yet present keeps a sequence free of duplicates.
pub proof fn lemma_push_unique<A>(s: Seq<A>, x: A)
    requires
        s.no_duplicates(),
        !s.contains(x),
    ensures
        s.push(x).no_duplicates(),
        forall|y: A| s.push(x).contains(y) <==> (s.contains(y) || y == x),
{
    let t = s.push(x);
    assert forall|a: int, b: int| 0 <= a < t.len() && 0 <= b < t.len() && a != b implies t[a]
        != t[b] by {
        if a == s.len() {
            assert(t[b] == s[b]);
            assert(s.contains(s[b]));
        } else if b == s.len() {
            assert(t[a] == s[a]);
            assert(s.contains(s[a]));
        }
    }
    assert forall|y: A| t.contains(y) <==> (s.contains(y) || y == x) by {
        if t.contains(y) {
            let k = choose|k: int| 0 <= k < t.len() && t[k] == y;
            if k < s.len() {
                assert(s[k] == y);
            }
        }
        if s.contains(y) {
            let k = choose|k: int| 0 <= k < s.len() && s[k] == y;
            assert(t[k] == y);
        }
        if y == x {
            assert(t[s.len() as int] == y);
        }
    }
}

} // verus!
