//! Ordered association lists: sequences of key and value pairs with distinct keys.

use vstd::prelude::*;

verus! {

/// The entry of `s` at `i` has the key `k`.
pub open spec fn at<K, V>(s: Seq<(K, V)>, k: K, i: int) -> bool {
    0 <= i < s.len() && s[i].0 == k
}

/// Some entry of `s` has the key `k`.
pub open spec fn known<K, V>(s: Seq<(K, V)>, k: K) -> bool {
    exists|i: int| at(s, k, i)
}

/// Where the key `k` stands in `s`.
pub open spec fn position<K, V>(s: Seq<(K, V)>, k: K) -> int {
    choose|i: int| at(s, k, i)
}

/// No two entries of `s` have the same key.
pub open spec fn distinct<K, V>(s: Seq<(K, V)>) -> bool {
    forall|i: int, j: int|
        0 <= i < s.len() && 0 <= j < s.len() && i != j ==> (#[trigger] s[i]).0 != (#[trigger] s[j]).0
}

/// The value that `s` has for the key `k`.
pub open spec fn lookup<K, V>(s: Seq<(K, V)>, k: K) -> Option<V> {
    if known(s, k) {
        Some(s[position(s, k)].1)
    } else {
        None
    }
}

/// `s` without its entry for the key `k`.
pub open spec fn without<K, V>(s: Seq<(K, V)>, k: K) -> Seq<(K, V)> {
    if known(s, k) {
        s.remove(position(s, k))
    } else {
        s
    }
}

/// An entry is found under its key.
pub proof fn lemma_at<K, V>(s: Seq<(K, V)>, k: K, i: int)
    requires
        distinct(s),
        at(s, k, i),
    ensures
        known(s, k),
        position(s, k) == i,
        lookup(s, k) == Some(s[i].1),
        without(s, k) == s.remove(i),
{
    let p = position(s, k);
    assert(at(s, k, p));
    if p != i {
        assert(s[p].0 != s[i].0);
    }
}

/// A key that no entry has is not found.
pub proof fn lemma_absent<K, V>(s: Seq<(K, V)>, k: K)
    requires
        forall|i: int| 0 <= i < s.len() ==> (#[trigger] s[i]).0 != k,
    ensures
        !known(s, k),
        lookup(s, k) is None,
        without(s, k) == s,
{
    if known(s, k) {
        assert(at(s, k, position(s, k)));
    }
}

/// Taking the entry of one key out removes that key and leaves every other.
pub proof fn lemma_without<K, V>(s: Seq<(K, V)>, k: K)
    requires
        distinct(s),
    ensures
        distinct(without(s, k)),
        !known(without(s, k), k),
        forall|j: K| #![trigger lookup(without(s, k), j)]
            lookup(without(s, k), j) == (if j == k { None } else { lookup(s, j) }),
        forall|j: K| #![trigger known(without(s, k), j)]
            known(without(s, k), j) == (j != k && known(s, j)),
        without(s, k).len() == (if known(s, k) { s.len() - 1 } else { s.len() as int }),
{
    let t = without(s, k);
    if known(s, k) {
        let p = position(s, k);
        assert(at(s, k, p));
        assert forall|i: int, j: int|
            0 <= i < t.len() && 0 <= j < t.len() && i != j implies (#[trigger] t[i]).0
            != (#[trigger] t[j]).0 by {
            let a = if i < p { i } else { i + 1 };
            let b = if j < p { j } else { j + 1 };
            assert(s[a].0 != s[b].0);
        }
        assert forall|i: int| 0 <= i < t.len() implies (#[trigger] t[i]).0 != k by {
            let a = if i < p { i } else { i + 1 };
            assert(s[a].0 != s[p].0);
        }
        lemma_absent(t, k);
        assert forall|j: K| j != k && known(s, j) implies #[trigger] lookup(t, j) == lookup(s, j)
            && known(t, j) by {
            let q = position(s, j);
            assert(at(s, j, q));
            let b = if q < p { q } else { q - 1 };
            assert(at(t, j, b));
            lemma_at(t, j, b);
            lemma_at(s, j, q);
        }
        assert forall|j: K| #[trigger] known(t, j) implies j != k && known(s, j) by {
            let b = position(t, j);
            assert(at(t, j, b));
            let q = if b < p { b } else { b + 1 };
            assert(at(s, j, q));
        }
        assert forall|j: K| #[trigger] known(t, j) == (j != k && known(s, j)) by {
            if j != k && known(s, j) {
                assert(lookup(t, j) == lookup(s, j));
            }
        }
        assert forall|j: K| #[trigger]
            lookup(t, j) == (if j == k { None } else { lookup(s, j) }) by {
            if j != k && !known(s, j) {
                assert(!known(t, j));
            }
        }
    }
}

/// Putting an entry for an absent key at the front adds that key and leaves every other.
pub proof fn lemma_prepend<K, V>(s: Seq<(K, V)>, k: K, v: V)
    requires
        distinct(s),
        !known(s, k),
    ensures
        distinct(seq![(k, v)] + s),
        known(seq![(k, v)] + s, k),
        forall|j: K| #![trigger lookup(seq![(k, v)] + s, j)]
            lookup(seq![(k, v)] + s, j) == (if j == k { Some(v) } else { lookup(s, j) }),
{
    let t = seq![(k, v)] + s;
    assert forall|i: int| 0 <= i < s.len() implies (#[trigger] s[i]).0 != k by {
        if s[i].0 == k {
            assert(at(s, k, i));
        }
    }
    assert forall|i: int, j: int|
        0 <= i < t.len() && 0 <= j < t.len() && i != j implies (#[trigger] t[i]).0
        != (#[trigger] t[j]).0 by {
        if i > 0 {
            assert(t[i] == s[i - 1]);
        }
        if j > 0 {
            assert(t[j] == s[j - 1]);
        }
    }
    assert(at(t, k, 0));
    lemma_at(t, k, 0);
    assert forall|j: K| j != k implies #[trigger] lookup(t, j) == lookup(s, j) by {
        if known(s, j) {
            let q = position(s, j);
            assert(at(s, j, q));
            assert(at(t, j, q + 1));
            lemma_at(t, j, q + 1);
            lemma_at(s, j, q);
        } else {
            if known(t, j) {
                let q = position(t, j);
                assert(at(t, j, q));
                assert(at(s, j, q - 1));
            }
        }
    }
}

/// Putting an entry for an absent key at the back adds that key and leaves every other.
pub proof fn lemma_append<K, V>(s: Seq<(K, V)>, k: K, v: V)
    requires
        distinct(s),
        !known(s, k),
    ensures
        distinct(s.push((k, v))),
        known(s.push((k, v)), k),
        forall|j: K| #![trigger lookup(s.push((k, v)), j)]
            lookup(s.push((k, v)), j) == (if j == k { Some(v) } else { lookup(s, j) }),
{
    let t = s.push((k, v));
    assert forall|i: int| 0 <= i < s.len() implies (#[trigger] s[i]).0 != k by {
        if s[i].0 == k {
            assert(at(s, k, i));
        }
    }
    assert(at(t, k, s.len() as int));
    lemma_at(t, k, s.len() as int);
    assert forall|j: K| j != k implies #[trigger] lookup(t, j) == lookup(s, j) by {
        if known(s, j) {
            let q = position(s, j);
            assert(at(s, j, q));
            assert(at(t, j, q));
            lemma_at(t, j, q);
            lemma_at(s, j, q);
        } else {
            if known(t, j) {
                let q = position(t, j);
                assert(at(t, j, q));
                assert(at(s, j, q));
            }
        }
    }
}

/// A part of an association list has the entries of the list that it keeps, and no others.
pub proof fn lemma_subrange<K, V>(s: Seq<(K, V)>, a: int, b: int)
    requires
        distinct(s),
        0 <= a <= b <= s.len(),
    ensures
        distinct(s.subrange(a, b)),
        forall|j: K| #![trigger lookup(s.subrange(a, b), j)]
            lookup(s.subrange(a, b), j) is Some ==> lookup(s.subrange(a, b), j) == lookup(s, j),
        forall|j: K| #![trigger lookup(s.subrange(a, b), j)]
            (known(s, j) && a <= position(s, j) < b) ==> lookup(s.subrange(a, b), j) == lookup(s, j),
{
    let t = s.subrange(a, b);
    assert forall|i: int, j: int|
        0 <= i < t.len() && 0 <= j < t.len() && i != j implies (#[trigger] t[i]).0
        != (#[trigger] t[j]).0 by {
        assert(s[a + i].0 != s[a + j].0);
    }
    assert forall|j: K| #[trigger] lookup(t, j) is Some implies lookup(t, j) == lookup(s, j) by {
        let q = position(t, j);
        assert(at(t, j, q));
        assert(at(s, j, a + q));
        lemma_at(s, j, a + q);
    }
    assert forall|j: K| known(s, j) && a <= position(s, j) < b implies #[trigger] lookup(t, j)
        == lookup(s, j) by {
        let q = position(s, j);
        assert(at(s, j, q));
        assert(at(t, j, q - a));
        lemma_at(t, j, q - a);
    }
}

/// `s` with `f` applied to every value.
pub open spec fn mapped<K, A, B>(s: Seq<(K, A)>, f: spec_fn(A) -> B) -> Seq<(K, B)> {
    s.map_values(|e: (K, A)| (e.0, f(e.1)))
}

/// Mapping the values keeps the keys and their order.
pub proof fn lemma_mapped<K, A, B>(s: Seq<(K, A)>, f: spec_fn(A) -> B, k: K)
    requires
        distinct(s),
    ensures
        distinct(mapped(s, f)),
        known(mapped(s, f), k) == known(s, k),
        lookup(mapped(s, f), k) == (match lookup(s, k) {
            Some(v) => Some(f(v)),
            None => None,
        }),
        without(mapped(s, f), k) == mapped(without(s, k), f),
{
    let t = mapped(s, f);
    assert forall|i: int, j: int|
        0 <= i < t.len() && 0 <= j < t.len() && i != j implies (#[trigger] t[i]).0
        != (#[trigger] t[j]).0 by {
        assert(s[i].0 != s[j].0);
    }
    if known(s, k) {
        let p = position(s, k);
        assert(at(s, k, p));
        assert(at(t, k, p));
        lemma_at(t, k, p);
        lemma_at(s, k, p);
        assert(t.remove(p) =~= mapped(s.remove(p), f));
    } else {
        if known(t, k) {
            let p = position(t, k);
            assert(at(t, k, p));
            assert(at(s, k, p));
        }
    }
}

/// Taking the entry of a key out leaves the others in their order: those before it where they
/// were, and those after it one place nearer to the front.
pub proof fn law_without_keeps_order<K, V>(s: Seq<(K, V)>, k: K, i: int)
    requires
        distinct(s),
        at(s, k, i),
    ensures
        without(s, k) == s.take(i) + s.skip(i + 1),
{
    lemma_at(s, k, i);
    assert(s.remove(i) =~= s.take(i) + s.skip(i + 1));
}

} // verus!
