//! Names in order.

use vstd::prelude::*;
use vstd::relations::{antisymmetric, reflexive, sorted_by, strongly_connected, total_ordering};
use vstd::relations::transitive;
use vstd::seq_lib::lemma_sorted_unique;

use crate::text::views;

verus! {

/// `a` does not come after `b` in the dictionary of all texts.
pub open spec fn not_after(a: Seq<char>, b: Seq<char>) -> bool
    decreases a.len(),
{
    if a.len() == 0 {
        true
    } else if b.len() == 0 {
        false
    } else if a[0] == b[0] {
        not_after(a.drop_first(), b.drop_first())
    } else {
        (a[0] as int) < (b[0] as int)
    }
}

/// The order of texts.
pub open spec fn text_order() -> spec_fn(Seq<char>, Seq<char>) -> bool {
    |a: Seq<char>, b: Seq<char>| not_after(a, b)
}

/// The texts of `s` in order.
pub open spec fn sorted(s: Seq<Seq<char>>) -> Seq<Seq<char>> {
    s.sort_by(text_order())
}

/// `r` holds the texts of `s`, each as often, in order.
pub open spec fn puts_in_order(s: Seq<Seq<char>>, r: Seq<Seq<char>>) -> bool {
    &&& sorted_by(r, text_order())
    &&& r.to_multiset() == s.to_multiset()
}

/// `slice::sort_unstable` on strings: the same strings in ascending order, which for strings
/// is that of their code points.
#[verifier::external_body]
fn std_sort_unstable(v: &mut Vec<String>)
    ensures
        puts_in_order(views(old(v)@), views(final(v)@)),
{
    v.sort_unstable();
}

proof fn lemma_reflexive(a: Seq<char>)
    ensures
        not_after(a, a),
    decreases a.len(),
{
    if a.len() > 0 {
        lemma_reflexive(a.drop_first());
    }
}

proof fn lemma_antisymmetric(a: Seq<char>, b: Seq<char>)
    requires
        not_after(a, b),
        not_after(b, a),
    ensures
        a == b,
    decreases a.len(),
{
    if a.len() > 0 && b.len() > 0 && a[0] == b[0] {
        lemma_antisymmetric(a.drop_first(), b.drop_first());
        assert(a =~= seq![a[0]] + a.drop_first());
        assert(b =~= seq![b[0]] + b.drop_first());
    } else {
        assert(a =~= b);
    }
}

proof fn lemma_transitive(a: Seq<char>, b: Seq<char>, c: Seq<char>)
    requires
        not_after(a, b),
        not_after(b, c),
    ensures
        not_after(a, c),
    decreases a.len(),
{
    if a.len() > 0 && b.len() > 0 && c.len() > 0 && a[0] == b[0] && b[0] == c[0] {
        lemma_transitive(a.drop_first(), b.drop_first(), c.drop_first());
    }
}

proof fn lemma_connected(a: Seq<char>, b: Seq<char>)
    ensures
        not_after(a, b) || not_after(b, a),
    decreases a.len(),
{
    if a.len() > 0 && b.len() > 0 && a[0] == b[0] {
        lemma_connected(a.drop_first(), b.drop_first());
    }
}

proof fn lemma_total_order()
    ensures
        total_ordering(text_order()),
{
    let r = text_order();
    assert(reflexive(r)) by {
        assert forall|a: Seq<char>| #[trigger] r(a, a) by {
            lemma_reflexive(a);
        }
    }
    assert(antisymmetric(r)) by {
        assert forall|a: Seq<char>, b: Seq<char>| #[trigger] r(a, b) && #[trigger] r(b, a) implies a
            == b by {
            lemma_antisymmetric(a, b);
        }
    }
    assert(transitive(r)) by {
        assert forall|a: Seq<char>, b: Seq<char>, c: Seq<char>| #[trigger]
            r(a, b) && #[trigger] r(b, c) implies r(a, c) by {
            lemma_transitive(a, b, c);
        }
    }
    assert(strongly_connected(r)) by {
        assert forall|a: Seq<char>, b: Seq<char>| #[trigger] r(a, b) || #[trigger] r(b, a) by {
            lemma_connected(a, b);
        }
    }
}

/// Sorts names.
pub fn sort_names(v: &mut Vec<String>)
    ensures
        views(final(v)@) == sorted(views(old(v)@)),
        final(v)@.len() == old(v)@.len(),
{
    let ghost s = views(v@);
    std_sort_unstable(v);
    proof {
        lemma_total_order();
        s.lemma_sort_by_ensures(text_order());
        lemma_sorted_unique(views(v@), sorted(s), text_order());
        vstd::seq_lib::to_multiset_len(views(v@));
        vstd::seq_lib::to_multiset_len(s);
    }
}

/// Sorting keeps every name: two listings hold the same names, each as often, exactly where
/// they are the same once sorted.
pub proof fn law_sorted_listings_agree(a: Seq<Seq<char>>, b: Seq<Seq<char>>)
    ensures
        (sorted(a) == sorted(b)) == (a.to_multiset() == b.to_multiset()),
        sorted(a).len() == a.len(),
{
    lemma_total_order();
    a.lemma_sort_by_ensures(text_order());
    b.lemma_sort_by_ensures(text_order());
    vstd::seq_lib::to_multiset_len(a);
    vstd::seq_lib::to_multiset_len(sorted(a));
    if a.to_multiset() == b.to_multiset() {
        lemma_sorted_unique(sorted(a), sorted(b), text_order());
    }
}

/// Sorting a listing keeps its names, each as often.
pub proof fn law_sorting_keeps_names(a: Seq<Seq<char>>)
    ensures
        sorted(a).to_multiset() == a.to_multiset(),
{
    lemma_total_order();
    a.lemma_sort_by_ensures(text_order());
}

/// Texts are in the order of a dictionary: a text comes before those that it starts, and of two
/// others the one with the smaller code point where they first differ.
pub proof fn law_dictionary_order(
    start: Seq<char>,
    a: char,
    b: char,
    rest: Seq<char>,
    other: Seq<char>,
)
    ensures
        not_after(start, start + rest),
        rest.len() > 0 ==> !not_after(start + rest, start),
        a as int != b as int ==> (not_after(start.push(a) + rest, start.push(b) + other) <==> (
        a as int) < (b as int)),
    decreases start.len(),
{
    if start.len() > 0 {
        let t = start.drop_first();
        law_dictionary_order(t, a, b, rest, other);
        assert((start + rest).drop_first() =~= t + rest);
        assert((start.push(a) + rest).drop_first() =~= t.push(a) + rest);
        assert((start.push(b) + other).drop_first() =~= t.push(b) + other);
    }
}

/// Sorted names are in order: none comes after the next.
pub proof fn law_sorted_is_in_order(s: Seq<Seq<char>>, i: int, j: int)
    requires
        0 <= i < j < sorted(s).len(),
    ensures
        not_after(sorted(s)[i], sorted(s)[j]),
{
    lemma_total_order();
    s.lemma_sort_by_ensures(text_order());
    let order = text_order();
    assert(order(sorted(s)[i], sorted(s)[j]));
}

} // verus!
