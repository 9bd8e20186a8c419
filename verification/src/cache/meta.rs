//! In-memory cache of file attributes and directory listings.
//!
//! A cache holds a bounded number of entries in order of use. Where it is full, a new entry
//! takes the place of the one that was used longest ago.

use lru::LruCache;
use std::marker::PhantomData;
use std::num::NonZeroUsize;
use vstd::prelude::*;

use crate::assoc::{at, distinct, known, lookup, mapped, position, without};
use crate::assoc::{lemma_at, lemma_mapped, lemma_prepend, lemma_subrange, lemma_without};
use crate::stat::StatData;
use crate::text::views;

verus! {

// ---------------------------------------------------------------------------
// The order of use
// ---------------------------------------------------------------------------

/// `s`, most recently used first, once the key `k` has been used.
pub open spec fn used<V>(s: Seq<(Seq<char>, V)>, k: Seq<char>) -> Seq<(Seq<char>, V)> {
    if known(s, k) {
        seq![(k, lookup(s, k)->0)] + without(s, k)
    } else {
        s
    }
}

/// `s`, most recently used first, once `v` has been put under the key `k` in a cache of
/// `cap` entries: the entry of `k` comes first, and the last entry goes where there is no room.
pub open spec fn stored<V>(s: Seq<(Seq<char>, V)>, cap: nat, k: Seq<char>, v: V) -> Seq<
    (Seq<char>, V),
> {
    let t = seq![(k, v)] + without(s, k);
    if t.len() > cap {
        t.drop_last()
    } else {
        t
    }
}

// ---------------------------------------------------------------------------
// The outside collection
// ---------------------------------------------------------------------------

/// What a cache entry holds: the attributes of a path (`None` where it is absent), or the
/// names in a directory.
pub enum Cached {
    Attr(Option<StatData>),
    Listing(Vec<String>),
}

#[verifier::external_type_specification]
#[verifier::external_body]
#[verifier::reject_recursive_types(K)]
#[verifier::reject_recursive_types(V)]
#[verifier::reject_recursive_types(S)]
pub struct ExLruCache<K, V, S>(LruCache<K, V, S>);

#[verifier::external_type_specification]
#[verifier::external_body]
pub struct ExLruHasher(lru::DefaultHasher);

/// The entries of an `LruCache`, most recently used first.
pub uninterp spec fn lru_entries(c: LruCache<String, Cached>) -> Seq<(Seq<char>, Cached)>;

/// The number of entries that an `LruCache` was made for.
pub uninterp spec fn lru_capacity(c: LruCache<String, Cached>) -> nat;

/// The largest number of entries that a cache may be made for: the room for them, at eight
/// bytes and a control byte in a table that is at most seven eighths full, is less than an
/// allocation may hold where addresses have 32 bits.
pub const MAX_ENTRIES: usize = 0x700_0000;

/// `LruCache::new`: an empty cache for `cap` entries. It sets the room for them aside at
/// once, and panics where that is more than an allocation may hold.
#[verifier::external_body]
fn lru_new(cap: usize) -> (c: LruCache<String, Cached>)
    requires
        0 < cap <= MAX_ENTRIES,
    ensures
        lru_entries(c) == Seq::<(Seq<char>, Cached)>::empty(),
        lru_capacity(c) == cap,
{
    LruCache::new(NonZeroUsize::new(cap).unwrap())
}

/// `LruCache::get`: the value under the key, whose entry becomes the most recently used.
#[verifier::external_body]
fn lru_get<'a>(c: &'a mut LruCache<String, Cached>, k: &str) -> (r: Option<&'a Cached>)
    ensures
        match r {
            Some(v) => lookup(lru_entries(*old(c)), k@) == Some(*v),
            None => lookup(lru_entries(*old(c)), k@) is None,
        },
        lru_entries(*final(c)) == used(lru_entries(*old(c)), k@),
        lru_capacity(*final(c)) == lru_capacity(*old(c)),
{
    c.get(k)
}

/// `LruCache::put`: the value goes under the key as the most recently used entry; where the
/// key is new and the cache is full, the least recently used entry goes.
#[verifier::external_body]
fn lru_put(c: &mut LruCache<String, Cached>, k: String, v: Cached)
    ensures
        lru_entries(*final(c)) == stored(lru_entries(*old(c)), lru_capacity(*old(c)), k@, v),
        lru_capacity(*final(c)) == lru_capacity(*old(c)),
{
    c.put(k, v);
}

/// `LruCache::pop`: the entry of the key goes; the others keep their order.
#[verifier::external_body]
fn lru_pop(c: &mut LruCache<String, Cached>, k: &str)
    ensures
        lru_entries(*final(c)) == without(lru_entries(*old(c)), k@),
        lru_capacity(*final(c)) == lru_capacity(*old(c)),
{
    c.pop(k);
}

/// `LruCache::iter`: all entries, most recently used first.
#[verifier::external_body]
fn lru_iter<'a>(c: &'a LruCache<String, Cached>) -> (r: Vec<(&'a String, &'a Cached)>)
    ensures
        r@.len() == lru_entries(*c).len(),
        forall|i: int|
            0 <= i < r@.len() ==> (#[trigger] r@[i]).0@ == lru_entries(*c)[i].0 && *r@[i].1
                == lru_entries(*c)[i].1,
{
    c.iter().collect()
}

// ---------------------------------------------------------------------------
// What can be cached
// ---------------------------------------------------------------------------

/// A kind of value that a cache can hold.
pub trait Metadata: Sized {
    /// What contracts say of a value.
    type Model;

    spec fn model(&self) -> Self::Model;

    /// The value of this kind that an entry holds, if it holds one.
    spec fn model_in(c: Cached) -> Option<Self::Model>;

    fn into_cached(self) -> (c: Cached)
        ensures
            Self::model_in(c) == Some(self.model()),
    ;

    fn from_cached(c: &Cached) -> (r: Option<Self>)
        ensures
            match r {
                Some(v) => Self::model_in(*c) == Some(v.model()),
                None => Self::model_in(*c) is None,
            },
    ;
}

impl Metadata for Option<StatData> {
    type Model = Option<StatData>;

    open spec fn model(&self) -> Option<StatData> {
        *self
    }

    open spec fn model_in(c: Cached) -> Option<Option<StatData>> {
        match c {
            Cached::Attr(a) => Some(a),
            Cached::Listing(_) => None,
        }
    }

    fn into_cached(self) -> (c: Cached) {
        Cached::Attr(self)
    }

    fn from_cached(c: &Cached) -> (r: Option<Self>) {
        match c {
            Cached::Attr(a) => Some(*a),
            Cached::Listing(_) => None,
        }
    }
}

/// Copies a list of strings.
pub fn clone_strings(v: &Vec<String>) -> (r: Vec<String>)
    ensures
        views(r@) == views(v@),
        r@.len() == v@.len(),
{
    let mut r: Vec<String> = Vec::new();
    let mut i: usize = 0;
    while i < v.len()
        invariant
            i <= v@.len(),
            r@.len() == i,
            forall|j: int| 0 <= j < i ==> (#[trigger] r@[j])@ == v@[j]@,
        decreases v@.len() - i,
    {
        r.push(v[i].clone());
        i = i + 1;
    }
    assert(views(r@) =~= views(v@));
    r
}

impl Metadata for Vec<String> {
    type Model = Seq<Seq<char>>;

    open spec fn model(&self) -> Seq<Seq<char>> {
        views(self@)
    }

    open spec fn model_in(c: Cached) -> Option<Seq<Seq<char>>> {
        match c {
            Cached::Attr(_) => None,
            Cached::Listing(v) => Some(views(v@)),
        }
    }

    fn into_cached(self) -> (c: Cached) {
        Cached::Listing(self)
    }

    fn from_cached(c: &Cached) -> (r: Option<Self>) {
        match c {
            Cached::Attr(_) => None,
            Cached::Listing(v) => Some(clone_strings(v)),
        }
    }
}

// ---------------------------------------------------------------------------
// The cache
// ---------------------------------------------------------------------------

/// A bounded map from paths to metadata, least recently used out first.
#[verifier::reject_recursive_types(V)]
pub struct MetaCache<V: Metadata> {
    inner: LruCache<String, Cached>,
    kind: PhantomData<V>,
}

/// Attributes by path: `None` where the path is confirmed absent.
pub type AttrCache = MetaCache<Option<StatData>>;

/// Names of entries by directory path.
pub type DirCache = MetaCache<Vec<String>>;

/// Reads the value out of an entry.
pub open spec fn reader<V: Metadata>() -> spec_fn(Cached) -> V::Model {
    |c: Cached| V::model_in(c)->0
}

impl<V: Metadata> View for MetaCache<V> {
    type V = Seq<(Seq<char>, V::Model)>;

    /// The entries, most recently used first.
    closed spec fn view(&self) -> Seq<(Seq<char>, V::Model)> {
        mapped(lru_entries(self.inner), reader::<V>())
    }
}

impl<V: Metadata> MetaCache<V> {
    /// The most entries that the cache holds at a time.
    pub closed spec fn capacity(&self) -> nat {
        lru_capacity(self.inner)
    }

    /// No path has two entries, the entries fit, and each holds a value of this kind.
    pub closed spec fn wf(&self) -> bool {
        &&& distinct(lru_entries(self.inner))
        &&& lru_entries(self.inner).len() <= lru_capacity(self.inner)
        &&& lru_capacity(self.inner) > 0
        &&& forall|i: int|
            0 <= i < lru_entries(self.inner).len() ==> V::model_in(
                (#[trigger] lru_entries(self.inner)[i]).1,
            ) is Some
    }

    /// What a well-formed cache shows of itself.
    pub proof fn lemma_wf(&self)
        requires
            self.wf(),
        ensures
            distinct(self@),
            self@.len() <= self.capacity(),
            self.capacity() > 0,
    {
        lemma_mapped(lru_entries(self.inner), reader::<V>(), Seq::empty());
    }

    /// An empty cache for `maxsize` entries.
    pub fn new(maxsize: usize) -> (c: Self)
        requires
            0 < maxsize <= MAX_ENTRIES,
        ensures
            c.wf(),
            c@ == Seq::<(Seq<char>, V::Model)>::empty(),
            c.capacity() == maxsize,
    {
        let c = MetaCache { inner: lru_new(maxsize), kind: PhantomData };
        assert(c@ =~= Seq::<(Seq<char>, V::Model)>::empty());
        c
    }

    /// Returns the value under `k` and makes it the most recently used.
    pub fn get(&mut self, k: &str) -> (r: Option<V>)
        requires
            old(self).wf(),
        ensures
            final(self).wf(),
            final(self)@ == used(old(self)@, k@),
            final(self).capacity() == old(self).capacity(),
            match r {
                Some(v) => lookup(old(self)@, k@) == Some(v.model()),
                None => lookup(old(self)@, k@) is None,
            },
    {
        let ghost s = lru_entries(self.inner);
        let r = match lru_get(&mut self.inner, k) {
            Some(c) => {
                proof {
                    assert(at(s, k@, position(s, k@)));
                }
                V::from_cached(c)
            },
            None => None,
        };
        proof {
            let f = reader::<V>();
            lemma_mapped(s, f, k@);
            lemma_without(s, k@);
            if known(s, k@) {
                let p = position(s, k@);
                assert(at(s, k@, p));
                lemma_prepend(without(s, k@), k@, s[p].1);
                lemma_at(s, k@, p);
                let t = lru_entries(self.inner);
                assert(t =~= seq![(k@, s[p].1)] + s.remove(p));
                assert(mapped(t, f) =~= seq![(k@, f(s[p].1))] + mapped(s.remove(p), f));
                assert forall|i: int| 0 <= i < t.len() implies V::model_in((#[trigger] t[i]).1) is Some by {
                    if i > 0 {
                        assert(t[i] == s[if i - 1 < p { i - 1 } else { i }]);
                    }
                }
            }
        }
        r
    }

    /// Puts `v` under `k` as the most recently used entry.
    pub fn put(&mut self, k: String, v: V)
        requires
            old(self).wf(),
        ensures
            final(self).wf(),
            final(self)@ == stored(old(self)@, old(self).capacity(), k@, v.model()),
            final(self).capacity() == old(self).capacity(),
    {
        let ghost s = lru_entries(self.inner);
        let ghost m = v.model();
        let c = v.into_cached();
        let ghost key = k@;
        lru_put(&mut self.inner, k, c);
        proof {
            let f = reader::<V>();
            lemma_mapped(s, f, key);
            lemma_without(s, key);
            let w = without(s, key);
            lemma_prepend(w, key, c);
            let t = seq![(key, c)] + w;
            assert(mapped(t, f) =~= seq![(key, m)] + mapped(w, f));
            assert(mapped(t.drop_last(), f) =~= mapped(t, f).drop_last());
            assert(t.drop_last() =~= t.subrange(0, t.len() - 1));
            lemma_subrange(t, 0, t.len() - 1);
            let u = lru_entries(self.inner);
            assert forall|i: int| 0 <= i < u.len() implies V::model_in((#[trigger] u[i]).1) is Some by {
                assert(u[i] == t[i]);
                if i > 0 {
                    assert(t[i] == w[i - 1]);
                    if known(s, key) {
                        let p = position(s, key);
                        assert(at(s, key, p));
                        assert(w[i - 1] == s[if i - 1 < p { i - 1 } else { i }]);
                    }
                }
            }
        }
    }

    /// Removes the entry of `k`.
    pub fn remove(&mut self, k: &str)
        requires
            old(self).wf(),
        ensures
            final(self).wf(),
            final(self)@ == without(old(self)@, k@),
            final(self).capacity() == old(self).capacity(),
    {
        let ghost s = lru_entries(self.inner);
        lru_pop(&mut self.inner, k);
        proof {
            lemma_mapped(s, reader::<V>(), k@);
            lemma_without(s, k@);
            let w = lru_entries(self.inner);
            if known(s, k@) {
                let p = position(s, k@);
                assert(at(s, k@, p));
                assert forall|i: int| 0 <= i < w.len() implies V::model_in((#[trigger] w[i]).1) is Some by {
                    assert(w[i] == s[if i < p { i } else { i + 1 }]);
                }
            }
        }
    }

    /// All entries at this instant, most recently used first.
    pub fn snapshot(&self) -> (r: Vec<(String, V)>)
        requires
            self.wf(),
        ensures
            r@.map_values(|e: (String, V)| (e.0@, e.1.model())) == self@,
    {
        let all = lru_iter(&self.inner);
        let ghost s = lru_entries(self.inner);
        let mut r: Vec<(String, V)> = Vec::new();
        let mut i: usize = 0;
        while i < all.len()
            invariant
                self.wf(),
                s == lru_entries(self.inner),
                all@.len() == s.len(),
                forall|j: int|
                    0 <= j < all@.len() ==> (#[trigger] all@[j]).0@ == s[j].0 && *all@[j].1
                        == s[j].1,
                i <= all@.len(),
                r@.len() == i,
                forall|j: int|
                    0 <= j < i ==> (#[trigger] r@[j]).0@ == s[j].0 && Some(r@[j].1.model())
                        == V::model_in(s[j].1),
            decreases all@.len() - i,
        {
            let (k, c) = all[i];
            assert(all@[i as int].0@ == s[i as int].0);
            match V::from_cached(c) {
                Some(v) => {
                    r.push((k.clone(), v));
                },
                None => {
                    assert(false);
                },
            }
            i = i + 1;
        }
        assert(r@.map_values(|e: (String, V)| (e.0@, e.1.model())) =~= self@);
        r
    }
}

// ---------------------------------------------------------------------------
// Laws
// ---------------------------------------------------------------------------

/// What is put under a key is found there.
pub proof fn law_put_then_get<V>(s: Seq<(Seq<char>, V)>, cap: nat, k: Seq<char>, v: V)
    requires
        distinct(s),
        cap > 0,
    ensures
        lookup(stored(s, cap, k, v), k) == Some(v),
{
    lemma_without(s, k);
    lemma_prepend(without(s, k), k, v);
    let t = seq![(k, v)] + without(s, k);
    let u = stored(s, cap, k, v);
    assert(t.drop_last() =~= t.subrange(0, t.len() - 1));
    lemma_subrange(t, 0, t.len() - 1);
    assert(at(u, k, 0));
    lemma_at(u, k, 0);
}

/// Putting a value leaves every other entry as it was, but for the one that was used longest
/// ago, which goes where the cache is full and the key is new.
pub proof fn law_put_keeps_others<V>(
    s: Seq<(Seq<char>, V)>,
    cap: nat,
    k: Seq<char>,
    v: V,
    j: Seq<char>,
)
    requires
        distinct(s),
        s.len() <= cap,
        j != k,
    ensures
        lookup(stored(s, cap, k, v), j) == (if s.len() == cap && !known(s, k) && s.len() > 0
            && j == s.last().0 {
            None
        } else {
            lookup(s, j)
        }),
{
    lemma_without(s, k);
    lemma_prepend(without(s, k), k, v);
    let t = seq![(k, v)] + without(s, k);
    if s.len() == cap && !known(s, k) && s.len() > 0 {
        let u = t.drop_last();
        assert(u =~= t.subrange(0, t.len() - 1));
        lemma_subrange(t, 0, t.len() - 1);
        let n = s.len() - 1;
        if j == s.last().0 {
            if known(u, j) {
                let q = position(u, j);
                assert(at(u, j, q));
                assert(u[q] == s[q - 1]);
                assert(s[q - 1].0 != s[n].0);
            }
        } else {
            if known(s, j) {
                let q = position(s, j);
                assert(at(s, j, q));
                assert(at(t, j, q + 1));
                lemma_at(t, j, q + 1);
            } else if known(u, j) {
                let q = position(u, j);
                assert(at(u, j, q));
                assert(at(s, j, q - 1));
            }
        }
    } else if t.len() > cap {
        assert(s.len() == 0);
        assert(without(s, k) =~= s);
        assert(t.drop_last() =~= Seq::<(Seq<char>, V)>::empty());
        if known(t.drop_last(), j) {
            assert(at(t.drop_last(), j, position(t.drop_last(), j)));
        }
        if known(s, j) {
            assert(at(s, j, position(s, j)));
        }
    }
}

/// Reading an entry changes no value; it only moves the entry to the front.
pub proof fn law_get_changes_no_value<V>(s: Seq<(Seq<char>, V)>, k: Seq<char>, j: Seq<char>)
    requires
        distinct(s),
    ensures
        lookup(used(s, k), j) == lookup(s, j),
        used(s, k).len() == s.len(),
        known(s, k) ==> used(s, k)[0].0 == k,
{
    lemma_without(s, k);
    if known(s, k) {
        lemma_prepend(without(s, k), k, lookup(s, k)->0);
    }
}

/// What is removed is not found, and every other entry is as it was.
pub proof fn law_remove_then_get<V>(s: Seq<(Seq<char>, V)>, k: Seq<char>, j: Seq<char>)
    requires
        distinct(s),
    ensures
        lookup(without(s, k), j) == (if j == k { None } else { lookup(s, j) }),
{
    lemma_without(s, k);
}

/// An entry that is used or put is the most recently used, and the others keep their order of
/// use; a full cache drops the one that was used longest ago for a new path, and no other.
pub proof fn law_order_of_use<V>(s: Seq<(Seq<char>, V)>, cap: nat, k: Seq<char>, v: V)
    requires
        distinct(s),
        s.len() <= cap,
        cap > 0,
    ensures
        lookup(s, k) matches Some(u) ==> used(s, k) == seq![(k, u)] + without(s, k),
        lookup(s, k) is None ==> used(s, k) == s,
        lookup(s, k) is Some || s.len() < cap ==> stored(s, cap, k, v) == seq![(k, v)] + without(
            s,
            k,
        ),
        lookup(s, k) is None && s.len() == cap ==> stored(s, cap, k, v) == seq![(k, v)]
            + s.drop_last(),
        stored(s, cap, k, v).len() <= cap,
{
    lemma_without(s, k);
    let t = seq![(k, v)] + without(s, k);
    if lookup(s, k) is None && s.len() == cap {
        assert(t.drop_last() =~= seq![(k, v)] + s.drop_last());
    }
}

} // verus!
