//! State shared by the filesystem, its background tasks and the cache updater.

use vstd::hash_set::StringHashSet;
use vstd::prelude::*;

use crate::assoc::{at, distinct, known, lookup, position, without};
use crate::assoc::{lemma_absent, lemma_append, lemma_at, lemma_prepend, lemma_subrange};
use crate::assoc::lemma_without;
use crate::cache::fs::{content_files, listed_once, total, CacheManager};
use crate::cache::meta::{law_put_keeps_others, law_put_then_get, stored};
use crate::cache::meta::{MetaCache, Metadata};
use crate::stat::StatData;
use crate::text::views;

pub use crate::cache::meta::{AttrCache, DirCache};

verus! {

/// Persisted metadata older than this is discarded on load.
pub const PERSIST_MAX_AGE_SECS: u64 = 600;

/// The number of entries of each metadata cache.
pub const META_ENTRIES: usize = 0x4_0000;

/// More names than any directory listing in memory can hold.
pub const MAX_LISTING: u64 = 0x1000_0000_0000_0000;

/// The attribute cache as it is saved on unmount.
pub struct PersistedMetaCache {
    pub saved_at: u64,
    pub entries: Vec<(String, Option<StatData>)>,
}

/// The directory cache as it is saved on unmount.
pub struct PersistedDirCache {
    pub saved_at: u64,
    pub entries: Vec<(String, Vec<String>)>,
}

/// The caches, and the directories that are being fetched in the background.
pub struct Shared {
    pub attr_cache: AttrCache,
    pub dir_cache: DirCache,
    pub disk_cache: CacheManager,
    /// Paths whose directory listing is being fetched in the background; no two tasks fetch
    /// the same directory.
    pub fetching_dirs: StringHashSet,
}

/// Whether metadata saved at `saved_at` is still good at `now`.
pub open spec fn fresh(now: u64, saved_at: u64) -> bool {
    now - saved_at <= PERSIST_MAX_AGE_SECS
}

/// Every listing can be counted.
pub open spec fn countable(s: Seq<(Seq<char>, Seq<Seq<char>>)>) -> bool {
    forall|i: int| 0 <= i < s.len() ==> (#[trigger] s[i]).1.len() <= MAX_LISTING
}

/// `s` once `entries` have been put into a cache of `cap` entries, in their order.
pub open spec fn all_stored<V>(
    s: Seq<(Seq<char>, V)>,
    cap: nat,
    entries: Seq<(Seq<char>, V)>,
) -> Seq<(Seq<char>, V)>
    decreases entries.len(),
{
    if entries.len() == 0 {
        s
    } else {
        let (k, v) = entries.last();
        stored(all_stored(s, cap, entries.drop_last()), cap, k, v)
    }
}

/// The view of saved attributes.
pub open spec fn saved_attrs(v: Seq<(String, Option<StatData>)>) -> Seq<
    (Seq<char>, Option<StatData>),
> {
    v.map_values(|e: (String, Option<StatData>)| (e.0@, e.1))
}

/// The view of saved listings.
pub open spec fn saved_dirs(v: Seq<(String, Vec<String>)>) -> Seq<(Seq<char>, Seq<Seq<char>>)> {
    v.map_values(|e: (String, Vec<String>)| (e.0@, views(e.1@)))
}

/// What is loaded of a saved cache into an empty one: nothing where it is missing or stale.
pub open spec fn loaded<V>(
    cap: nat,
    now: u64,
    saved: Option<(u64, Seq<(Seq<char>, V)>)>,
) -> Seq<(Seq<char>, V)> {
    match saved {
        Some((saved_at, entries)) => if fresh(now, saved_at) {
            all_stored(Seq::empty(), cap, entries)
        } else {
            Seq::empty()
        },
        None => Seq::empty(),
    }
}

/// Puts saved entries into a cache, in their order.
fn put_all<V: Metadata>(cache: &mut MetaCache<V>, entries: Vec<(String, V)>)
    requires
        old(cache).wf(),
    ensures
        final(cache).wf(),
        final(cache).capacity() == old(cache).capacity(),
        final(cache)@ == all_stored(
            old(cache)@,
            old(cache).capacity(),
            entries@.map_values(|e: (String, V)| (e.0@, e.1.model())),
        ),
{
    let ghost m = entries@.map_values(|e: (String, V)| (e.0@, e.1.model()));
    let ghost cap = cache.capacity();
    let ghost before = cache@;
    let mut rest = entries;
    let mut todo: Vec<(String, V)> = Vec::new();
    while rest.len() > 0
        invariant
            rest@.len() + todo@.len() == m.len(),
            forall|i: int|
                0 <= i < rest@.len() ==> m[i] == ((#[trigger] rest@[i]).0@, rest@[i].1.model()),
            forall|i: int|
                0 <= i < todo@.len() ==> m[m.len() - 1 - i] == ((#[trigger] todo@[i]).0@,
                todo@[i].1.model()),
        decreases rest@.len(),
    {
        match rest.pop() {
            Some(e) => {
                todo.push(e);
            },
            None => {},
        }
    }
    let ghost mut n: int = 0;
    assert(m.take(0) =~= Seq::<(Seq<char>, V::Model)>::empty());
    while todo.len() > 0
        invariant
            cache.wf(),
            cache.capacity() == cap,
            n + todo@.len() == m.len(),
            n >= 0,
            forall|i: int|
                0 <= i < todo@.len() ==> m[m.len() - 1 - i] == ((#[trigger] todo@[i]).0@,
                todo@[i].1.model()),
            cache@ == all_stored(before, cap, m.take(n)),
        decreases todo@.len(),
    {
        let ghost last = todo@[todo@.len() - 1];
        match todo.pop() {
            Some((k, v)) => {
                proof {
                    assert(m[n] == (last.0@, last.1.model()));
                    assert(m.take(n + 1).drop_last() =~= m.take(n));
                    assert(m.take(n + 1).last() == m[n]);
                }
                cache.put(k, v);
                proof {
                    n = n + 1;
                }
            },
            None => {},
        }
    }
    assert(m.take(n) =~= m);
}

/// Tells whether saved metadata is still good.
fn is_fresh(now: u64, saved_at: u64) -> (r: bool)
    ensures
        r == fresh(now, saved_at),
{
    now.saturating_sub(saved_at) <= PERSIST_MAX_AGE_SECS
}

/// Loading listings that can be counted leaves listings that can be counted.
pub proof fn lemma_stored_countable(
    s: Seq<(Seq<char>, Seq<Seq<char>>)>,
    cap: nat,
    k: Seq<char>,
    v: Seq<Seq<char>>,
)
    requires
        distinct(s),
        countable(s),
        v.len() <= MAX_LISTING,
    ensures
        countable(stored(s, cap, k, v)),
{
    let w = without(s, k);
    assert(countable(w)) by {
        if known(s, k) {
            let p = position(s, k);
            assert(at(s, k, p));
            assert forall|i: int| 0 <= i < w.len() implies (#[trigger] w[i]).1.len()
                <= MAX_LISTING by {
                assert(w[i] == s[if i < p { i } else { i + 1 }]);
            }
        }
    }
    let t = seq![(k, v)] + w;
    let u = stored(s, cap, k, v);
    assert forall|i: int| 0 <= i < u.len() implies (#[trigger] u[i]).1.len() <= MAX_LISTING by {
        assert(u[i] == t[i]);
        if i > 0 {
            assert(t[i] == w[i - 1]);
        }
    }
}

/// Putting a value into a cache leaves no path with two entries.
pub proof fn lemma_stored_distinct<V>(s: Seq<(Seq<char>, V)>, cap: nat, k: Seq<char>, v: V)
    requires
        distinct(s),
    ensures
        distinct(stored(s, cap, k, v)),
{
    lemma_without(s, k);
    lemma_prepend(without(s, k), k, v);
    let t = seq![(k, v)] + without(s, k);
    assert(t.drop_last() =~= t.subrange(0, t.len() - 1));
    lemma_subrange(t, 0, t.len() - 1);
}

proof fn lemma_all_stored_countable(
    s: Seq<(Seq<char>, Seq<Seq<char>>)>,
    cap: nat,
    entries: Seq<(Seq<char>, Seq<Seq<char>>)>,
)
    requires
        distinct(s),
        countable(s),
        countable(entries),
    ensures
        distinct(all_stored(s, cap, entries)),
        countable(all_stored(s, cap, entries)),
    decreases entries.len(),
{
    if entries.len() > 0 {
        assert forall|i: int| 0 <= i < entries.drop_last().len() implies (
        #[trigger] entries.drop_last()[i]).1.len() <= MAX_LISTING by {
            assert(entries.drop_last()[i] == entries[i]);
        }
        lemma_all_stored_countable(s, cap, entries.drop_last());
        let (k, v) = entries.last();
        assert(entries[entries.len() - 1].1.len() <= MAX_LISTING);
        lemma_stored_countable(all_stored(s, cap, entries.drop_last()), cap, k, v);
        lemma_stored_distinct(all_stored(s, cap, entries.drop_last()), cap, k, v);
    }
}

impl Shared {
    /// The caches are well formed, and every listing can be counted.
    pub open spec fn wf(&self) -> bool {
        &&& self.attr_cache.wf()
        &&& self.dir_cache.wf()
        &&& self.disk_cache.wf()
        &&& countable(self.dir_cache@)
    }

    /// The state of a mount: the disk cache in `cache_path` with the files there, and the
    /// metadata that was saved, where it is still good at `now`.
    pub fn new(
        cache_path: String,
        max_disk_mb: u64,
        files: Vec<(String, u64)>,
        now: u64,
        meta: Option<PersistedMetaCache>,
        dirs: Option<PersistedDirCache>,
    ) -> (s: Self)
        requires
            listed_once(files@),
            total(content_files(cache_path@, files@)) <= u64::MAX,
            dirs matches Some(d) ==> countable(saved_dirs(d.entries@)),
        ensures
            s.wf(),
            s.attr_cache.capacity() == META_ENTRIES,
            s.dir_cache.capacity() == META_ENTRIES,
            s.attr_cache@ == loaded(
                META_ENTRIES as nat,
                now,
                match meta {
                    Some(m) => Some((m.saved_at, saved_attrs(m.entries@))),
                    None => None,
                },
            ),
            s.dir_cache@ == loaded(
                META_ENTRIES as nat,
                now,
                match dirs {
                    Some(d) => Some((d.saved_at, saved_dirs(d.entries@))),
                    None => None,
                },
            ),
            s.disk_cache.dir() == cache_path@,
            s.disk_cache.limit() == (max_disk_mb * 0x10_0000) % 0x1_0000_0000_0000_0000,
            s.disk_cache@ == content_files(cache_path@, files@),
            s.fetching_dirs@ == Set::<Seq<char>>::empty(),
    {
        let mut attr_cache: AttrCache = MetaCache::new(META_ENTRIES);
        let mut dir_cache: DirCache = MetaCache::new(META_ENTRIES);
        match meta {
            Some(m) => {
                if is_fresh(now, m.saved_at) {
                    let ghost e = m.entries@;
                    put_all(&mut attr_cache, m.entries);
                    assert(e.map_values(|e: (String, Option<StatData>)| (e.0@, e.1.model()))
                        =~= saved_attrs(e));
                }
            },
            None => {},
        }
        proof {
            dir_cache.lemma_wf();
        }
        match dirs {
            Some(d) => {
                if is_fresh(now, d.saved_at) {
                    let ghost e = d.entries@;
                    let ghost before = dir_cache@;
                    put_all(&mut dir_cache, d.entries);
                    proof {
                        assert(e.map_values(|e: (String, Vec<String>)| (e.0@, e.1.model()))
                            =~= saved_dirs(e));
                        lemma_all_stored_countable(before, META_ENTRIES as nat, saved_dirs(e));
                    }
                }
            },
            None => {},
        }
        Shared {
            attr_cache,
            dir_cache,
            disk_cache: CacheManager::new(cache_path, max_disk_mb, files),
            fetching_dirs: StringHashSet::new(),
        }
    }

    /// Both metadata caches as they are to be saved at `now`, on unmount, so that the next
    /// mount starts with warm caches.
    pub fn save(&self, now: u64) -> (r: (PersistedMetaCache, PersistedDirCache))
        requires
            self.wf(),
        ensures
            r.0.saved_at == now,
            r.1.saved_at == now,
            saved_attrs(r.0.entries@) == self.attr_cache@,
            saved_dirs(r.1.entries@) == self.dir_cache@,
    {
        let attrs = self.attr_cache.snapshot();
        let dirs = self.dir_cache.snapshot();
        proof {
            assert(attrs@.map_values(|e: (String, Option<StatData>)| (e.0@, e.1.model()))
                =~= saved_attrs(attrs@));
            assert(dirs@.map_values(|e: (String, Vec<String>)| (e.0@, e.1.model()))
                =~= saved_dirs(dirs@));
        }
        (
            PersistedMetaCache { saved_at: now, entries: attrs },
            PersistedDirCache { saved_at: now, entries: dirs },
        )
    }
}

// ---------------------------------------------------------------------------
// Laws
// ---------------------------------------------------------------------------

proof fn lemma_reload<V>(cap: nat, entries: Seq<(Seq<char>, V)>, k: Seq<char>)
    requires
        distinct(entries),
        entries.len() <= cap,
        cap > 0,
    ensures
        distinct(all_stored(Seq::empty(), cap, entries)),
        all_stored(Seq::empty(), cap, entries).len() == entries.len(),
        lookup(all_stored(Seq::empty(), cap, entries), k) == lookup(entries, k),
    decreases entries.len(),
{
    if entries.len() == 0 {
        assert(entries =~= Seq::empty());
    } else {
        let front = entries.drop_last();
        let (j, v) = entries.last();
        let n = entries.len() - 1;
        assert(front =~= entries.subrange(0, n));
        lemma_subrange(entries, 0, n);
        lemma_reload(cap, front, k);
        lemma_reload(cap, front, j);
        let s = all_stored(Seq::empty(), cap, front);
        assert forall|i: int| 0 <= i < front.len() implies (#[trigger] front[i]).0 != j by {
            assert(front[i] == entries[i]);
            assert(entries[i].0 != entries[n].0);
        }
        lemma_absent(front, j);
        assert(lookup(s, j) is None);
        lemma_stored_distinct(s, cap, j, v);
        assert(without(s, j) == s);
        assert(at(entries, j, n));
        lemma_at(entries, j, n);
        if k == j {
            law_put_then_get(s, cap, j, v);
        } else {
            law_put_keeps_others(s, cap, j, v, k);
            lemma_append(front, j, v);
            assert(front.push((j, v)) =~= entries);
        }
    }
}

/// Saved metadata is all there after a remount within ten minutes: whatever order a saved
/// cache comes back in, every path has the entry that it had, and no other path has one.
pub proof fn law_remount_restores<V>(
    cap: nat,
    now: u64,
    saved_at: u64,
    entries: Seq<(Seq<char>, V)>,
    k: Seq<char>,
)
    requires
        distinct(entries),
        entries.len() <= cap,
        cap > 0,
        now <= saved_at + PERSIST_MAX_AGE_SECS,
    ensures
        lookup(loaded(cap, now, Some((saved_at, entries))), k) == lookup(entries, k),
{
    lemma_reload(cap, entries, k);
}

/// Metadata that was saved more than ten minutes ago is not loaded.
pub proof fn law_stale_is_discarded<V>(
    cap: nat,
    now: u64,
    saved_at: u64,
    entries: Seq<(Seq<char>, V)>,
)
    requires
        now > saved_at + PERSIST_MAX_AGE_SECS,
    ensures
        loaded(cap, now, Some((saved_at, entries))) == Seq::<(Seq<char>, V)>::empty(),
{
}

/// Saved metadata is good for ten minutes from when it was saved; what was saved later than now is
/// good too.
pub proof fn law_saved_metadata_keeps(now: u64, saved_at: u64)
    ensures
        fresh(now, saved_at) <==> now <= saved_at + 600,
{
}

} // verus!
