//! Disk-backed cache of remote file contents, least recently used out first.
//!
//! Cache files are named by the hexadecimal digest of the remote path. The cache tracks the
//! files and their sizes, and names the files to delete once the sizes exceed its limit.

use indexmap::IndexMap;
use vstd::prelude::*;

use crate::assoc::{at, distinct, known, lookup, position, without};
use crate::assoc::{lemma_absent, lemma_append, lemma_at, lemma_subrange, lemma_without};
use crate::digest::{digest, path_digest};
use crate::number::{hex, hex_value, is_digit, law_hex_reads_back, lemma_hex_injective, to_hex16};
use crate::path::{extended, has_extension, join, joined, law_extensions, lemma_joined_injective};
use crate::text::views;

verus! {

// ---------------------------------------------------------------------------
// The outside collection
// ---------------------------------------------------------------------------

#[verifier::external_type_specification]
#[verifier::external_body]
#[verifier::reject_recursive_types(K)]
#[verifier::reject_recursive_types(V)]
#[verifier::reject_recursive_types(S)]
pub struct ExIndexMap<K, V, S>(IndexMap<K, V, S>);

/// The entries of an `IndexMap`, in its order.
pub uninterp spec fn index_entries(m: IndexMap<String, u64>) -> Seq<(Seq<char>, u64)>;

/// `IndexMap::new`: an empty map.
#[verifier::external_body]
fn index_new() -> (m: IndexMap<String, u64>)
    ensures
        index_entries(m) == Seq::<(Seq<char>, u64)>::empty(),
{
    IndexMap::new()
}

/// `IndexMap::get`: the value under the key.
#[verifier::external_body]
fn index_get(m: &IndexMap<String, u64>, k: &str) -> (r: Option<u64>)
    ensures
        r == lookup(index_entries(*m), k@),
{
    m.get(k).copied()
}

/// `IndexMap::insert`: the value of a key that is there is replaced in its place; a new key
/// comes last.
#[verifier::external_body]
fn index_insert(m: &mut IndexMap<String, u64>, k: String, v: u64)
    ensures
        index_entries(*final(m)) == (if known(index_entries(*old(m)), k@) {
            index_entries(*old(m)).update(position(index_entries(*old(m)), k@), (k@, v))
        } else {
            index_entries(*old(m)).push((k@, v))
        }),
{
    m.insert(k, v);
}

/// `IndexMap::shift_remove`: the entry of the key goes; the others keep their order.
#[verifier::external_body]
fn index_shift_remove(m: &mut IndexMap<String, u64>, k: &str)
    ensures
        index_entries(*final(m)) == without(index_entries(*old(m)), k@),
{
    m.shift_remove(k);
}

/// `IndexMap::shift_remove_index`: the entry at the index goes and is returned; the others
/// keep their order.
#[verifier::external_body]
fn index_shift_remove_index(m: &mut IndexMap<String, u64>, i: usize) -> (r: Option<(String, u64)>)
    ensures
        match r {
            Some((k, v)) => i < index_entries(*old(m)).len() && index_entries(*old(m))[i as int]
                == (k@, v) && index_entries(*final(m)) == index_entries(*old(m)).remove(i as int),
            None => i >= index_entries(*old(m)).len() && index_entries(*final(m))
                == index_entries(*old(m)),
        },
{
    m.shift_remove_index(i)
}

// ---------------------------------------------------------------------------
// Sizes and eviction
// ---------------------------------------------------------------------------

/// The sum of the sizes of the files `s`.
pub open spec fn total(s: Seq<(Seq<char>, u64)>) -> int
    decreases s.len(),
{
    if s.len() == 0 {
        0
    } else {
        s[0].1 + total(s.drop_first())
    }
}

/// How many files have to go, oldest first, for the rest to fit in `max` bytes.
pub open spec fn excess(s: Seq<(Seq<char>, u64)>, max: u64) -> int
    decreases s.len(),
{
    if s.len() == 0 || total(s) <= max {
        0
    } else {
        1 + excess(s.drop_first(), max)
    }
}

/// The names of the files `s`.
pub open spec fn names(s: Seq<(Seq<char>, u64)>) -> Seq<Seq<char>> {
    s.map_values(|e: (Seq<char>, u64)| e.0)
}

/// `s` with the file `k` of `size` bytes as the newest.
pub open spec fn renewed(s: Seq<(Seq<char>, u64)>, k: Seq<char>, size: u64) -> Seq<
    (Seq<char>, u64),
> {
    without(s, k).push((k, size))
}

pub proof fn lemma_total_push(s: Seq<(Seq<char>, u64)>, e: (Seq<char>, u64))
    ensures
        total(s.push(e)) == total(s) + e.1,
    decreases s.len(),
{
    if s.len() == 0 {
        assert(s.push(e).drop_first() =~= Seq::<(Seq<char>, u64)>::empty());
        assert(total(s.push(e)) == e.1 + total(s.push(e).drop_first()));
    } else {
        assert(s.push(e).drop_first() =~= s.drop_first().push(e));
        lemma_total_push(s.drop_first(), e);
    }
}

pub proof fn lemma_total_remove(s: Seq<(Seq<char>, u64)>, i: int)
    requires
        0 <= i < s.len(),
    ensures
        total(s.remove(i)) == total(s) - s[i].1,
    decreases s.len(),
{
    if i == 0 {
        assert(s.remove(0) =~= s.drop_first());
    } else {
        assert(s.remove(i).drop_first() =~= s.drop_first().remove(i - 1));
        lemma_total_remove(s.drop_first(), i - 1);
    }
}

pub proof fn lemma_total_nonnegative(s: Seq<(Seq<char>, u64)>)
    ensures
        total(s) >= 0,
    decreases s.len(),
{
    if s.len() > 0 {
        lemma_total_nonnegative(s.drop_first());
    }
}

/// Taking a file out takes its size off the sum.
pub proof fn lemma_total_without(s: Seq<(Seq<char>, u64)>, k: Seq<char>)
    requires
        distinct(s),
    ensures
        total(without(s, k)) == total(s) - (match lookup(s, k) {
            Some(n) => n as int,
            None => 0,
        }),
        0 <= total(without(s, k)),
{
    lemma_total_nonnegative(without(s, k));
    if known(s, k) {
        assert(at(s, k, position(s, k)));
        lemma_total_remove(s, position(s, k));
    }
}

// ---------------------------------------------------------------------------
// The cache
// ---------------------------------------------------------------------------

/// Tracks the cache files in a directory and their sizes, oldest first.
pub struct CacheManager {
    cache_path: String,
    /// Maximum total cache size in bytes.
    max_size: u64,
    total_size: u64,
    cache: IndexMap<String, u64>,
}

impl View for CacheManager {
    type V = Seq<(Seq<char>, u64)>;

    /// The tracked files and their sizes, least recently used first.
    closed spec fn view(&self) -> Seq<(Seq<char>, u64)> {
        index_entries(self.cache)
    }
}

/// The files in a directory listing that are content files, by path: those without an
/// extension.
pub open spec fn content_files(dir: Seq<char>, files: Seq<(String, u64)>) -> Seq<(Seq<char>, u64)>
    decreases files.len(),
{
    if files.len() == 0 {
        Seq::empty()
    } else {
        let rest = content_files(dir, files.drop_last());
        let (name, size) = files.last();
        if extended(name@) {
            rest
        } else {
            rest.push((joined(dir, name@), size))
        }
    }
}

/// The local cache file of a remote path.
pub open spec fn cachefile_of(dir: Seq<char>, remote_path: Seq<char>) -> Seq<char> {
    joined(dir, hex(path_digest(remote_path) as int, 16))
}

/// No two files of a directory listing have the same name.
pub open spec fn listed_once(files: Seq<(String, u64)>) -> bool {
    forall|i: int, j: int|
        0 <= i < files.len() && 0 <= j < files.len() && i != j ==> (#[trigger] files[i]).0@
            != (#[trigger] files[j]).0@
}

/// Every content file stands for a file of the listing.
proof fn lemma_content_from(dir: Seq<char>, files: Seq<(String, u64)>, i: int) -> (j: int)
    requires
        0 <= i < content_files(dir, files).len(),
    ensures
        0 <= j < files.len(),
        content_files(dir, files)[i].0 == joined(dir, files[j].0@),
    decreases files.len(),
{
    let rest = content_files(dir, files.drop_last());
    if i < rest.len() {
        let j = lemma_content_from(dir, files.drop_last(), i);
        assert(files.drop_last()[j] == files[j]);
        j
    } else {
        files.len() - 1
    }
}

/// The content files of a longer listing take no less room.
proof fn lemma_content_grows(dir: Seq<char>, files: Seq<(String, u64)>, n: int)
    requires
        0 <= n <= files.len(),
    ensures
        total(content_files(dir, files.take(n))) <= total(content_files(dir, files)),
    decreases files.len() - n,
{
    if n < files.len() {
        lemma_content_grows(dir, files, n + 1);
        assert(files.take(n + 1).drop_last() =~= files.take(n));
        let (name, size) = files[n];
        lemma_total_push(content_files(dir, files.take(n)), (joined(dir, name@), size));
    } else {
        assert(files.take(n) =~= files);
    }
}

impl CacheManager {
    /// No file is tracked twice, and the total is the sum of the sizes.
    pub closed spec fn wf(&self) -> bool {
        &&& distinct(index_entries(self.cache))
        &&& self.total_size == total(index_entries(self.cache))
    }

    /// The bytes that the tracked files take.
    pub closed spec fn bytes(&self) -> int {
        self.total_size as int
    }

    /// The cache directory.
    pub closed spec fn dir(&self) -> Seq<char> {
        self.cache_path@
    }

    /// The most bytes that the tracked files take after an eviction.
    pub closed spec fn limit(&self) -> u64 {
        self.max_size
    }

    /// What a well-formed cache shows of itself.
    pub proof fn lemma_wf(&self)
        requires
            self.wf(),
        ensures
            distinct(self@),
            self.bytes() == total(self@),
            0 <= self.bytes() <= u64::MAX,
    {
    }

    /// The bytes that the tracked files take.
    pub fn total_size(&self) -> (n: u64)
        ensures
            n == self.bytes(),
    {
        self.total_size
    }

    /// The cache directory.
    pub fn cache_path(&self) -> (r: String)
        ensures
            r@ == self.dir(),
    {
        self.cache_path.clone()
    }

    /// Maximum total cache size in bytes.
    pub fn max_size(&self) -> (n: u64)
        ensures
            n == self.limit(),
    {
        self.max_size
    }

    /// A cache of at most `max_disk_mb` MiB in the directory `cache_path`, which holds the
    /// given files. Files with an extension hold metadata and are not tracked.
    pub fn new(cache_path: String, max_disk_mb: u64, files: Vec<(String, u64)>) -> (c: Self)
        requires
            listed_once(files@),
            total(content_files(cache_path@, files@)) <= u64::MAX,
        ensures
            c.wf(),
            c.dir() == cache_path@,
            c.limit() == (max_disk_mb * 0x10_0000) % 0x1_0000_0000_0000_0000,
            c@ == content_files(cache_path@, files@),
    {
        let max_size: u64 = max_disk_mb << 20;
        assert(max_disk_mb << 20 == (max_disk_mb * 0x10_0000) % 0x1_0000_0000_0000_0000)
            by (bit_vector);
        let mut cache = index_new();
        let mut total_size: u64 = 0;
        let mut i: usize = 0;
        assert(files@.take(0) =~= Seq::<(String, u64)>::empty());
        while i < files.len()
            invariant
                i <= files@.len(),
                listed_once(files@),
                total(content_files(cache_path@, files@)) <= u64::MAX,
                index_entries(cache) == content_files(cache_path@, files@.take(i as int)),
                distinct(index_entries(cache)),
                total_size == total(index_entries(cache)),
            decreases files@.len() - i,
        {
            let ghost seen = files@.take(i as int);
            let ghost before = index_entries(cache);
            let (name, size) = &files[i];
            proof {
                assert(files@.take(i + 1).drop_last() =~= seen);
            }
            if !has_extension(name) {
                let path = join(cache_path.as_str(), name);
                proof {
                    assert forall|j: int| 0 <= j < before.len() implies (#[trigger] before[j]).0
                        != path@ by {
                        let n = lemma_content_from(cache_path@, seen, j);
                        if before[j].0 == path@ {
                            lemma_joined_injective(cache_path@, seen[n].0@, name@);
                            assert(files@[n].0@ == files@[i as int].0@);
                        }
                    }
                    lemma_absent(before, path@);
                    lemma_append(before, path@, *size);
                    lemma_total_push(before, (path@, *size));
                    lemma_content_grows(cache_path@, files@, i + 1);
                }
                total_size = total_size + *size;
                index_insert(&mut cache, path, *size);
            }
            i = i + 1;
        }
        assert(files@.take(i as int) =~= files@);
        CacheManager { cache_path, max_size, total_size, cache }
    }

    /// Returns the local cache file path for the given remote path.
    pub fn cachefile(&self, remote_path: &str) -> (r: String)
        ensures
            r@ == cachefile_of(self.dir(), remote_path@),
    {
        join(self.cache_path.as_str(), to_hex16(digest(remote_path)).as_str())
    }

    /// Marks a cache file as recently used.
    pub fn renew(&mut self, key: &str)
        requires
            old(self).wf(),
        ensures
            final(self).wf(),
            final(self).dir() == old(self).dir(),
            final(self).limit() == old(self).limit(),
            final(self).bytes() == old(self).bytes(),
            final(self)@ == (match lookup(old(self)@, key@) {
                Some(size) => renewed(old(self)@, key@, size),
                None => old(self)@,
            }),
    {
        let ghost s = self@;
        match index_get(&self.cache, key) {
            Some(size) => {
                proof {
                    lemma_without(s, key@);
                    lemma_append(without(s, key@), key@, size);
                    lemma_total_without(s, key@);
                    lemma_total_push(without(s, key@), (key@, size));
                }
                index_shift_remove(&mut self.cache, key);
                index_insert(&mut self.cache, key.to_owned(), size);
            },
            None => {},
        }
    }

    /// Tells whether the total can be counted once a cache file of `size` bytes is tracked.
    pub fn fits(&self, key: &str, size: u64) -> (r: bool)
        requires
            self.wf(),
        ensures
            r == (total(renewed(self@, key@, size)) <= u64::MAX),
    {
        proof {
            lemma_total_without(self@, key@);
            lemma_total_push(without(self@, key@), (key@, size));
        }
        match index_get(&self.cache, key) {
            Some(n) => {
                proof {
                    lemma_without(self@, key@);
                    lemma_total_nonnegative(without(self@, key@));
                }
                size <= u64::MAX - (self.total_size - n)
            },
            None => size <= u64::MAX - self.total_size,
        }
    }

    /// Records that a cache file was written; `size` is its size, if it could be read.
    /// Returns the files to delete, oldest first, where the total exceeds the limit.
    pub fn put(&mut self, key: &str, size: Option<u64>) -> (evicted: Vec<String>)
        requires
            old(self).wf(),
            size matches Some(n) ==> total(renewed(old(self)@, key@, n)) <= u64::MAX,
        ensures
            final(self).wf(),
            final(self).dir() == old(self).dir(),
            final(self).limit() == old(self).limit(),
            match size {
                Some(n) => {
                    let t = renewed(old(self)@, key@, n);
                    let e = excess(t, old(self).limit());
                    &&& final(self)@ == t.skip(e)
                    &&& views(evicted@) == names(t.take(e))
                },
                None => final(self)@ == old(self)@ && evicted@.len() == 0 && final(self).bytes()
                    == old(self).bytes(),
            },
    {
        let mut evicted: Vec<String> = Vec::new();
        let new_size: u64 = match size {
            Some(n) => n,
            None => {
                return evicted;
            },
        };
        let ghost s = self@;
        let ghost t = renewed(s, key@, new_size);
        proof {
            lemma_without(s, key@);
            lemma_append(without(s, key@), key@, new_size);
            lemma_total_without(s, key@);
            lemma_total_push(without(s, key@), (key@, new_size));
        }
        match index_get(&self.cache, key) {
            Some(size_before) => {
                self.total_size = self.total_size.saturating_sub(size_before);
            },
            None => {},
        }
        index_shift_remove(&mut self.cache, key);
        self.total_size = self.total_size + new_size;
        index_insert(&mut self.cache, key.to_owned(), new_size);
        let ghost mut e: int = 0;
        proof {
            assert(t.skip(0) =~= t);
            assert(views(evicted@) =~= names(t.take(0)));
        }
        while self.total_size > self.max_size
            invariant
                self.wf(),
                self.cache_path == old(self).cache_path,
                self.max_size == old(self).max_size,
                distinct(t),
                0 <= e <= t.len(),
                index_entries(self.cache) == t.skip(e),
                views(evicted@) == names(t.take(e)),
                excess(t, self.max_size) == e + excess(t.skip(e), self.max_size),
            decreases t.len() - e,
        {
            let ghost cur = t.skip(e);
            proof {
                assert(cur.len() > 0) by {
                    if cur.len() == 0 {
                        assert(total(cur) == 0);
                    }
                }
                assert(cur.remove(0) =~= cur.drop_first());
                assert(cur.drop_first() =~= t.skip(e + 1));
                lemma_total_nonnegative(t.skip(e + 1));
            }
            match index_shift_remove_index(&mut self.cache, 0) {
                Some((k, n)) => {
                    let ghost before = evicted@;
                    self.total_size = self.total_size.saturating_sub(n);
                    evicted.push(k);
                    proof {
                        assert(t.skip(e + 1) =~= t.subrange(e + 1, t.len() as int));
                        lemma_subrange(t, e + 1, t.len() as int);
                        assert(names(t.take(e + 1)) =~= names(t.take(e)).push(t[e].0));
                        assert(views(evicted@) =~= views(before).push(k@));
                        e = e + 1;
                    }
                },
                None => {},
            }
        }
        evicted
    }

    /// Removes a cache file from tracking; the caller deletes it from disk.
    pub fn pop(&mut self, key: &str)
        requires
            old(self).wf(),
        ensures
            final(self).wf(),
            final(self).dir() == old(self).dir(),
            final(self).limit() == old(self).limit(),
            final(self)@ == without(old(self)@, key@),
    {
        let ghost s = self@;
        proof {
            lemma_without(s, key@);
            lemma_total_without(s, key@);
        }
        match index_get(&self.cache, key) {
            Some(n) => {
                self.total_size = self.total_size.saturating_sub(n);
            },
            None => {},
        }
        index_shift_remove(&mut self.cache, key);
    }
}

// ---------------------------------------------------------------------------
// Laws
// ---------------------------------------------------------------------------

/// What an eviction leaves fits in the limit, and the eviction takes no file more than it
/// has to: any fewer would leave more than the limit.
pub proof fn law_eviction_is_least(t: Seq<(Seq<char>, u64)>, max: u64)
    ensures
        0 <= excess(t, max) <= t.len(),
        total(t.skip(excess(t, max))) <= max,
        forall|e: int| 0 <= e < excess(t, max) ==> total(#[trigger] t.skip(e)) > max,
    decreases t.len(),
{
    if t.len() == 0 || total(t) <= max {
        assert(t.skip(0) =~= t);
    } else {
        let r = t.drop_first();
        law_eviction_is_least(r, max);
        assert(r.skip(excess(r, max)) =~= t.skip(excess(t, max)));
        assert forall|e: int| 0 <= e < excess(t, max) implies total(#[trigger] t.skip(e)) > max by {
            if e == 0 {
                assert(t.skip(0) =~= t);
            } else {
                assert(t.skip(e) =~= r.skip(e - 1));
            }
        }
    }
}

/// Sixteen hexadecimal digits hold every digest.
proof fn lemma_sixteen_digits()
    ensures
        vstd::arithmetic::power::pow(16, 16) == 0x1_0000_0000_0000_0000,
{
    reveal(vstd::arithmetic::power::pow);
    reveal_with_fuel(vstd::arithmetic::power::pow, 17);
}

/// Two remote paths share a cache file only where they have the same digest.
pub proof fn law_cache_files_differ(dir: Seq<char>, a: Seq<char>, b: Seq<char>)
    requires
        cachefile_of(dir, a) == cachefile_of(dir, b),
    ensures
        path_digest(a) == path_digest(b),
{
    lemma_joined_injective(
        dir,
        hex(path_digest(a) as int, 16),
        hex(path_digest(b) as int, 16),
    );
    lemma_sixteen_digits();
    lemma_hex_injective(path_digest(a) as int, path_digest(b) as int, 16);
}

/// A file that fits in the limit by itself stays in the cache when it is put there, and is
/// found with its new size.
pub proof fn law_put_keeps_what_fits(s: Seq<(Seq<char>, u64)>, k: Seq<char>, size: u64, max: u64)
    requires
        distinct(s),
        size <= max,
    ensures
        ({
            let t = renewed(s, k, size);
            lookup(t.skip(excess(t, max)), k) == Some(size)
        }),
{
    let t = renewed(s, k, size);
    let n = t.len() - 1;
    let e = excess(t, max);
    lemma_without(s, k);
    lemma_append(without(s, k), k, size);
    law_eviction_is_least(t, max);
    if e > n {
        assert(t.skip(n) =~= seq![(k, size)]);
        assert(total(t.skip(n)) == size) by {
            assert(t.skip(n).drop_first() =~= Seq::<(Seq<char>, u64)>::empty());
            assert(total(t.skip(n)) == t.skip(n)[0].1 + total(t.skip(n).drop_first()));
        }
    }
    assert(t.skip(e) =~= t.subrange(e, t.len() as int));
    lemma_subrange(t, e, t.len() as int);
    assert(at(t.skip(e), k, n - e));
    lemma_at(t.skip(e), k, n - e);
}

/// A file that is too large for the limit leaves no file in the cache when it is put there.
pub proof fn law_put_too_large(s: Seq<(Seq<char>, u64)>, k: Seq<char>, size: u64, max: u64)
    requires
        distinct(s),
        size > max,
    ensures
        ({
            let t = renewed(s, k, size);
            t.skip(excess(t, max)) == Seq::<(Seq<char>, u64)>::empty()
        }),
{
    let t = renewed(s, k, size);
    let e = excess(t, max);
    law_eviction_is_least(t, max);
    if e < t.len() {
        let u = t.skip(e);
        assert(u =~= u.drop_last().push((k, size)));
        lemma_total_push(u.drop_last(), (k, size));
        lemma_total_nonnegative(u.drop_last());
    }
    assert(t.skip(e) =~= Seq::<(Seq<char>, u64)>::empty());
}

/// Marking a file as used changes no file's size, tracks no new file and drops none.
pub proof fn law_renew_keeps_files(s: Seq<(Seq<char>, u64)>, k: Seq<char>, j: Seq<char>)
    requires
        distinct(s),
        known(s, k),
    ensures
        lookup(renewed(s, k, lookup(s, k)->0), j) == lookup(s, j),
        renewed(s, k, lookup(s, k)->0).len() == s.len(),
{
    lemma_without(s, k);
    lemma_append(without(s, k), k, lookup(s, k)->0);
}

/// The file that was used last is the last to go: putting another file evicts it only where
/// it evicts every file that was used before it.
pub proof fn law_oldest_goes_first(t: Seq<(Seq<char>, u64)>, max: u64, k: Seq<char>)
    requires
        distinct(t),
        known(t, k),
        lookup(t.skip(excess(t, max)), k) is None,
    ensures
        forall|j: Seq<char>|
            known(t, j) && position(t, j) <= position(t, k) ==> lookup(
                t.skip(excess(t, max)),
                j,
            ) is None,
{
    let e = excess(t, max);
    law_eviction_is_least(t, max);
    assert(t.skip(e) =~= t.subrange(e, t.len() as int));
    lemma_subrange(t, e, t.len() as int);
    let p = position(t, k);
    assert(at(t, k, p));
    assert(p < e);
    assert forall|j: Seq<char>| known(t, j) && position(t, j) <= p implies lookup(
        t.skip(e),
        j,
    ) is None by {
        let q = position(t, j);
        assert(at(t, j, q));
        if lookup(t.skip(e), j) is Some {
            let r = position(t.skip(e), j);
            assert(at(t.skip(e), j, r));
            assert(at(t, j, e + r));
            lemma_at(t, j, e + r);
        }
    }
}

/// A file that was put or used is the newest, and the others keep their order of use; a file that
/// leaves takes its size with it, and no other.
pub proof fn law_put_is_newest(s: Seq<(Seq<char>, u64)>, k: Seq<char>, size: u64)
    requires
        distinct(s),
    ensures
        renewed(s, k, size).last() == (k, size),
        renewed(s, k, size).drop_last() == without(s, k),
        lookup(renewed(s, k, size), k) == Some(size),
        total(renewed(s, k, size)) == total(s) + size - (match lookup(s, k) {
            Some(n) => n as int,
            None => 0,
        }),
{
    lemma_without(s, k);
    lemma_append(without(s, k), k, size);
    lemma_total_without(s, k);
    lemma_total_push(without(s, k), (k, size));
    assert(renewed(s, k, size).drop_last() =~= without(s, k));
}

/// The files of a listing without an extension are the content files, in their order, by their
/// paths in the directory and with their sizes; one with an extension is none.
pub proof fn law_content_files_have_no_extension(
    dir: Seq<char>,
    files: Seq<(String, u64)>,
    name: String,
    size: u64,
)
    ensures
        content_files(dir, Seq::empty()) == Seq::<(Seq<char>, u64)>::empty(),
        extended(name@) ==> content_files(dir, files.push((name, size))) == content_files(
            dir,
            files,
        ),
        !extended(name@) ==> content_files(dir, files.push((name, size))) == content_files(
            dir,
            files,
        ).push((joined(dir, name@), size)),
{
    assert(files.push((name, size)).drop_last() =~= files);
}

/// The cache file of a path lies in the cache directory. Its name is sixteen digits and small
/// letters, which write the digest of the path, so that it is a content file.
pub proof fn law_cache_file_is_named_by_digest(dir: Seq<char>, path: Seq<char>)
    ensures
        ({
            let name = hex(path_digest(path) as int, 16);
            &&& cachefile_of(dir, path) == joined(dir, name)
            &&& name.len() == 16
            &&& hex_value(name) == path_digest(path)
            &&& !extended(name)
        }),
{
    let name = hex(path_digest(path) as int, 16);
    lemma_sixteen_digits();
    law_hex_reads_back(path_digest(path) as int, 16);
    assert(!name.contains('.')) by {
        if name.contains('.') {
            let i = choose|i: int| 0 <= i < name.len() && name[i] == '.';
            assert(is_digit(name[i]) || 'a' <= name[i] <= 'f');
        }
    }
    law_extensions(name, name);
}

} // verus!
