//! The filesystem and its state.

use vstd::prelude::*;

use crate::assoc::{at, known, lookup, position, without};
use crate::cache::meta::used;
use crate::fs::model::FsState;
use crate::inode::{InodeTable, Inodes};
use crate::shared::{countable, lemma_stored_countable, Shared, MAX_LISTING};
use crate::stat::StatData;
use crate::text::views;

verus! {

/// A remote filesystem: its inodes, and the caches that stand before the remote.
pub struct RemoteFs {
    pub inodes: InodeTable,
    pub shared: Shared,
}

impl View for RemoteFs {
    type V = FsState;

    open spec fn view(&self) -> FsState {
        FsState {
            inodes: self.inodes@,
            attrs: self.shared.attr_cache@,
            attr_cap: self.shared.attr_cache.capacity(),
            dirs: self.shared.dir_cache@,
            dir_cap: self.shared.dir_cache.capacity(),
            files: self.shared.disk_cache@,
            cache_dir: self.shared.disk_cache.dir(),
            limit: self.shared.disk_cache.limit(),
            fetching: self.shared.fetching_dirs@,
        }
    }
}

impl RemoteFs {
    /// The inodes and the caches are well formed.
    pub open spec fn wf(&self) -> bool {
        self.inodes@.wf() && self.shared.wf()
    }

    /// What a well-formed filesystem shows of itself.
    pub proof fn lemma_wf(&self)
        requires
            self.wf(),
        ensures
            self@.wf(),
    {
        self.shared.attr_cache.lemma_wf();
        self.shared.dir_cache.lemma_wf();
        self.shared.disk_cache.lemma_wf();
    }

    /// The filesystem whose root is `remote_path`.
    pub fn new(remote_path: &str, shared: Shared) -> (r: Self)
        requires
            shared.wf(),
        ensures
            r.wf(),
            r.shared == shared,
            r@.inodes == Inodes::fresh(remote_path@),
    {
        RemoteFs { inodes: InodeTable::new(remote_path), shared }
    }

    /// Tells whether there are inodes for the names of a whole directory.
    pub fn has_room(&self) -> (r: bool)
        ensures
            r == self@.roomy(),
    {
        self.inodes.next_ino() < u64::MAX - MAX_LISTING
    }

    /// Puts a path's inode in the table.
    pub(crate) fn give_ino(&mut self, path: &str) -> (ino: u64)
        requires
            old(self).wf(),
            old(self)@.inodes.next < u64::MAX,
        ensures
            final(self).wf(),
            ino == old(self)@.inodes.ino(path@),
            final(self)@ == old(self)@.with_ino(path@),
    {
        self.inodes.get_or_create(path)
    }

    pub(crate) fn drop_ino(&mut self, path: &str)
        requires
            old(self).wf(),
        ensures
            final(self).wf(),
            final(self)@ == old(self)@.without_ino(path@),
    {
        self.inodes.remove(path);
    }

    pub(crate) fn move_ino(&mut self, before: &str, after: &str)
        requires
            old(self).wf(),
        ensures
            final(self).wf(),
            final(self)@ == old(self)@.moved_ino(before@, after@),
    {
        self.inodes.rename(before, after);
    }

    pub(crate) fn cached_attr(&mut self, path: &str) -> (r: Option<Option<StatData>>)
        requires
            old(self).wf(),
        ensures
            final(self).wf(),
            r == old(self)@.attr(path@),
            final(self)@ == old(self)@.attr_used(path@),
    {
        self.shared.attr_cache.get(path)
    }

    pub(crate) fn put_attr(&mut self, path: &str, v: Option<StatData>)
        requires
            old(self).wf(),
        ensures
            final(self).wf(),
            final(self)@ == old(self)@.attr_put(path@, v),
    {
        self.shared.attr_cache.put(path.to_owned(), v);
    }

    pub(crate) fn drop_attr(&mut self, path: &str)
        requires
            old(self).wf(),
        ensures
            final(self).wf(),
            final(self)@ == old(self)@.attr_removed(path@),
    {
        self.shared.attr_cache.remove(path);
    }

    pub(crate) fn cached_dir(&mut self, path: &str) -> (r: Option<Vec<String>>)
        requires
            old(self).wf(),
        ensures
            final(self).wf(),
            match r {
                Some(v) => old(self)@.listing(path@) == Some(views(v@)) && v@.len() <= MAX_LISTING,
                None => old(self)@.listing(path@) is None,
            },
            final(self)@ == old(self)@.dir_used(path@),
    {
        proof {
            self.shared.dir_cache.lemma_wf();
            lemma_used_countable(self.shared.dir_cache@, path@);
        }
        self.shared.dir_cache.get(path)
    }

    pub(crate) fn put_dir(&mut self, path: &str, v: Vec<String>)
        requires
            old(self).wf(),
            v@.len() <= MAX_LISTING,
        ensures
            final(self).wf(),
            final(self)@ == old(self)@.dir_put(path@, views(v@)),
    {
        proof {
            self.shared.dir_cache.lemma_wf();
            lemma_stored_countable(
                self.shared.dir_cache@,
                self.shared.dir_cache.capacity(),
                path@,
                views(v@),
            );
        }
        self.shared.dir_cache.put(path.to_owned(), v);
    }

    pub(crate) fn drop_dir(&mut self, path: &str)
        requires
            old(self).wf(),
        ensures
            final(self).wf(),
            final(self)@ == old(self)@.dir_removed(path@),
    {
        proof {
            lemma_without_countable(self.shared.dir_cache@, path@);
        }
        self.shared.dir_cache.remove(path);
    }

    pub(crate) fn file_of(&self, path: &str) -> (r: String)
        ensures
            r@ == self@.file(path@),
    {
        self.shared.disk_cache.cachefile(path)
    }

    pub(crate) fn renew_file(&mut self, file: &str)
        requires
            old(self).wf(),
        ensures
            final(self).wf(),
            final(self)@ == old(self)@.file_renewed(file@),
    {
        self.shared.disk_cache.renew(file);
    }

    pub(crate) fn put_file(&mut self, file: &str, size: Option<u64>) -> (evicted: Vec<String>)
        requires
            old(self).wf(),
            old(self)@.fits(file@, size),
        ensures
            final(self).wf(),
            final(self)@ == old(self)@.file_put(file@, size),
            views(evicted@) == old(self)@.evicted(file@, size),
    {
        let r = self.shared.disk_cache.put(file, size);
        assert(size is None ==> views(r@) =~= Seq::<Seq<char>>::empty());
        r
    }

    pub(crate) fn pop_file(&mut self, file: &str)
        requires
            old(self).wf(),
        ensures
            final(self).wf(),
            final(self)@ == old(self)@.file_popped(file@),
    {
        self.shared.disk_cache.pop(file);
    }

    /// Drops what is cached of a path and of its directory.
    pub(crate) fn note_change(&mut self, path: &str, parent: &str)
        requires
            old(self).wf(),
        ensures
            final(self).wf(),
            final(self)@ == old(self)@.changed(path@, parent@),
    {
        self.drop_attr(path);
        self.drop_dir(parent);
    }
}

proof fn lemma_without_countable(s: Seq<(Seq<char>, Seq<Seq<char>>)>, k: Seq<char>)
    requires
        countable(s),
    ensures
        countable(without(s, k)),
{
    let w = without(s, k);
    if known(s, k) {
        let p = position(s, k);
        assert(at(s, k, p));
        assert forall|i: int| 0 <= i < w.len() implies (#[trigger] w[i]).1.len() <= MAX_LISTING by {
            assert(w[i] == s[if i < p { i } else { i + 1 }]);
        }
    }
}

proof fn lemma_used_countable(s: Seq<(Seq<char>, Seq<Seq<char>>)>, k: Seq<char>)
    requires
        countable(s),
    ensures
        countable(used(s, k)),
        lookup(s, k) matches Some(v) ==> v.len() <= MAX_LISTING,
{
    if known(s, k) {
        let p = position(s, k);
        assert(at(s, k, p));
        lemma_without_countable(s, k);
        let w = without(s, k);
        let u = used(s, k);
        assert(s[p].1.len() <= MAX_LISTING);
        assert forall|i: int| 0 <= i < u.len() implies (#[trigger] u[i]).1.len() <= MAX_LISTING by {
            if i > 0 {
                assert(u[i] == w[i - 1]);
            }
        }
    }
}

} // verus!
