//! The table that maps inode numbers to full remote paths.
//!
//! The kernel names files by inode, the remote by path.

use std::collections::HashMap;
use vstd::hash_map::StringHashMap;
use vstd::prelude::*;

verus! {

broadcast use vstd::std_specs::hash::group_hash_axioms;

/// What contracts say of an inode table.
pub struct Inodes {
    /// The path of each inode.
    pub paths: Map<u64, Seq<char>>,
    /// The inode of each path.
    pub inos: Map<Seq<char>, u64>,
    /// The next inode to hand out.
    pub next: u64,
}

/// The inode of the root of the mount.
pub const ROOT_INO: u64 = 1;

impl Inodes {
    /// The table of a fresh mount: the root path is inode 1.
    pub open spec fn fresh(root: Seq<char>) -> Inodes {
        Inodes { paths: map![ROOT_INO => root], inos: map![root => ROOT_INO], next: 2 }
    }

    /// The path of an inode.
    pub open spec fn path(self, ino: u64) -> Option<Seq<char>> {
        if self.paths.contains_key(ino) {
            Some(self.paths[ino])
        } else {
            None
        }
    }

    /// The inode that `path` has, or is given.
    pub open spec fn ino(self, path: Seq<char>) -> u64 {
        if self.inos.contains_key(path) {
            self.inos[path]
        } else {
            self.next
        }
    }

    /// The table once `path` has an inode.
    pub open spec fn with(self, path: Seq<char>) -> Inodes {
        if self.inos.contains_key(path) {
            self
        } else {
            Inodes {
                paths: self.paths.insert(self.next, path),
                inos: self.inos.insert(path, self.next),
                next: (self.next + 1) as u64,
            }
        }
    }

    /// The table once the inode of `before` has the path `after`.
    pub open spec fn renamed(self, before: Seq<char>, after: Seq<char>) -> Inodes {
        if self.inos.contains_key(before) {
            Inodes {
                paths: self.paths.insert(self.inos[before], after),
                inos: self.inos.remove(before).insert(after, self.inos[before]),
                next: self.next,
            }
        } else {
            self
        }
    }

    /// The table once `path` has no inode.
    pub open spec fn removed(self, path: Seq<char>) -> Inodes {
        if self.inos.contains_key(path) {
            Inodes {
                paths: self.paths.remove(self.inos[path]),
                inos: self.inos.remove(path),
                next: self.next,
            }
        } else {
            self
        }
    }

    /// `path` has an inode, or there is one to give it.
    pub open spec fn has_room(self, path: Seq<char>) -> bool {
        self.inos.contains_key(path) || self.next < u64::MAX
    }

    /// The inode of a path has that path, and no inode is handed out before its turn.
    pub open spec fn wf(self) -> bool {
        &&& forall|p: Seq<char>| #[trigger]
            self.inos.contains_key(p) ==> self.paths.contains_key(self.inos[p])
                && self.paths[self.inos[p]] == p
        &&& forall|i: u64| #[trigger] self.paths.contains_key(i) ==> 1 <= i < self.next
        &&& self.next >= 2
    }
}

/// Maps inodes to paths and back.
pub struct InodeTable {
    ino_to_path: HashMap<u64, String>,
    path_to_ino: StringHashMap<u64>,
    next_ino: u64,
}

impl View for InodeTable {
    type V = Inodes;

    closed spec fn view(&self) -> Inodes {
        Inodes {
            paths: self.ino_to_path@.map_values(|s: String| s@),
            inos: self.path_to_ino@,
            next: self.next_ino,
        }
    }
}

impl InodeTable {
    /// The table of a fresh mount: the root path is inode 1.
    pub fn new(root_path: &str) -> (t: Self)
        ensures
            t@ == Inodes::fresh(root_path@),
            t@.wf(),
    {
        let mut ino_to_path: HashMap<u64, String> = HashMap::new();
        let mut path_to_ino: StringHashMap<u64> = StringHashMap::new();
        ino_to_path.insert(ROOT_INO, root_path.to_owned());
        path_to_ino.insert(root_path.to_owned(), ROOT_INO);
        let t = InodeTable { ino_to_path, path_to_ino, next_ino: 2 };
        proof {
            assert(t@.paths =~= Inodes::fresh(root_path@).paths);
            assert(t@.inos =~= Inodes::fresh(root_path@).inos);
        }
        t
    }

    /// The next inode to hand out.
    pub fn next_ino(&self) -> (n: u64)
        ensures
            n == self@.next,
    {
        self.next_ino
    }

    /// The inode of `path`, which is given one where it has none.
    pub fn get_or_create(&mut self, path: &str) -> (ino: u64)
        requires
            old(self)@.wf(),
            old(self)@.has_room(path@),
        ensures
            final(self)@.wf(),
            ino == old(self)@.ino(path@),
            final(self)@ == old(self)@.with(path@),
            final(self)@.path(ino) == Some(path@),
    {
        match self.path_to_ino.get(path) {
            Some(ino) => {
                return *ino;
            },
            None => {},
        }
        let ino: u64 = self.next_ino;
        self.next_ino = self.next_ino + 1;
        self.ino_to_path.insert(ino, path.to_owned());
        self.path_to_ino.insert(path.to_owned(), ino);
        proof {
            assert(self@.paths =~= old(self)@.with(path@).paths);
            lemma_with_wf(old(self)@, path@);
        }
        ino
    }

    /// The path of an inode.
    pub fn path_of(&self, ino: u64) -> (r: Option<String>)
        ensures
            match r {
                Some(p) => self@.path(ino) == Some(p@),
                None => self@.path(ino) is None,
            },
    {
        match self.ino_to_path.get(&ino) {
            Some(p) => Some(p.clone()),
            None => None,
        }
    }

    /// Gives the inode of `before` the path `after`.
    pub fn rename(&mut self, before: &str, after: &str)
        requires
            old(self)@.wf(),
        ensures
            final(self)@.wf(),
            final(self)@ == old(self)@.renamed(before@, after@),
    {
        let ino: u64 = match self.path_to_ino.get(before) {
            Some(i) => *i,
            None => {
                return;
            },
        };
        self.path_to_ino.remove(before);
        self.ino_to_path.insert(ino, after.to_owned());
        self.path_to_ino.insert(after.to_owned(), ino);
        proof {
            assert(self@.paths =~= old(self)@.renamed(before@, after@).paths);
            lemma_renamed_wf(old(self)@, before@, after@);
        }
    }

    /// Takes `path` and its inode out.
    pub fn remove(&mut self, path: &str)
        requires
            old(self)@.wf(),
        ensures
            final(self)@.wf(),
            final(self)@ == old(self)@.removed(path@),
    {
        let ino: u64 = match self.path_to_ino.get(path) {
            Some(i) => *i,
            None => {
                return;
            },
        };
        self.path_to_ino.remove(path);
        self.ino_to_path.remove(&ino);
        proof {
            assert(self@.paths =~= old(self)@.removed(path@).paths);
            lemma_removed_wf(old(self)@, path@);
        }
    }
}

/// Giving a path an inode keeps the table well formed.
pub proof fn lemma_with_wf(t: Inodes, path: Seq<char>)
    requires
        t.wf(),
        t.has_room(path),
    ensures
        t.with(path).wf(),
{
    let u = t.with(path);
    assert forall|p: Seq<char>| #[trigger] u.inos.contains_key(p) implies u.paths.contains_key(
        u.inos[p],
    ) && u.paths[u.inos[p]] == p by {
        if p != path {
            assert(t.inos.contains_key(p));
        }
    }
    assert forall|i: u64| #[trigger] u.paths.contains_key(i) implies 1 <= i < u.next by {
        if i != t.next {
            assert(t.paths.contains_key(i));
        }
    }
}

proof fn lemma_renamed_wf(t: Inodes, before: Seq<char>, after: Seq<char>)
    requires
        t.wf(),
    ensures
        t.renamed(before, after).wf(),
{
    let u = t.renamed(before, after);
    assert forall|p: Seq<char>| #[trigger] u.inos.contains_key(p) implies u.paths.contains_key(
        u.inos[p],
    ) && u.paths[u.inos[p]] == p by {
        if t.inos.contains_key(before) && p != after {
            assert(t.inos.contains_key(p));
            assert(t.paths[t.inos[before]] == before);
            assert(t.inos[p] != t.inos[before]);
        }
    }
    assert forall|i: u64| #[trigger] u.paths.contains_key(i) implies 1 <= i < u.next by {
        assert(t.paths.contains_key(i));
    }
}

proof fn lemma_removed_wf(t: Inodes, path: Seq<char>)
    requires
        t.wf(),
    ensures
        t.removed(path).wf(),
{
    let u = t.removed(path);
    assert forall|p: Seq<char>| #[trigger] u.inos.contains_key(p) implies u.paths.contains_key(
        u.inos[p],
    ) && u.paths[u.inos[p]] == p by {
        assert(t.inos.contains_key(p));
        if t.inos.contains_key(path) {
            assert(t.paths[t.inos[path]] == path);
        }
    }
    assert forall|i: u64| #[trigger] u.paths.contains_key(i) implies 1 <= i < u.next by {
        assert(t.paths.contains_key(i));
    }
}

// ---------------------------------------------------------------------------
// Laws
// ---------------------------------------------------------------------------

/// A path keeps its inode: asking twice gives the same one, and the second time changes
/// nothing; nor does the first where the path is known. The inode has the path, and the paths
/// of all others are what they were. The root of a fresh mount has the inode 1.
pub proof fn law_inode_is_stable(t: Inodes, path: Seq<char>)
    requires
        t.wf(),
        t.has_room(path),
    ensures
        t.with(path).ino(path) == t.ino(path),
        t.with(path).with(path) == t.with(path),
        t.inos.contains_key(path) ==> t.with(path) == t,
        t.with(path).path(t.ino(path)) == Some(path),
        forall|j: u64| j != t.ino(path) ==> #[trigger] t.with(path).path(j) == t.path(j),
        Inodes::fresh(path).ino(path) == ROOT_INO,
        Inodes::fresh(path).with(path) == Inodes::fresh(path),
{
}

/// A new path is given an inode that no path was given before, not even one that is gone: the
/// inodes that were handed out lie below the next one, which never shrinks.
pub proof fn law_new_inodes_are_new(t: Inodes, path: Seq<char>, before: Seq<char>, given: u64)
    requires
        t.wf(),
        t.has_room(path),
        given < t.next,
    ensures
        !t.inos.contains_key(path) ==> t.ino(path) != given && t.ino(path) >= 2,
        t.ino(path) < t.with(path).next,
        t.next <= t.with(path).next,
        t.next == t.renamed(before, path).next,
        t.next == t.removed(path).next,
{
    if t.inos.contains_key(path) {
        assert(t.paths.contains_key(t.inos[path]));
    }
}

/// Two paths never share the inode that the table gives them.
pub proof fn law_inodes_differ(t: Inodes, a: Seq<char>, b: Seq<char>)
    requires
        t.wf(),
        t.has_room(a),
        a != b,
    ensures
        t.with(a).ino(b) != t.ino(a),
{
    lemma_with_wf(t, a);
    if t.with(a).inos.contains_key(b) {
        assert(t.with(a).inos.contains_key(a));
        assert(t.with(a).paths[t.with(a).inos[b]] == b);
        assert(t.with(a).paths[t.with(a).inos[a]] == a);
    } else if t.inos.contains_key(a) {
        assert(t.paths.contains_key(t.inos[a]));
    }
}

/// Giving a path an inode changes the path of no inode that is in use.
pub proof fn law_create_keeps_paths(t: Inodes, path: Seq<char>, i: u64)
    requires
        t.wf(),
        t.has_room(path),
        t.path(i) is Some,
    ensures
        t.with(path).path(i) == t.path(i),
{
    assert(t.paths.contains_key(i));
}

/// A renamed file keeps its inode, which then has the new path; the old path has none.
pub proof fn law_rename_moves_inode(t: Inodes, before: Seq<char>, after: Seq<char>)
    requires
        t.wf(),
        t.inos.contains_key(before),
        before != after,
    ensures
        t.renamed(before, after).ino(after) == t.ino(before),
        t.renamed(before, after).path(t.ino(before)) == Some(after),
        !t.renamed(before, after).inos.contains_key(before),
{
}

/// A removed path has no inode, and its inode has no path.
pub proof fn law_remove_forgets(t: Inodes, path: Seq<char>)
    requires
        t.wf(),
        t.inos.contains_key(path),
    ensures
        !t.removed(path).inos.contains_key(path),
        t.removed(path).path(t.inos[path]) is None,
{
}

/// An inode that has been handed out is not handed out again, not even once its path is gone.
pub proof fn law_inodes_are_not_reused(t: Inodes, gone: Seq<char>, path: Seq<char>)
    requires
        t.wf(),
        t.inos.contains_key(gone),
        !t.inos.contains_key(path),
    ensures
        t.removed(gone).ino(path) != t.inos[gone],
{
    assert(t.paths.contains_key(t.inos[gone]));
}

/// In a fresh mount the root has the inode 1, and no other inode has a path.
pub proof fn law_fresh_mount_knows_root(root: Seq<char>, i: u64, path: Seq<char>)
    ensures
        Inodes::fresh(root).path(1) == Some(root),
        i != 1 ==> Inodes::fresh(root).path(i) is None,
        path != root ==> Inodes::fresh(root).ino(path) == 2,
        Inodes::fresh(root).wf(),
{
    assert forall|i: u64| #[trigger] Inodes::fresh(root).paths.contains_key(i) implies 1 <= i
        < Inodes::fresh(root).next by {
        assert(i == 1);
    }
}

/// Moving or removing a path leaves the inode of every other path alone, and the path of every
/// other inode.
pub proof fn law_others_keep_inodes(
    t: Inodes,
    before: Seq<char>,
    after: Seq<char>,
    other: Seq<char>,
    i: u64,
)
    requires
        other != before,
        other != after,
        t.inos.contains_key(before) ==> i != t.inos[before],
    ensures
        t.renamed(before, after).inos.contains_key(other) == t.inos.contains_key(other),
        t.renamed(before, after).ino(other) == t.ino(other),
        t.renamed(before, after).path(i) == t.path(i),
        t.removed(before).inos.contains_key(other) == t.inos.contains_key(other),
        t.removed(before).ino(other) == t.ino(other),
        t.removed(before).path(i) == t.path(i),
        !t.inos.contains_key(before) ==> t.renamed(before, after) == t && t.removed(before) == t,
{
}

} // verus!
