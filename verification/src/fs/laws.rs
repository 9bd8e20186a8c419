//! What holds of requests and of the states they lead to.

use vstd::prelude::*;

use crate::assoc::{at, distinct, known, lookup, position, without};
use crate::assoc::{lemma_append, lemma_at, lemma_prepend, lemma_without};
use crate::backend::AttrChange;
use crate::cache::fs::{excess, names, renewed, total};
use crate::cache::fs::{law_eviction_is_least, law_put_keeps_what_fits};
use crate::cache::meta::{law_get_changes_no_value, law_put_then_get, stored, used};
use crate::fs::model::{dot, dotdot, entries_from, listed_names, outdated, FsState, SpecAction};
use crate::fs::model::{SpecEvent, SpecPending, SpecStep};
use crate::fs::protocol::{Action, Bytes, CachePhase, CreatePhase, DirEntry, Entries, Errno};
use crate::fs::protocol::{Event, FetchDirPhase, FetchFilePhase, Listing, Names, Pending, ReadPhase};
use crate::fs::protocol::{RenamePhase, RenewPhase, Reply, SetAttrPhase, Step, Task, Text};
use crate::fs::protocol::{UnlinkPhase, WritePhase};
use crate::path::{child_of, parent_of};
use crate::shared::{law_remount_restores, loaded, PERSIST_MAX_AGE_SECS};
use crate::sorting::{law_sorted_listings_agree, law_sorting_keeps_names, sorted};
use crate::stat::{file_attr, FileType, StatData};

verus! {

// ---------------------------------------------------------------------------
// Requests that are refused
// ---------------------------------------------------------------------------

/// A request for an inode that is not known is answered with ENOENT, and changes nothing.
pub proof fn law_unknown_inode_is_refused(
    s: FsState,
    ino: u64,
    name: Option<Text>,
    change: AttrChange,
    offset: u64,
    size: u32,
    data: Bytes,
    mode: u32,
    uid: u32,
    gid: u32,
    target: Text,
    other: u64,
    new_name: Option<Text>,
)
    requires
        s.path(ino) is None,
    ensures
        s.lookup(ino, name) == s.fails(Errno::ENOENT),
        s.getattr(ino) == s.fails(Errno::ENOENT),
        s.setattr(ino, change) == s.fails(Errno::ENOENT),
        s.read(ino, offset, size) == s.fails(Errno::ENOENT),
        s.write(ino, offset, data) == s.fails(Errno::ENOENT),
        s.readdir(ino, offset) == s.fails(Errno::ENOENT),
        s.readlink(ino) == s.fails(Errno::ENOENT),
        s.create(ino, name, mode, uid, gid) == s.fails(Errno::ENOENT),
        s.mkdir(ino, name, mode, uid, gid) == s.fails(Errno::ENOENT),
        s.symlink(ino, name, target, uid, gid) == s.fails(Errno::ENOENT),
        s.unlink(ino, name) == s.fails(Errno::ENOENT),
        s.rmdir(ino, name) == s.fails(Errno::ENOENT),
        s.rename(ino, name, other, new_name) == s.fails(Errno::ENOENT),
        s.rename(other, new_name, ino, name) == s.fails(Errno::ENOENT),
{
}

/// The request changes the remote, and waits for whether it did.
pub open spec fn awaits_change(p: SpecPending) -> bool {
    match p {
        Pending::SetAttr { phase, .. } => phase is Applied,
        Pending::Create { phase, .. } => phase is Made,
        Pending::MkDir { .. } => true,
        Pending::Symlink { .. } => true,
        Pending::Unlink { phase, .. } => phase is Deleted,
        Pending::RmDir { .. } => true,
        Pending::Rename { phase, .. } => phase is Moved,
        _ => false,
    }
}

/// A change that the remote refuses is answered with an error, and changes nothing here: no
/// cached attribute, listing, cache file or inode. The error is ENOTSUP for a symbolic link,
/// else EIO.
pub proof fn law_refused_change_keeps_state(s: FsState, p: SpecPending)
    requires
        awaits_change(p),
    ensures
        s.next(p, Event::Flag(false)) == s.fails(
            if p is Symlink {
                Errno::ENOTSUP
            } else {
                Errno::EIO
            },
        ),
{
}

// ---------------------------------------------------------------------------
// Attributes
// ---------------------------------------------------------------------------

proof fn lemma_put(s: FsState, path: Text, st: Option<StatData>)
    requires
        s.wf(),
    ensures
        s.attr_put(path, st).attr(path) == Some(st),
{
    law_put_then_get(s.attrs, s.attr_cap, path, st);
}

/// What a lookup fetched is remembered: the entry's inode has the path, and its attributes
/// are replied without asking the remote again.
pub proof fn law_lookup_then_getattr(s: FsState, path: Text, d: StatData)
    requires
        s.wf(),
        s.roomy(),
    ensures
        ({
            let (t, step) = s.next(Pending::Lookup { path }, Event::Stat(Some(d)));
            let ino = s.inodes.ino(path);
            &&& step == SpecStep::Reply(Reply::Entry(file_attr(ino, d)))
            &&& t.path(ino) == Some(path)
            &&& t.getattr(ino).1 == SpecStep::Reply(Reply::Attr(file_attr(ino, d)))
        }),
{
    lemma_put(s, path, Some(d));
}

/// What a lookup found absent is remembered too: looking it up again is answered with ENOENT
/// without asking the remote.
pub proof fn law_absence_is_remembered(s: FsState, parent: u64, name: Text)
    requires
        s.wf(),
        s.path(parent) is Some,
    ensures
        ({
            let path = child_of(s.path(parent)->0, name);
            let (t, step) = s.next(Pending::Lookup { path }, Event::Stat(None));
            &&& step == SpecStep::Reply(Reply::Error(Errno::ENOENT))
            &&& t.lookup(parent, Some(name)).1 == SpecStep::Reply(Reply::Error(Errno::ENOENT))
        }),
{
    let path = child_of(s.path(parent)->0, name);
    lemma_put(s, path, None);
}

/// A remount within ten minutes asks the remote nothing about a path that was visited: what
/// was known of it when the caches were saved is replied, whatever order they come back in.
pub proof fn law_remount_asks_nothing(
    before: FsState,
    s: FsState,
    saved_at: u64,
    now: u64,
    parent: u64,
    name: Text,
)
    requires
        before.wf(),
        now <= saved_at + PERSIST_MAX_AGE_SECS,
        s.attrs == loaded(before.attr_cap, now, Some((saved_at, before.attrs))),
        s.dirs == loaded(before.dir_cap, now, Some((saved_at, before.dirs))),
        s.path(parent) is Some,
    ensures
        ({
            let dir = s.path(parent)->0;
            let path = child_of(dir, name);
            &&& s.attr(path) == before.attr(path)
            &&& s.listing(dir) == before.listing(dir)
            &&& before.attr(path) is Some ==> s.lookup(parent, Some(name)).1 is Reply
            &&& before.attr(dir) is Some ==> s.getattr(parent).1 is Reply
            &&& before.listing(dir) is Some ==> s.readdir(parent, 0).1 is Reply
        }),
{
    let dir = s.path(parent)->0;
    let path = child_of(dir, name);
    law_remount_restores(before.attr_cap, now, saved_at, before.attrs, path);
    law_remount_restores(before.attr_cap, now, saved_at, before.attrs, dir);
    law_remount_restores(before.dir_cap, now, saved_at, before.dirs, dir);
}

/// Attributes that the remote changed are fetched anew: the reply says what the remote says
/// now, whatever was cached.
pub proof fn law_setattr_replies_fresh(
    s: FsState,
    ino: u64,
    path: Text,
    file: Text,
    change: AttrChange,
    d: StatData,
)
    requires
        s.wf(),
    ensures
        ({
            let at = |phase: SetAttrPhase| Pending::SetAttr { ino, path, file, change, phase };
            let applied = at(SetAttrPhase::Applied);
            let fetched = at(SetAttrPhase::Fetched);
            let (t, step) = s.next(applied, Event::Flag(true));
            let (u, last) = t.next(fetched, Event::Stat(Some(d)));
            &&& step == SpecStep::Perform(Action::Stat { path }, fetched)
            &&& last == SpecStep::Reply(Reply::Attr(file_attr(ino, d)))
            &&& u.attr(path) == Some(Some(d))
        }),
{
    lemma_without(s.attrs, path);
    lemma_put(s.attr_removed(path), path, Some(d));
}

// ---------------------------------------------------------------------------
// New, deleted and moved files
// ---------------------------------------------------------------------------

/// A file that was made has an inode, and nothing older is cached of it or of its directory:
/// the next listing and the next lookup ask the remote.
pub proof fn law_made_is_visible(
    s: FsState,
    parent: Text,
    path: Text,
    kind: FileType,
    size: u64,
    perm: u16,
    uid: u32,
    gid: u32,
)
    requires
        s.wf(),
        s.roomy(),
    ensures
        ({
            let (t, step) = s.made(parent, path, kind, size, perm, uid, gid);
            &&& t.path(s.inodes.ino(path)) == Some(path)
            &&& t.attr(path) is None
            &&& t.listing(parent) is None
        }),
{
    lemma_without(s.attrs, path);
    lemma_without(s.dirs, parent);
}

/// A deleted file is forgotten: its inode has no path, its cache file is not tracked and is
/// to be removed, and nothing is cached of it or of its directory.
pub proof fn law_unlink_forgets(s: FsState, parent: Text, path: Text, file: Text)
    requires
        s.wf(),
        s.inodes.inos.contains_key(path),
    ensures
        ({
            let locked = Pending::Unlink { parent, path, file, phase: UnlinkPhase::Locked };
            let removed = Pending::Unlink { parent, path, file, phase: UnlinkPhase::Removed };
            let (t, step) = s.next(locked, Event::Unit);
            &&& step == SpecStep::Perform(Action::Remove { files: seq![file] }, removed)
            &&& t.next(removed, Event::Unit) == t.replies(Reply::Done)
            &&& t.path(s.inodes.inos[path]) is None
            &&& lookup(t.files, file) is None
            &&& t.attr(path) is None
            &&& t.listing(parent) is None
        }),
{
    lemma_without(s.files, file);
    lemma_without(s.attrs, path);
    lemma_without(s.dirs, parent);
}

/// A deleted directory is forgotten: its inode has no path, and nothing is cached of it or
/// of the directory that held it.
pub proof fn law_rmdir_forgets(s: FsState, parent: Text, path: Text)
    requires
        s.wf(),
        s.inodes.inos.contains_key(path),
    ensures
        ({
            let (t, step) = s.next(Pending::RmDir { parent, path }, Event::Flag(true));
            &&& step == SpecStep::Reply(Reply::Done)
            &&& t.path(s.inodes.inos[path]) is None
            &&& t.attr(path) is None
            &&& t.listing(parent) is None
        }),
{
    lemma_without(s.attrs, path);
    lemma_without(s.dirs, parent);
}

/// The state that a move leads to once the remote has moved the file.
pub open spec fn after_move(
    s: FsState,
    parent: Text,
    before: Text,
    before_file: Text,
    new_parent: Text,
    after: Text,
    after_file: Text,
) -> FsState {
    s.file_popped(before_file).changed(before, parent).file_popped(after_file).changed(
        after,
        new_parent,
    ).moved_ino(before, after)
}

/// A move that the remote did comes to an end in seven steps, whose actions lock and forget
/// the old path, then the new one; the reply is success.
pub proof fn law_rename_completes(
    s: FsState,
    parent: Text,
    before: Text,
    before_file: Text,
    new_parent: Text,
    after: Text,
    after_file: Text,
)
    ensures
        ({
            let at = |phase: RenamePhase|
                Pending::Rename {
                    parent,
                    before,
                    before_file,
                    new_parent,
                    after,
                    after_file,
                    phase,
                };
            let s1 = s.next(at(RenamePhase::Moved), Event::Flag(true));
            let s2 = s1.0.next(at(RenamePhase::SourceLocked), Event::Unit);
            let s3 = s2.0.next(at(RenamePhase::SourceRemoved), Event::Unit);
            let s4 = s3.0.next(at(RenamePhase::SourceUnlocked), Event::Unit);
            let s5 = s4.0.next(at(RenamePhase::TargetLocked), Event::Unit);
            let s6 = s5.0.next(at(RenamePhase::TargetRemoved), Event::Unit);
            let s7 = s6.0.next(at(RenamePhase::TargetUnlocked), Event::Unit);
            &&& s1.1 == SpecStep::Perform(
                Action::Lock { path: before },
                at(RenamePhase::SourceLocked),
            )
            &&& s2.1 == SpecStep::Perform(
                Action::Remove { files: seq![before_file] },
                at(RenamePhase::SourceRemoved),
            )
            &&& s3.1 == SpecStep::Perform(Action::Unlock, at(RenamePhase::SourceUnlocked))
            &&& s4.1 == SpecStep::Perform(
                Action::Lock { path: after },
                at(RenamePhase::TargetLocked),
            )
            &&& s5.1 == SpecStep::Perform(
                Action::Remove { files: seq![after_file] },
                at(RenamePhase::TargetRemoved),
            )
            &&& s6.1 == SpecStep::Perform(Action::Unlock, at(RenamePhase::TargetUnlocked))
            &&& s7.1 == SpecStep::Reply(Reply::Done)
            &&& s7.0 == after_move(
                s,
                parent,
                before,
                before_file,
                new_parent,
                after,
                after_file,
            )
        }),
{
}

/// A moved file keeps its inode, which has the new path, and nothing older is cached of
/// either path, of either directory or of either cache file.
pub proof fn law_rename_moves(
    s: FsState,
    parent: Text,
    before: Text,
    before_file: Text,
    new_parent: Text,
    after: Text,
    after_file: Text,
)
    requires
        s.wf(),
        s.inodes.inos.contains_key(before),
    ensures
        ({
            let t = after_move(s, parent, before, before_file, new_parent, after, after_file);
            &&& t.path(s.inodes.inos[before]) == Some(after)
            &&& t.inodes.ino(after) == s.inodes.inos[before]
            &&& t.attr(before) is None
            &&& t.attr(after) is None
            &&& t.listing(parent) is None
            &&& t.listing(new_parent) is None
            &&& lookup(t.files, before_file) is None
            &&& lookup(t.files, after_file) is None
        }),
{
    let a = s.file_popped(before_file).changed(before, parent);
    lemma_without(s.files, before_file);
    lemma_without(s.attrs, before);
    lemma_without(s.dirs, parent);
    lemma_without(a.files, after_file);
    lemma_without(a.attrs, after);
    lemma_without(a.dirs, new_parent);
}

// ---------------------------------------------------------------------------
// Directories
// ---------------------------------------------------------------------------

/// The names in a directory reply.
pub open spec fn entry_names(e: Entries) -> Names {
    e.map_values(|d: DirEntry<Text>| d.name)
}

proof fn lemma_children(s: FsState, path: Text, names: Names)
    ensures
        s.children(path, names).1.len() == names.len(),
        forall|i: int|
            0 <= i < names.len() ==> (#[trigger] s.children(path, names).1[i]).2 == names[i],
    decreases names.len(),
{
    if names.len() > 0 {
        lemma_children(s, path, names.drop_last());
        let before = s.children(path, names.drop_last()).1;
        assert forall|i: int| 0 <= i < names.len() implies (#[trigger] s.children(
            path,
            names,
        ).1[i]).2 == names[i] by {
            if i < names.len() - 1 {
                assert(s.children(path, names).1[i] == before[i]);
                assert(names.drop_last()[i] == names[i]);
            }
        }
    }
}

/// A listing that is not cached: the reply holds the directory and its parent, nothing else.
pub proof fn law_cold_listing(s: FsState, ino: u64)
    requires
        s.path(ino) is Some,
        s.listing(s.path(ino)->0) is None,
    ensures
        match s.readdir(ino, 0).1 {
            Step::Reply(Reply::Directory(e)) => entry_names(e) == seq![dot(), dotdot()],
            Step::ReplyAndSpawn(Reply::Directory(e), _) => entry_names(e) == seq![dot(), dotdot()],
            _ => false,
        },
{
    let e = entries_from(s.dots(ino, s.path(ino)->0), 0);
    assert(entry_names(e) =~= seq![dot(), dotdot()]);
}

/// A listing that is cached: the reply holds the directory, its parent, and then every name
/// in order, and no remote is asked.
pub proof fn law_warm_listing(s: FsState, ino: u64)
    requires
        s.path(ino) is Some,
        s.listing(s.path(ino)->0) is Some,
    ensures
        match s.readdir(ino, 0).1 {
            Step::Reply(Reply::Directory(e)) => entry_names(e) == seq![dot(), dotdot()] + (
            s.listing(s.path(ino)->0)->0),
            _ => false,
        },
{
    let path = s.path(ino)->0;
    let l = s.listing(path)->0;
    let u = s.with_ino(parent_of(path)).dir_used(path);
    lemma_children(u, path, l);
    let all = s.dots(ino, path) + u.children(path, l).1;
    let e = entries_from(all, 0);
    assert forall|i: int| 0 <= i < e.len() implies (#[trigger] entry_names(e)[i]) == (seq![
        dot(),
        dotdot(),
    ] + l)[i] by {
        assert(e[i].name == all[i].2);
        if i >= 2 {
            assert(all[i] == u.children(path, l).1[i - 2]);
        }
    }
    assert(entry_names(e) =~= seq![dot(), dotdot()] + l);
}

proof fn lemma_attrs_put(s: FsState, path: Text, l: Listing)
    ensures
        s.attrs_put(path, l) == (FsState { attrs: s.attrs_put(path, l).attrs, ..s }),
    decreases l.len(),
{
    if l.len() > 0 {
        lemma_attrs_put(s, path, l.drop_last());
    }
}

/// What was fetched is listed: once a background fetch of a directory is done, the directory
/// reads as the remote listed it.
pub proof fn law_fetched_listing_is_served(s: FsState, ino: u64, path: Text, l: Listing)
    requires
        s.wf(),
        s.path(ino) == Some(path),
    ensures
        ({
            let listed = Pending::FetchDir { ino, path, phase: FetchDirPhase::Listed };
            let invalidated = Pending::FetchDir { ino, path, phase: FetchDirPhase::Invalidated };
            let (t, step) = s.next(listed, Event::Listing(Some(l)));
            let (u, last) = t.next(invalidated, Event::Unit);
            &&& step == SpecStep::Perform(Action::Invalidate { ino }, invalidated)
            &&& last == SpecStep::Reply(Reply::Finished)
            &&& !u.fetching.contains(path)
            &&& match u.readdir(ino, 0).1 {
                Step::Reply(Reply::Directory(e)) => entry_names(e) == seq![dot(), dotdot()]
                    + listed_names(l),
                _ => false,
            }
        }),
{
    let a = s.dir_put(path, listed_names(l));
    law_put_then_get(s.dirs, s.dir_cap, path, listed_names(l));
    lemma_attrs_put(a, path, l);
    law_warm_listing(a.attrs_put(path, l).fetched(path), ino);
}

/// A directory is fetched by one task at a time: a listing starts a fetch only where none is
/// under way, and the same listing again starts none until the fetch is done.
pub proof fn law_one_fetch_per_directory(s: FsState, ino: u64, offset: u64, again: u64)
    requires
        s.wf(),
        s.roomy(),
    ensures
        match s.readdir(ino, offset) {
            (t, Step::ReplyAndSpawn(_, task)) => {
                &&& s.path(ino) is Some
                &&& task == Task::<Text, Bytes>::FetchDir { ino, path: s.path(ino)->0 }
                &&& !s.fetching.contains(s.path(ino)->0)
                &&& t.fetching == s.fetching.insert(s.path(ino)->0)
                &&& t.readdir(ino, again).1 is Reply
            },
            (t, _) => t.fetching == s.fetching,
        },
{
    if s.path(ino) is Some {
        let path = s.path(ino)->0;
        assert(s.inodes.paths.contains_key(ino));
        if s.listing(path) is Some {
            let u = s.with_ino(parent_of(path)).dir_used(path);
            lemma_children_inodes(u, path, s.listing(path)->0);
        } else {
            let t = s.readdir(ino, offset).0;
            assert(t.path(ino) == Some(path));
        }
    }
}

proof fn lemma_children_inodes(s: FsState, path: Text, names: Names)
    ensures
        s.children(path, names).0.fetching == s.fetching,
    decreases names.len(),
{
    if names.len() > 0 {
        lemma_children_inodes(s, path, names.drop_last());
    }
}

/// A listing can be read in parts: each entry says where the next one starts, and a reply
/// from there on goes on where the last one stopped.
pub proof fn law_listing_continues(all: Seq<(u64, FileType, Text)>, offset: u64)
    requires
        offset <= all.len() <= u64::MAX,
    ensures
        entries_from(all, offset) == entries_from(all, 0).skip(offset as int),
        forall|i: int|
            0 <= i < entries_from(all, 0).len() ==> (#[trigger] entries_from(all, 0)[i]).offset == i
                + 1,
{
    assert(entries_from(all, offset) =~= entries_from(all, 0).skip(offset as int));
}

/// A listing that was refreshed holds what the remote lists: the same names, each as often.
pub proof fn law_renewed_listing_agrees(s: FsState, path: Text, cached: Names, l: Listing)
    requires
        s.wf(),
        s.listing(path) == Some(cached),
    ensures
        ({
            let (t, step) = s.next(Pending::RenewDir { path, cached }, Event::Listing(Some(l)));
            &&& step == SpecStep::Reply(Reply::Finished)
            &&& t.listing(path) is Some
            &&& (t.listing(path)->0).to_multiset() == listed_names(l).to_multiset()
        }),
{
    let remote = listed_names(l);
    law_sorted_listings_agree(cached, remote);
    law_put_then_get(s.dirs, s.dir_cap, path, sorted(remote));
    law_sorting_keeps_names(remote);
}

// ---------------------------------------------------------------------------
// File contents
// ---------------------------------------------------------------------------

/// A file that is in the disk cache, and that nobody holds the lock of, is read from there;
/// the remote is not asked.
pub proof fn law_cached_read_is_local(s: FsState, ino: u64, offset: u64, size: u32, d: Bytes)
    requires
        s.path(ino) is Some,
    ensures
        ({
            let path = s.path(ino)->0;
            let file = s.file(path);
            let at = |phase: ReadPhase| Pending::Read { path, file, offset, size, phase };
            let s0 = s.read(ino, offset, size);
            let s1 = s0.0.next(at(ReadPhase::Tried), Event::Flag(true));
            let s2 = s1.0.next(at(ReadPhase::Present), Event::Flag(true));
            let s3 = s2.0.next(at(ReadPhase::Cached), Event::Data(Some(d)));
            &&& s0.1 == SpecStep::Perform(Action::TryLock { path }, at(ReadPhase::Tried))
            &&& s1.1 == SpecStep::Perform(Action::Exists { file }, at(ReadPhase::Present))
            &&& s2.1 == SpecStep::Perform(
                Action::ReadFile { file, offset, size },
                at(ReadPhase::Cached),
            )
            &&& s3 == s0.0.replies(Reply::Data(d))
        }),
{
}

/// A read that the disk cache cannot serve asks the remote, and replies what it says; a
/// download starts where nobody holds the lock of the path.
pub proof fn law_uncached_read_asks_remote(
    s: FsState,
    path: Text,
    file: Text,
    offset: u64,
    size: u32,
    d: Bytes,
)
    ensures
        ({
            let at = |phase: ReadPhase| Pending::Read { path, file, offset, size, phase };
            &&& s.next(at(ReadPhase::Asked), Event::Flag(false)).1 == SpecStep::Perform(
                Action::Spawn(Task::FetchFile { path }),
                at(ReadPhase::Spawned),
            )
            &&& s.next(at(ReadPhase::Asked), Event::Flag(true)).1 == SpecStep::Perform(
                Action::ReadAt { path, offset, size },
                at(ReadPhase::Remote),
            )
            &&& s.next(at(ReadPhase::Spawned), Event::Unit).1 == SpecStep::Perform(
                Action::ReadAt { path, offset, size },
                at(ReadPhase::Remote),
            )
            &&& s.next(at(ReadPhase::Remote), Event::Data(Some(d))) == s.replies(Reply::Data(d))
            &&& s.next(at(ReadPhase::Remote), Event::Data(None)) == s.fails(Errno::EIO)
        }),
{
}

/// A write that was stored shows in the cached attributes: the size is that of the cache
/// file, and nothing else changes.
pub proof fn law_write_updates_size(s: FsState, path: Text, n: u64, d: StatData, other: Text)
    requires
        s.wf(),
        s.attr(path) == Some(Some(d)),
        other != path,
    ensures
        s.measured(path, Some(n)).attr(path) == Some(Some(StatData { size: n, ..d })),
        s.measured(path, Some(n)).attr(other) == s.attr(other),
{
    let t = s.attr_used(path);
    law_get_changes_no_value(s.attrs, path, path);
    law_get_changes_no_value(s.attrs, path, other);
    lemma_without(s.attrs, path);
    lemma_prepend(without(s.attrs, path), path, Some(d));
    let v = Some(StatData { size: n, ..d });
    lemma_used_len(s.attrs, path);
    law_put_then_get(t.attrs, s.attr_cap, path, v);
    lemma_update_keeps_others(t.attrs, s.attr_cap, path, v, other);
}

proof fn lemma_used_len<V>(s: Seq<(Text, V)>, k: Text)
    requires
        distinct(s),
    ensures
        used(s, k).len() == s.len(),
{
    lemma_without(s, k);
}

/// Putting a value under a key that has one drops no other entry.
proof fn lemma_update_keeps_others<V>(s: Seq<(Text, V)>, cap: nat, k: Text, v: V, j: Text)
    requires
        distinct(s),
        s.len() <= cap,
        known(s, k),
        j != k,
    ensures
        lookup(stored(s, cap, k, v), j) == lookup(s, j),
{
    lemma_without(s, k);
    lemma_prepend(without(s, k), k, v);
}

/// A file that fits in the disk cache is tracked once it was put there, and is not among the
/// files that have to make room for it.
proof fn lemma_put_file_stays(s: FsState, file: Text, n: u64)
    requires
        s.wf(),
        n <= s.limit,
    ensures
        lookup(s.file_put(file, Some(n)).files, file) == Some(n),
        !s.evicted(file, Some(n)).contains(file),
{
    let t = renewed(s.files, file, n);
    law_put_keeps_what_fits(s.files, file, n, s.limit);
    law_eviction_is_least(t, s.limit);
    lemma_without(s.files, file);
    lemma_append(without(s.files, file), file, n);
    let e = excess(t, s.limit);
    let gone = s.evicted(file, Some(n));
    if gone.contains(file) {
        let i = choose|i: int| 0 <= i < gone.len() && gone[i] == file;
        let r = position(t.skip(e), file);
        assert(known(t.skip(e), file));
        assert(at(t.skip(e), file, r));
        assert(at(t, file, e + r));
        assert(at(t, file, i));
        lemma_at(t, file, i);
        lemma_at(t, file, e + r);
    }
}

/// The first access to a file of `n` bytes that fits in the disk cache downloads the whole
/// file, and keeps it: it is tracked with its size, and is not among the files that have to
/// make room for it.
pub proof fn law_downloaded_file_is_kept(s: FsState, path: Text, n: u64)
    requires
        s.wf(),
        n <= s.limit,
    ensures
        ({
            let file = s.file(path);
            let at = |phase: FetchFilePhase| Pending::FetchFile { path, file, phase };
            let step = |phase: CachePhase| at(FetchFilePhase::Caching(phase));
            let s0 = s.fetch_file(path);
            let s1 = s0.0.next(at(FetchFilePhase::Locked), Event::Unit);
            let s2 = s1.0.next(step(CachePhase::Present), Event::Flag(false));
            let s3 = s2.0.next(step(CachePhase::Downloaded), Event::Flag(true));
            let s4 = s3.0.next(step(CachePhase::Sized), Event::Size(Some(n)));
            let s5 = s4.0.next(step(CachePhase::Evicted), Event::Unit);
            let gone = s.evicted(file, Some(n));
            &&& s0.1 == SpecStep::Perform(Action::Lock { path }, at(FetchFilePhase::Locked))
            &&& s1.1 == SpecStep::Perform(Action::Exists { file }, step(CachePhase::Present))
            &&& s2.1 == SpecStep::Perform(
                Action::Download { path, file, max_bytes: s.limit },
                step(CachePhase::Downloaded),
            )
            &&& s3.1 == SpecStep::Perform(Action::Size { file }, step(CachePhase::Sized))
            &&& s4.1 == SpecStep::Perform(
                Action::Remove { files: gone },
                step(CachePhase::Evicted),
            )
            &&& s5.1 == SpecStep::Reply(Reply::Finished)
            &&& lookup(s5.0.files, file) == Some(n)
            &&& !gone.contains(file)
        }),
{
    lemma_put_file_stays(s, s.file(path), n);
}

/// A read gives back what a write stored: a write to a file that is in the disk cache goes to
/// its cache file, and to the remote later; where the file still fits in the disk cache, it
/// is tracked there and not among the files to remove, and the next read of the same inode is
/// served from it.
pub proof fn law_read_follows_write(
    s: FsState,
    ino: u64,
    offset: u64,
    data: Bytes,
    n: u64,
    read_offset: u64,
    size: u32,
    d: Bytes,
)
    requires
        s.wf(),
        s.path(ino) is Some,
        n <= s.limit,
    ensures
        ({
            let path = s.path(ino)->0;
            let file = s.file(path);
            let at = |phase: WritePhase| Pending::Write { path, file, offset, data, phase };
            let gets = |phase: ReadPhase|
                Pending::Read { path, file, offset: read_offset, size, phase };
            let present = at(WritePhase::Caching(CachePhase::Present));
            let s0 = s.write(ino, offset, data);
            let s1 = s0.0.next(at(WritePhase::Locked), Event::Unit);
            let s2 = s1.0.next(present, Event::Flag(true));
            let s3 = s2.0.next(at(WritePhase::Stored), Event::Flag(true));
            let s4 = s3.0.next(at(WritePhase::Measured), Event::Size(Some(n)));
            let s5 = s4.0.next(at(WritePhase::Unlocked), Event::Unit);
            let s6 = s5.0.next(at(WritePhase::Spawned), Event::Unit);
            let s7 = s6.0.next(at(WritePhase::Recorded), Event::Size(Some(n)));
            let s8 = s7.0.next(at(WritePhase::Trimmed), Event::Unit);
            let t = s8.0;
            let r0 = t.read(ino, read_offset, size);
            let r1 = r0.0.next(gets(ReadPhase::Tried), Event::Flag(true));
            let r2 = r1.0.next(gets(ReadPhase::Present), Event::Flag(true));
            let r3 = r2.0.next(gets(ReadPhase::Cached), Event::Data(Some(d)));
            let gone = s.evicted(file, Some(n));
            &&& s0.1 == SpecStep::Perform(Action::Lock { path }, at(WritePhase::Locked))
            &&& s1.1 == SpecStep::Perform(Action::Exists { file }, present)
            &&& s2.1 == SpecStep::Perform(
                Action::WriteFile { file, offset, data },
                at(WritePhase::Stored),
            )
            &&& s3.1 == SpecStep::Perform(Action::Size { file }, at(WritePhase::Measured))
            &&& s4.1 == SpecStep::Perform(Action::Unlock, at(WritePhase::Unlocked))
            &&& s5.1 == SpecStep::Perform(
                Action::Spawn(Task::AsyncWrite { path, offset, data, file }),
                at(WritePhase::Spawned),
            )
            &&& s6.1 == SpecStep::Perform(Action::Size { file }, at(WritePhase::Recorded))
            &&& s7.1 == SpecStep::Perform(Action::Remove { files: gone }, at(WritePhase::Trimmed))
            &&& s8.1 == SpecStep::Reply(Reply::Written(data.len() as u32))
            &&& lookup(t.files, file) == Some(n)
            &&& !gone.contains(file)
            &&& r0.1 == SpecStep::Perform(Action::TryLock { path }, gets(ReadPhase::Tried))
            &&& r1.1 == SpecStep::Perform(Action::Exists { file }, gets(ReadPhase::Present))
            &&& r2.1 == SpecStep::Perform(
                Action::ReadFile { file, offset: read_offset, size },
                gets(ReadPhase::Cached),
            )
            &&& r3.1 == SpecStep::Reply(Reply::Data(d))
        }),
{
    let path = s.path(ino)->0;
    lemma_put_file_stays(s, s.file(path), n);
}

/// The disk cache keeps to its limit: after a file was recorded, the files in it take no
/// more bytes than it allows, and those that had to go are the ones to remove.
pub proof fn law_disk_cache_keeps_limit(s: FsState, file: Text, n: u64)
    ensures
        total(s.file_put(file, Some(n)).files) <= s.limit,
        s.evicted(file, Some(n)) + names(s.file_put(file, Some(n)).files) == names(
            renewed(s.files, file, n),
        ),
{
    let t = renewed(s.files, file, n);
    law_eviction_is_least(t, s.limit);
    assert(s.evicted(file, Some(n)) + names(s.file_put(file, Some(n)).files) =~= names(t));
}

/// A file that changed its size on the remote, or is gone, leaves the disk cache, and its
/// attributes are what the remote says.
pub proof fn law_renewed_attr_agrees(
    s: FsState,
    path: Text,
    file: Text,
    cached: Option<StatData>,
    remote: Option<StatData>,
)
    requires
        s.wf(),
    ensures
        ({
            let p = Pending::RenewAttr { path, file, cached, phase: RenewPhase::Fetched };
            let (t, step) = s.next(p, Event::Stat(remote));
            &&& t.attr(path) == Some(remote)
            &&& outdated(cached, remote) ==> lookup(t.files, file) is None && step
                == SpecStep::Perform(
                Action::Remove { files: seq![file] },
                Pending::RenewAttr { path, file, cached, phase: RenewPhase::Removed },
            )
            &&& !outdated(cached, remote) ==> t.files == s.files && step == SpecStep::Reply(
                Reply::Finished,
            )
        }),
{
    lemma_without(s.files, file);
    lemma_put(s, path, remote);
}

// ---------------------------------------------------------------------------
// Locks and progress
// ---------------------------------------------------------------------------

/// The path whose lock a request holds while its action is performed.
pub open spec fn lock_before(p: SpecPending) -> Option<Text> {
    match p {
        Pending::SetAttr { path, phase, .. } => match phase {
            SetAttrPhase::Caching(_) | SetAttrPhase::Truncated | SetAttrPhase::Unlocked => Some(
                path,
            ),
            _ => None,
        },
        Pending::Read { path, phase, .. } => match phase {
            ReadPhase::Present | ReadPhase::Cached | ReadPhase::Unlocked => Some(path),
            _ => None,
        },
        Pending::Write { path, phase, .. } => match phase {
            WritePhase::Caching(_)
            | WritePhase::Stored
            | WritePhase::Measured
            | WritePhase::Unlocked => Some(path),
            _ => None,
        },
        Pending::Create { path, phase, .. } => match phase {
            CreatePhase::Emptied | CreatePhase::Made => Some(path),
            _ => None,
        },
        Pending::Unlink { path, phase, .. } => match phase {
            UnlinkPhase::Removed => Some(path),
            _ => None,
        },
        Pending::Rename { before, after, phase, .. } => match phase {
            RenamePhase::SourceRemoved | RenamePhase::SourceUnlocked => Some(before),
            RenamePhase::TargetRemoved | RenamePhase::TargetUnlocked => Some(after),
            _ => None,
        },
        Pending::FetchFile { path, phase, .. } => match phase {
            FetchFilePhase::Caching(_) => Some(path),
            _ => None,
        },
        Pending::RenewAttr { path, phase, .. } => match phase {
            RenewPhase::Fetched | RenewPhase::Removed => Some(path),
            _ => None,
        },
        _ => None,
    }
}

/// What an action does to locks.
pub enum LockUse {
    /// It waits for the lock of a path.
    Takes(Text),
    /// It takes the lock of a path if it is free.
    Tries(Text),
    /// It releases the lock that is held.
    Releases,
    Nothing,
}

/// What an action does to locks.
pub open spec fn lock_use(a: SpecAction) -> LockUse {
    match a {
        Action::Lock { path } => LockUse::Takes(path),
        Action::TryLock { path } => LockUse::Tries(path),
        Action::Unlock => LockUse::Releases,
        _ => LockUse::Nothing,
    }
}

/// What the action that a request waits for does to locks.
pub open spec fn awaited_lock(p: SpecPending) -> LockUse {
    match p {
        Pending::SetAttr { path, phase, .. } => match phase {
            SetAttrPhase::Locked => LockUse::Takes(path),
            SetAttrPhase::Unlocked => LockUse::Releases,
            _ => LockUse::Nothing,
        },
        Pending::Read { path, phase, .. } => match phase {
            ReadPhase::Tried => LockUse::Tries(path),
            ReadPhase::Unlocked => LockUse::Releases,
            _ => LockUse::Nothing,
        },
        Pending::Write { path, phase, .. } => match phase {
            WritePhase::Locked => LockUse::Takes(path),
            WritePhase::Unlocked => LockUse::Releases,
            _ => LockUse::Nothing,
        },
        Pending::Create { path, phase, .. } => match phase {
            CreatePhase::Locked => LockUse::Takes(path),
            _ => LockUse::Nothing,
        },
        Pending::Unlink { path, phase, .. } => match phase {
            UnlinkPhase::Locked => LockUse::Takes(path),
            _ => LockUse::Nothing,
        },
        Pending::Rename { before, after, phase, .. } => match phase {
            RenamePhase::SourceLocked => LockUse::Takes(before),
            RenamePhase::TargetLocked => LockUse::Takes(after),
            RenamePhase::SourceUnlocked | RenamePhase::TargetUnlocked => LockUse::Releases,
            _ => LockUse::Nothing,
        },
        Pending::FetchFile { path, phase, .. } => match phase {
            FetchFilePhase::Locked => LockUse::Takes(path),
            _ => LockUse::Nothing,
        },
        Pending::RenewAttr { path, phase, .. } => match phase {
            RenewPhase::Tried => LockUse::Tries(path),
            _ => LockUse::Nothing,
        },
        _ => LockUse::Nothing,
    }
}

/// The path whose lock a request holds once its action has come to an event.
pub open spec fn lock_after(p: SpecPending, e: SpecEvent) -> Option<Text> {
    match awaited_lock(p) {
        LockUse::Takes(path) => Some(path),
        LockUse::Tries(path) => if e == SpecEvent::Flag(true) {
            Some(path)
        } else {
            lock_before(p)
        },
        LockUse::Releases => None,
        LockUse::Nothing => lock_before(p),
    }
}

/// The path that a request is about, and its cache file.
pub open spec fn subject(p: SpecPending) -> Option<(Text, Text)> {
    match p {
        Pending::SetAttr { path, file, .. } => Some((path, file)),
        Pending::Write { path, file, .. } => Some((path, file)),
        Pending::Create { path, file, .. } => Some((path, file)),
        Pending::FetchFile { path, file, .. } => Some((path, file)),
        _ => None,
    }
}

/// The file in the disk cache that an action creates, writes, cuts or downloads.
pub open spec fn changed_file(a: SpecAction) -> Option<Text> {
    match a {
        Action::Truncate { file, .. } => Some(file),
        Action::WriteFile { file, .. } => Some(file),
        Action::CreateEmpty { file } => Some(file),
        Action::Download { file, .. } => Some(file),
        _ => None,
    }
}

/// A step asks for the action that its pending request says, under the locks it says: it
/// takes a lock only while it holds none, releases one only while it holds one, and changes
/// a file in the disk cache only under the lock of the path that the file belongs to.
pub open spec fn locks_well(step: SpecStep) -> bool {
    match step {
        Step::Perform(a, p) => {
            &&& lock_use(a) == awaited_lock(p)
            &&& lock_use(a) is Takes || lock_use(a) is Tries ==> lock_before(p) is None
            &&& lock_use(a) is Releases ==> lock_before(p) is Some
            &&& changed_file(a) matches Some(f) ==> (subject(p) matches Some((path, file))
                && lock_before(p) == Some(path) && f == file)
        },
        _ => true,
    }
}

/// How many more actions a request can ask for.
pub open spec fn remaining(p: SpecPending) -> nat {
    let cache = |c: CachePhase| -> nat
        {
            match c {
                CachePhase::Present => 3,
                CachePhase::Downloaded => 2,
                CachePhase::Sized => 1,
                CachePhase::Evicted => 0,
            }
        };
    match p {
        Pending::SetAttr { phase, .. } => match phase {
            SetAttrPhase::Locked => 8,
            SetAttrPhase::Caching(c) => 4 + cache(c),
            SetAttrPhase::Truncated => 3,
            SetAttrPhase::Unlocked => 2,
            SetAttrPhase::Applied => 1,
            SetAttrPhase::Fetched => 0,
        },
        Pending::Read { phase, .. } => match phase {
            ReadPhase::Tried => 6,
            ReadPhase::Present => 5,
            ReadPhase::Cached => 4,
            ReadPhase::Unlocked => 3,
            ReadPhase::Asked => 2,
            ReadPhase::Spawned => 1,
            ReadPhase::Remote => 0,
        },
        Pending::Write { phase, .. } => match phase {
            WritePhase::Locked => 10,
            WritePhase::Caching(c) => 6 + cache(c),
            WritePhase::Stored => 5,
            WritePhase::Measured => 4,
            WritePhase::Unlocked => 3,
            WritePhase::Spawned => 2,
            WritePhase::Recorded => 1,
            WritePhase::Trimmed => 0,
        },
        Pending::Create { phase, .. } => match phase {
            CreatePhase::Locked => 2,
            CreatePhase::Emptied => 1,
            CreatePhase::Made => 0,
        },
        Pending::Unlink { phase, .. } => match phase {
            UnlinkPhase::Deleted => 2,
            UnlinkPhase::Locked => 1,
            UnlinkPhase::Removed => 0,
        },
        Pending::Rename { phase, .. } => match phase {
            RenamePhase::Moved => 6,
            RenamePhase::SourceLocked => 5,
            RenamePhase::SourceRemoved => 4,
            RenamePhase::SourceUnlocked => 3,
            RenamePhase::TargetLocked => 2,
            RenamePhase::TargetRemoved => 1,
            RenamePhase::TargetUnlocked => 0,
        },
        Pending::FetchDir { phase, .. } => match phase {
            FetchDirPhase::Listed => 1,
            FetchDirPhase::Invalidated => 0,
        },
        Pending::FetchFile { phase, .. } => match phase {
            FetchFilePhase::Locked => 4,
            FetchFilePhase::Caching(c) => cache(c),
        },
        Pending::RenewAttr { phase, .. } => match phase {
            RenewPhase::Tried => 2,
            RenewPhase::Fetched => 1,
            RenewPhase::Removed => 0,
        },
        _ => 0,
    }
}

/// `step` goes on well from a request that came to an event: it holds the lock that the
/// event left it, keeps to the locks, and has fewer actions to come.
pub open spec fn goes_on(p: SpecPending, e: SpecEvent, step: SpecStep) -> bool {
    &&& locks_well(step)
    &&& step matches Step::Perform(_, q) ==> lock_before(q) == lock_after(p, e) && remaining(q)
        < remaining(p)
}

proof fn lemma_setattr_goes_on(
    s: FsState,
    ino: u64,
    path: Text,
    file: Text,
    change: AttrChange,
    phase: SetAttrPhase,
    e: SpecEvent,
)
    ensures
        goes_on(
            Pending::SetAttr { ino, path, file, change, phase },
            e,
            s.setattr_next(ino, path, file, change, phase, e).1,
        ),
{
}

proof fn lemma_read_goes_on(
    s: FsState,
    path: Text,
    file: Text,
    offset: u64,
    size: u32,
    phase: ReadPhase,
    e: SpecEvent,
)
    ensures
        goes_on(
            Pending::Read { path, file, offset, size, phase },
            e,
            s.read_next(path, file, offset, size, phase, e).1,
        ),
{
}

proof fn lemma_write_goes_on(
    s: FsState,
    path: Text,
    file: Text,
    offset: u64,
    data: Bytes,
    phase: WritePhase,
    e: SpecEvent,
)
    ensures
        goes_on(
            Pending::Write { path, file, offset, data, phase },
            e,
            s.write_next(path, file, offset, data, phase, e).1,
        ),
{
}

proof fn lemma_rename_goes_on(
    s: FsState,
    parent: Text,
    before: Text,
    before_file: Text,
    new_parent: Text,
    after: Text,
    after_file: Text,
    phase: RenamePhase,
    e: SpecEvent,
)
    ensures
        goes_on(
            Pending::Rename { parent, before, before_file, new_parent, after, after_file, phase },
            e,
            s.rename_next(
                parent,
                before,
                before_file,
                new_parent,
                after,
                after_file,
                phase,
                e,
            ).1,
        ),
{
}

/// Every request keeps to the locks and comes to an end: each event brings it to a reply, or
/// to an action under the lock that the event left it, with fewer actions to come, and never
/// more than ten.
pub proof fn law_requests_go_on(s: FsState, p: SpecPending, e: SpecEvent)
    ensures
        remaining(p) <= 10,
        goes_on(p, e, s.next(p, e).1),
{
    match p {
        Pending::SetAttr { ino, path, file, change, phase } => {
            lemma_setattr_goes_on(s, ino, path, file, change, phase, e);
        },
        Pending::Read { path, file, offset, size, phase } => {
            lemma_read_goes_on(s, path, file, offset, size, phase, e);
        },
        Pending::Write { path, file, offset, data, phase } => {
            lemma_write_goes_on(s, path, file, offset, data, phase, e);
        },
        Pending::Rename { parent, before, before_file, new_parent, after, after_file, phase } => {
            lemma_rename_goes_on(
                s,
                parent,
                before,
                before_file,
                new_parent,
                after,
                after_file,
                phase,
                e,
            );
        },
        _ => {},
    }
}

/// A step holds no lock yet.
pub open spec fn starts_free(step: SpecStep) -> bool {
    locks_well(step) && (step matches Step::Perform(_, p) ==> lock_before(p) is None)
}

/// Every request starts without a lock, and its first action keeps to the locks.
pub proof fn law_requests_start_free(
    s: FsState,
    ino: u64,
    other: u64,
    name: Option<Text>,
    new_name: Option<Text>,
    change: AttrChange,
    offset: u64,
    size: u32,
    data: Bytes,
    path: Text,
    mode: u32,
    uid: u32,
    gid: u32,
    cached: Option<StatData>,
    listed: Names,
)
    ensures
        starts_free(s.lookup(ino, name).1),
        starts_free(s.getattr(ino).1),
        starts_free(s.setattr(ino, change).1),
        starts_free(s.read(ino, offset, size).1),
        starts_free(s.write(ino, offset, data).1),
        starts_free(s.readdir(ino, offset).1),
        starts_free(s.readlink(ino).1),
        starts_free(s.asks(Action::StatFs, Pending::StatFs).1),
        starts_free(s.create(ino, name, mode, uid, gid).1),
        starts_free(s.mkdir(ino, name, mode, uid, gid).1),
        starts_free(s.symlink(ino, name, path, uid, gid).1),
        starts_free(s.unlink(ino, name).1),
        starts_free(s.rmdir(ino, name).1),
        starts_free(s.rename(ino, name, other, new_name).1),
        starts_free(s.fetch_dir(ino, path).1),
        starts_free(s.fetch_file(path).1),
        starts_free(s.renew_attr(path, cached).1),
        starts_free(s.renew_dir(path, listed).1),
{
}

} // verus!
