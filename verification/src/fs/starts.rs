//! What requests ask for first.

use vstd::prelude::*;

use crate::assoc::{known, lookup};
use crate::backend::AttrChange;
use crate::cache::fs::law_renew_keeps_files;
use crate::cache::meta::law_get_changes_no_value;
use crate::fs::model::{FsState, SpecStep};
use crate::fs::protocol::{Action, Bytes, CreatePhase, Errno, Event, FetchDirPhase, FetchFilePhase};
use crate::fs::protocol::{Names, Pending, ReadPhase, RenamePhase, RenewPhase, Reply, SetAttrPhase};
use crate::fs::protocol::{Text, UnlinkPhase, WritePhase};
use crate::fs::requests::{secs_of, TimeOrNow};
use crate::path::child_of;
use crate::stat::{file_attr, StatData};

verus! {

// ---------------------------------------------------------------------------
// Requests that name an entry of a directory
// ---------------------------------------------------------------------------

/// A file is made below the directory that the request names: the path is that of the name in
/// the path of the parent, with the cache file of that path, and the request keeps the mode
/// and the owner for later. Nothing changes before the remote has made the file.
pub proof fn law_create_names_child(
    s: FsState,
    parent: u64,
    dir: Text,
    name: Text,
    mode: u32,
    uid: u32,
    gid: u32,
)
    requires
        s.path(parent) == Some(dir),
    ensures
        ({
            let path = child_of(dir, name);
            s.create(parent, Some(name), mode, uid, gid) == (
                s,
                SpecStep::Perform(
                    Action::Lock { path },
                    Pending::Create {
                        parent: dir,
                        path,
                        file: s.file(path),
                        mode,
                        uid,
                        gid,
                        phase: CreatePhase::Locked,
                    },
                ),
            )
        }),
{
}

/// A directory or a link is made below the directory that the request names, with the mode or
/// the target that it gives. Nothing changes before the remote has made it.
pub proof fn law_mkdir_and_symlink_name_child(
    s: FsState,
    parent: u64,
    dir: Text,
    name: Text,
    target: Text,
    mode: u32,
    uid: u32,
    gid: u32,
)
    requires
        s.path(parent) == Some(dir),
    ensures
        ({
            let path = child_of(dir, name);
            &&& s.mkdir(parent, Some(name), mode, uid, gid) == (
                s,
                SpecStep::Perform(
                    Action::CreateDir { path, mode },
                    Pending::MkDir { parent: dir, path, mode, uid, gid },
                ),
            )
            &&& s.symlink(parent, Some(name), target, uid, gid) == (
                s,
                SpecStep::Perform(
                    Action::Symlink { target, link: path },
                    Pending::Symlink { parent: dir, path, target, uid, gid },
                ),
            )
        }),
{
}

/// What is deleted is the entry of the name in the directory that the request names. Nothing
/// changes before the remote has deleted it.
pub proof fn law_delete_names_child(s: FsState, parent: u64, dir: Text, name: Text)
    requires
        s.path(parent) == Some(dir),
    ensures
        ({
            let path = child_of(dir, name);
            &&& s.unlink(parent, Some(name)) == (
                s,
                SpecStep::Perform(
                    Action::DeleteFile { path },
                    Pending::Unlink {
                        parent: dir,
                        path,
                        file: s.file(path),
                        phase: UnlinkPhase::Deleted,
                    },
                ),
            )
            &&& s.rmdir(parent, Some(name)) == (
                s,
                SpecStep::Perform(
                    Action::DeleteDir { path },
                    Pending::RmDir { parent: dir, path },
                ),
            )
        }),
{
}

/// A move goes from the old name in the old directory to the new name in the new one, which
/// may be another: the remote is asked to move exactly that, and the request keeps both
/// directories, both paths and the cache files of both. Nothing changes before the remote has
/// moved the file.
pub proof fn law_rename_names_both_ends(
    s: FsState,
    parent: u64,
    dir: Text,
    name: Text,
    new_parent: u64,
    new_dir: Text,
    new_name: Text,
)
    requires
        s.path(parent) == Some(dir),
        s.path(new_parent) == Some(new_dir),
    ensures
        ({
            let before = child_of(dir, name);
            let after = child_of(new_dir, new_name);
            s.rename(parent, Some(name), new_parent, Some(new_name)) == (
                s,
                SpecStep::Perform(
                    Action::Rename { before, after },
                    Pending::Rename {
                        parent: dir,
                        before,
                        before_file: s.file(before),
                        new_parent: new_dir,
                        after,
                        after_file: s.file(after),
                        phase: RenamePhase::Moved,
                    },
                ),
            )
        }),
{
}

/// A name that is no text is refused, and nothing changes: with ENOENT where an entry is
/// looked up or made, else with EINVAL.
pub proof fn law_unreadable_name_is_refused(
    s: FsState,
    parent: u64,
    other: u64,
    name: Option<Text>,
    target: Text,
    mode: u32,
    uid: u32,
    gid: u32,
)
    requires
        s.path(parent) is Some,
        s.path(other) is Some,
    ensures
        s.lookup(parent, None) == (s, SpecStep::Reply(Reply::Error(Errno::ENOENT))),
        s.create(parent, None, mode, uid, gid) == (s, SpecStep::Reply(Reply::Error(Errno::ENOENT))),
        s.mkdir(parent, None, mode, uid, gid) == (s, SpecStep::Reply(Reply::Error(Errno::ENOENT))),
        s.symlink(parent, None, target, uid, gid) == (
            s,
            SpecStep::Reply(Reply::Error(Errno::EINVAL)),
        ),
        s.unlink(parent, None) == (s, SpecStep::Reply(Reply::Error(Errno::EINVAL))),
        s.rmdir(parent, None) == (s, SpecStep::Reply(Reply::Error(Errno::EINVAL))),
        s.rename(parent, None, other, name) == (s, SpecStep::Reply(Reply::Error(Errno::EINVAL))),
        s.rename(parent, name, other, None) == (s, SpecStep::Reply(Reply::Error(Errno::EINVAL))),
{
}

// ---------------------------------------------------------------------------
// Attributes
// ---------------------------------------------------------------------------

/// A lookup replies what is cached of the entry of that name in that directory: its attributes
/// under the inode of its path, which then has that path, or its absence. Where nothing is
/// cached, the remote is asked for the attributes of exactly that path, and nothing changes. What
/// is cached is then the most recently used.
pub proof fn law_lookup_is_of_child(s: FsState, parent: u64, dir: Text, name: Text, other: Text)
    requires
        s.wf(),
        s.roomy(),
        s.path(parent) == Some(dir),
    ensures
        ({
            let path = child_of(dir, name);
            let (t, step) = s.lookup(parent, Some(name));
            &&& match s.attr(path) {
                Some(Some(d)) => {
                    &&& step == SpecStep::Reply(Reply::Entry(file_attr(t.inodes.ino(path), d)))
                    &&& t.path(t.inodes.ino(path)) == Some(path)
                    &&& t.inodes == s.inodes.with(path)
                },
                Some(None) => step == SpecStep::Reply(Reply::Error(Errno::ENOENT)) && t.inodes
                    == s.inodes,
                None => t == s && step == SpecStep::Perform(
                    Action::Stat { path },
                    Pending::Lookup { path },
                ),
            }
            &&& t.attr(other) == s.attr(other)
            &&& t.attrs.len() == s.attrs.len()
            &&& s.attr(path) is Some ==> t.attrs[0].0 == path
            &&& (t.dirs, t.files, t.fetching) == (s.dirs, s.files, s.fetching)
        }),
{
    law_get_changes_no_value(s.attrs, child_of(dir, name), other);
}

/// The attributes of an inode are those of its path: what is cached is replied, under the same
/// inode, and else the remote is asked for the attributes of that path. No cached value and no
/// inode changes; what is cached is then the most recently used.
pub proof fn law_getattr_is_of_path(s: FsState, ino: u64, path: Text, other: Text)
    requires
        s.wf(),
        s.path(ino) == Some(path),
    ensures
        ({
            let (t, step) = s.getattr(ino);
            &&& match s.attr(path) {
                Some(Some(d)) => step == SpecStep::Reply(Reply::Attr(file_attr(ino, d))),
                Some(None) => step == SpecStep::Reply(Reply::Error(Errno::ENOENT)),
                None => t == s && step == SpecStep::Perform(
                    Action::Stat { path },
                    Pending::GetAttr { ino, path },
                ),
            }
            &&& t.attr(other) == s.attr(other)
            &&& t.attrs.len() == s.attrs.len()
            &&& s.attr(path) is Some ==> t.attrs[0].0 == path
            &&& (t.inodes, t.dirs, t.files, t.fetching) == (
                s.inodes,
                s.dirs,
                s.files,
                s.fetching,
            )
        }),
{
    law_get_changes_no_value(s.attrs, path, other);
}

/// A change of attributes is about the path of the inode and its cache file, and keeps the
/// change as it was asked for. One that leaves the size alone goes to the remote at once; one
/// of the size waits for the lock of the path.
pub proof fn law_setattr_is_of_path(s: FsState, ino: u64, path: Text, change: AttrChange)
    requires
        s.path(ino) == Some(path),
    ensures
        ({
            let at = |phase: SetAttrPhase|
                Pending::SetAttr { ino, path, file: s.file(path), change, phase };
            &&& change.size is None ==> s.setattr(ino, change) == (
                s,
                SpecStep::Perform(Action::SetStat { path, change }, at(SetAttrPhase::Applied)),
            )
            &&& change.size is Some ==> s.setattr(ino, change) == (
                s,
                SpecStep::Perform(Action::Lock { path }, at(SetAttrPhase::Locked)),
            )
        }),
{
}

/// A time is changed to what the request says: to the seconds that it names, to the present, or
/// to the epoch where it lies before that; one that is not named is not changed.
pub proof fn law_times_are_as_asked(secs: u64, now: u64)
    ensures
        secs_of(Some(TimeOrNow::SpecificTime(Some(secs))), now) == Some(secs),
        secs_of(Some(TimeOrNow::SpecificTime(None)), now) == Some(0u64),
        secs_of(Some(TimeOrNow::Now), now) == Some(now),
        secs_of(None, now) is None,
{
}

// ---------------------------------------------------------------------------
// Contents
// ---------------------------------------------------------------------------

/// A read is about the path of the inode and its cache file, from the offset and of the size
/// that were asked for. It marks the cache file as the one that was used last, and changes
/// nothing else: no file is dropped, and none gets another size.
pub proof fn law_read_is_of_path(
    s: FsState,
    ino: u64,
    path: Text,
    offset: u64,
    size: u32,
    other: Text,
)
    requires
        s.wf(),
        s.path(ino) == Some(path),
    ensures
        ({
            let file = s.file(path);
            let (t, step) = s.read(ino, offset, size);
            &&& step == SpecStep::Perform(
                Action::TryLock { path },
                Pending::Read { path, file, offset, size, phase: ReadPhase::Tried },
            )
            &&& lookup(t.files, other) == lookup(s.files, other)
            &&& t.files.len() == s.files.len()
            &&& lookup(s.files, file) is Some ==> t.files.last().0 == file
            &&& lookup(s.files, file) is None ==> t.files == s.files
            &&& (t.inodes, t.attrs, t.dirs, t.fetching) == (
                s.inodes,
                s.attrs,
                s.dirs,
                s.fetching,
            )
        }),
{
    let file = s.file(path);
    if known(s.files, file) {
        law_renew_keeps_files(s.files, file, other);
    }
}

/// A write is about the path of the inode and its cache file, at the offset and with the bytes
/// that were given. It waits for the lock of the path before it changes anything.
pub proof fn law_write_is_of_path(s: FsState, ino: u64, path: Text, offset: u64, data: Bytes)
    requires
        s.path(ino) == Some(path),
    ensures
        s.write(ino, offset, data) == (
            s,
            SpecStep::Perform(
                Action::Lock { path },
                Pending::Write {
                    path,
                    file: s.file(path),
                    offset,
                    data,
                    phase: WritePhase::Locked,
                },
            ),
        ),
{
}

/// A link is read at the path of the inode: the remote's target is the reply, and a failure is
/// EIO.
pub proof fn law_readlink_is_of_path(s: FsState, ino: u64, path: Text, target: Text)
    requires
        s.path(ino) == Some(path),
    ensures
        s.readlink(ino) == (s, SpecStep::Perform(Action::ReadLink { path }, Pending::ReadLink)),
        s.next(Pending::ReadLink, Event::Link(Some(target))) == (
            s,
            SpecStep::Reply(Reply::Link(target)),
        ),
        s.next(Pending::ReadLink, Event::Link(None)) == (
            s,
            SpecStep::Reply(Reply::Error(Errno::EIO)),
        ),
{
}

// ---------------------------------------------------------------------------
// Background tasks
// ---------------------------------------------------------------------------

/// A background task is about the path that it was given, and that path's cache file: a fetch
/// lists that directory or waits for the lock of that file; a refresh asks again for what is
/// cached of that path, and keeps it to compare with. None changes anything at its start.
pub proof fn law_tasks_are_of_path(
    s: FsState,
    ino: u64,
    path: Text,
    cached: Option<StatData>,
    names: Names,
)
    ensures
        s.fetch_dir(ino, path) == (
            s,
            SpecStep::Perform(
                Action::ReadDir { path },
                Pending::FetchDir { ino, path, phase: FetchDirPhase::Listed },
            ),
        ),
        s.fetch_file(path) == (
            s,
            SpecStep::Perform(
                Action::Lock { path },
                Pending::FetchFile { path, file: s.file(path), phase: FetchFilePhase::Locked },
            ),
        ),
        s.renew_attr(path, cached) == (
            s,
            SpecStep::Perform(
                Action::TryLock { path },
                Pending::RenewAttr {
                    path,
                    file: s.file(path),
                    cached,
                    phase: RenewPhase::Tried,
                },
            ),
        ),
        s.renew_dir(path, names) == (
            s,
            SpecStep::Perform(Action::ReadDir { path }, Pending::RenewDir { path, cached: names }),
        ),
{
}

} // verus!
