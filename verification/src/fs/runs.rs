//! What requests do from their first action to their reply.

use vstd::prelude::*;

use crate::assoc::{lemma_without, lookup, without};
use crate::backend::AttrChange;
use crate::cache::fs::{excess, names, renewed, total};
use crate::cache::meta::{law_get_changes_no_value, law_put_keeps_others, law_put_then_get};
use crate::fs::laws::{law_rename_completes, law_rename_moves, law_write_updates_size, subject};
use crate::fs::model::{listed_names, FsState, SpecAction, SpecEvent, SpecPending, SpecStep};
use crate::fs::protocol::{Action, Bytes, CachePhase, CreatePhase, Errno, Event, FetchDirPhase};
use crate::fs::protocol::{FetchFilePhase, Listing, Pending, ReadPhase, RenamePhase, RenewPhase};
use crate::fs::protocol::{Reply, SetAttrPhase, StatFs, Step, Task, Text, UnlinkPhase, WritePhase};
use crate::inode::Inodes;
use crate::path::child_of;
use crate::shared::MAX_LISTING;
use crate::sorting::{law_sorted_listings_agree, sorted};
use crate::stat::{file_attr, new_attr, FileType, StatData, PERMISSION_BITS};

verus! {

// ---------------------------------------------------------------------------
// Every action is the request's own
// ---------------------------------------------------------------------------

/// `p` and `q` are the same request, as far as they may be: only the phase differs.
pub open spec fn same_request(p: SpecPending, q: SpecPending) -> bool {
    match (p, q) {
        (
            Pending::SetAttr { ino, path, file, change, .. },
            Pending::SetAttr { ino: i, path: x, file: f, change: c, .. },
        ) => ino == i && path == x && file == f && change == c,
        (
            Pending::Read { path, file, offset, size, .. },
            Pending::Read { path: x, file: f, offset: o, size: n, .. },
        ) => path == x && file == f && offset == o && size == n,
        (
            Pending::Write { path, file, offset, data, .. },
            Pending::Write { path: x, file: f, offset: o, data: d, .. },
        ) => path == x && file == f && offset == o && data == d,
        (
            Pending::Create { parent, path, file, mode, uid, gid, .. },
            Pending::Create { parent: r, path: x, file: f, mode: m, uid: u, gid: g, .. },
        ) => parent == r && path == x && file == f && mode == m && uid == u && gid == g,
        (
            Pending::Unlink { parent, path, file, .. },
            Pending::Unlink { parent: r, path: x, file: f, .. },
        ) => parent == r && path == x && file == f,
        (
            Pending::Rename { parent, before, before_file, new_parent, after, after_file, .. },
            Pending::Rename {
                parent: r,
                before: b,
                before_file: bf,
                new_parent: n,
                after: a,
                after_file: af,
                ..
            },
        ) => parent == r && before == b && before_file == bf && new_parent == n && after == a
            && after_file == af,
        (
            Pending::FetchDir { ino, path, .. },
            Pending::FetchDir { ino: i, path: x, .. },
        ) => ino == i && path == x,
        (
            Pending::FetchFile { path, file, .. },
            Pending::FetchFile { path: x, file: f, .. },
        ) => path == x && file == f,
        (
            Pending::RenewAttr { path, file, cached, .. },
            Pending::RenewAttr { path: x, file: f, cached: c, .. },
        ) => path == x && file == f && cached == c,
        _ => false,
    }
}

/// The path that a request is about.
pub open spec fn path_in(p: SpecPending, path: Text) -> bool {
    match p {
        Pending::SetAttr { path: x, .. } => path == x,
        Pending::Read { path: x, .. } => path == x,
        Pending::Write { path: x, .. } => path == x,
        Pending::Create { path: x, .. } => path == x,
        Pending::Unlink { path: x, .. } => path == x,
        Pending::Rename { before, after, .. } => path == before || path == after,
        Pending::FetchFile { path: x, .. } => path == x,
        Pending::RenewAttr { path: x, .. } => path == x,
        _ => false,
    }
}

/// The cache file that a request is about.
pub open spec fn file_in(p: SpecPending, file: Text) -> bool {
    match p {
        Pending::SetAttr { file: f, .. } => file == f,
        Pending::Read { file: f, .. } => file == f,
        Pending::Write { file: f, .. } => file == f,
        Pending::Create { file: f, .. } => file == f,
        Pending::FetchFile { file: f, .. } => file == f,
        _ => false,
    }
}

/// An action that a request goes on with is about its own paths and cache files, with the
/// offset, the size, the bytes, the mode and the change that it was started with, and downloads
/// no more than the disk cache holds.
pub open spec fn serves(s: FsState, p: SpecPending, a: SpecAction) -> bool {
    match a {
        Action::Stat { path } => path_in(p, path) && (p is SetAttr || p is RenewAttr),
        Action::SetStat { path, change } => path_in(p, path) && (p matches Pending::SetAttr {
            change: c,
            ..
        } && change == c),
        Action::CreateFile { path, mode } => path_in(p, path) && (p matches Pending::Create {
            mode: m,
            ..
        } && mode == m),
        Action::ReadAt { path, offset, size } => path_in(p, path) && (p matches Pending::Read {
            offset: o,
            size: n,
            ..
        } && offset == o && size == n),
        Action::Download { path, file, max_bytes } => subject(p) == Some((path, file))
            && max_bytes == s.limit && (p is SetAttr || p is Write || p is FetchFile),
        Action::Lock { path } => path_in(p, path) && (p is Unlink || p is Rename),
        Action::IsLocked { path } => path_in(p, path) && p is Read,
        Action::Unlock => true,
        Action::Exists { file } => file_in(p, file),
        Action::Size { file } => file_in(p, file) && !(p is Read),
        Action::Truncate { file, size } => file_in(p, file) && (p matches Pending::SetAttr {
            change,
            ..
        } && change.size == Some(size)),
        Action::ReadFile { file, offset, size } => file_in(p, file) && (p matches Pending::Read {
            offset: o,
            size: n,
            ..
        } && offset == o && size == n),
        Action::WriteFile { file, offset, data } => file_in(p, file) && (p matches Pending::Write {
            offset: o,
            data: d,
            ..
        } && offset == o && data == d),
        Action::CreateEmpty { file } => file_in(p, file) && p is Create,
        Action::Remove { files } => match p {
            Pending::Unlink { file, .. } => files == seq![file],
            Pending::Rename { before_file, after_file, .. } => files == seq![before_file] || files
                == seq![after_file],
            Pending::RenewAttr { file, .. } => files == seq![file],
            _ => p is SetAttr || p is Write || p is FetchFile,
        },
        Action::Spawn(task) => match p {
            Pending::Read { path, .. } => task == Task::<Text, Bytes>::FetchFile { path },
            Pending::Write { path, file, offset, data, .. } => task == Task::AsyncWrite {
                path,
                offset,
                data,
                file,
            },
            _ => false,
        },
        Action::Invalidate { ino } => p matches Pending::FetchDir { ino: i, .. } && ino == i,
        _ => false,
    }
}

/// A request stays itself to its end: whatever comes of an action, the next one is about the
/// request's own paths and cache files and has the values that the request was started with,
/// and so has what waits for it.
pub proof fn law_requests_stay_themselves(s: FsState, p: SpecPending, e: SpecEvent)
    ensures
        s.next(p, e).1 matches Step::Perform(a, q) ==> same_request(p, q)
            && serves(s, q, a),
{
}

// ---------------------------------------------------------------------------
// Getting a file into the disk cache
// ---------------------------------------------------------------------------

/// Getting a file into the disk cache is done: it was there, it was just downloaded and
/// recorded, or the download was refused.
pub open spec fn caching_done(c: CachePhase, e: SpecEvent) -> bool {
    ||| c is Present && e == SpecEvent::Flag(true)
    ||| c is Downloaded && e == SpecEvent::Flag(false)
    ||| c is Evicted && e == SpecEvent::Unit
}

/// A request that waits in a phase of getting its file into the disk cache.
pub open spec fn caching(p: SpecPending, c: CachePhase) -> bool {
    match p {
        Pending::SetAttr { phase, .. } => phase == SetAttrPhase::Caching(c),
        Pending::Write { phase, .. } => phase == WritePhase::Caching(c),
        Pending::FetchFile { phase, .. } => phase == FetchFilePhase::Caching(c),
        _ => false,
    }
}

/// A file that is not in the disk cache is downloaded there, whichever request needs it: as
/// far as the limit allows, then measured and recorded with that size, and the files that have
/// to make room are removed; they are the ones that were used longest ago, and no others leave.
pub proof fn law_absent_file_is_downloaded(s: FsState, p: SpecPending, size: Option<u64>)
    requires
        subject(p) is Some,
    ensures
        ({
            let (path, file) = subject(p)->0;
            let asked: SpecAction = Action::Download { path, file, max_bytes: s.limit };
            let sized: SpecAction = Action::Size { file };
            &&& caching(p, CachePhase::Present) ==> {
                let (t, step) = s.next(p, Event::Flag(false));
                &&& t == s
                &&& step matches Step::Perform(a, q) && a == asked && caching(
                    q,
                    CachePhase::Downloaded,
                )
            }
            &&& caching(p, CachePhase::Downloaded) ==> {
                let (t, step) = s.next(p, Event::Flag(true));
                &&& t == s
                &&& step matches Step::Perform(a, q) && a == sized && caching(q, CachePhase::Sized)
            }
            &&& caching(p, CachePhase::Sized) ==> {
                let (t, step) = s.next(p, Event::Size(size));
                let gone = records(s, t, file, size);
                let room: SpecAction = Action::Remove { files: gone->0 };
                &&& gone is Some
                &&& step matches Step::Perform(a, q) && a == room && caching(q, CachePhase::Evicted)
            }
        }),
{
}

/// The files that had to make room when `t` came of `s` by recording a cache file of a size;
/// none where `t` did not.
pub open spec fn records(s: FsState, t: FsState, file: Text, size: Option<u64>) -> Option<
    Seq<Text>,
> {
    match size {
        Some(n) => {
            let all = renewed(s.files, file, n);
            let e = excess(all, s.limit);
            if t == (FsState { files: all.skip(e), ..s }) {
                Some(names(all.take(e)))
            } else {
                None
            }
        },
        None => if t == s {
            Some(Seq::empty())
        } else {
            None
        },
    }
}

// ---------------------------------------------------------------------------
// Changes of size
// ---------------------------------------------------------------------------

/// A change of size to `size` cuts or extends the file in the disk cache to that size, however
/// it got there: under the lock of the path the file is looked for, and once getting it is
/// done, exactly it is cut to exactly that size; then the lock is released and the remote is
/// asked for the same change of the same path. Nothing that is cached changes on the way.
pub proof fn law_size_change_cuts_the_file(
    s: FsState,
    ino: u64,
    path: Text,
    file: Text,
    change: AttrChange,
    size: u64,
    c: CachePhase,
    e: SpecEvent,
)
    requires
        change.size == Some(size),
        caching_done(c, e),
    ensures
        ({
            let at = |phase: SetAttrPhase| Pending::SetAttr { ino, path, file, change, phase };
            &&& s.next(at(SetAttrPhase::Locked), Event::Unit) == (
                s,
                SpecStep::Perform(
                    Action::Exists { file },
                    at(SetAttrPhase::Caching(CachePhase::Present)),
                ),
            )
            &&& s.next(at(SetAttrPhase::Caching(c)), e) == (
                s,
                SpecStep::Perform(Action::Truncate { file, size }, at(SetAttrPhase::Truncated)),
            )
            &&& s.next(at(SetAttrPhase::Truncated), Event::Unit) == (
                s,
                SpecStep::Perform(Action::Unlock, at(SetAttrPhase::Unlocked)),
            )
            &&& s.next(at(SetAttrPhase::Unlocked), Event::Unit) == (
                s,
                SpecStep::Perform(Action::SetStat { path, change }, at(SetAttrPhase::Applied)),
            )
        }),
{
}

/// A change that the remote made drops what is cached of the path, and of no other, before the
/// path is looked at again; what is found then is what is cached, and is the reply.
pub proof fn law_changed_attributes_are_looked_at(
    s: FsState,
    ino: u64,
    path: Text,
    file: Text,
    change: AttrChange,
    found: Option<StatData>,
    other: Text,
)
    requires
        s.wf(),
    ensures
        ({
            let at = |phase: SetAttrPhase| Pending::SetAttr { ino, path, file, change, phase };
            let (t, step) = s.next(at(SetAttrPhase::Applied), Event::Flag(true));
            let (u, last) = s.next(at(SetAttrPhase::Fetched), Event::Stat(found));
            &&& step == SpecStep::Perform(Action::Stat { path }, at(SetAttrPhase::Fetched))
            &&& t.attr(path) is None
            &&& other != path ==> t.attr(other) == s.attr(other)
            &&& t == (FsState { attrs: t.attrs, ..s })
            &&& u.attr(path) == Some(found)
            &&& other != path && !(s.attrs.len() == s.attr_cap && s.attr(path) is None
                && s.attrs.last().0 == other) ==> u.attr(other) == s.attr(other)
            &&& u == (FsState { attrs: u.attrs, ..s })
            &&& last == SpecStep::Reply(
                match found {
                    Some(d) => Reply::Attr(file_attr(ino, d)),
                    None => Reply::Error(Errno::ENOENT),
                },
            )
        }),
{
    lemma_without(s.attrs, path);
    law_put_then_get(s.attrs, s.attr_cap, path, found);
    if other != path {
        law_put_keeps_others(s.attrs, s.attr_cap, path, found, other);
    }
}

// ---------------------------------------------------------------------------
// Lookups that ask the remote
// ---------------------------------------------------------------------------

/// What the remote says of a path is cached, and is the reply: the attributes, under the inode
/// of the path, or ENOENT where the path is absent. Another path keeps what is cached of it,
/// unless it is the one that was used longest ago and has to make room.
pub proof fn law_answers_are_cached(
    s: FsState,
    ino: u64,
    path: Text,
    found: Option<StatData>,
    other: Text,
)
    requires
        s.wf(),
        s.roomy(),
    ensures
        ({
            let (t, step) = s.next(Pending::Lookup { path }, Event::Stat(found));
            let (u, last) = s.next(Pending::GetAttr { ino, path }, Event::Stat(found));
            let full = s.attrs.len() == s.attr_cap && s.attr(path) is None;
            &&& t.attr(path) == Some(found)
            &&& u.attr(path) == Some(found)
            &&& other != path && !(full && s.attrs.last().0 == other) ==> t.attr(other) == s.attr(
                other,
            ) && u.attr(other) == s.attr(other)
            &&& u == (FsState { attrs: u.attrs, ..s })
            &&& match found {
                Some(d) => {
                    &&& step == SpecStep::Reply(Reply::Entry(file_attr(t.inodes.ino(path), d)))
                    &&& t.path(t.inodes.ino(path)) == Some(path)
                    &&& t == (FsState { attrs: t.attrs, inodes: s.inodes.with(path), ..s })
                    &&& last == SpecStep::Reply(Reply::Attr(file_attr(ino, d)))
                },
                None => {
                    &&& step == SpecStep::Reply(Reply::Error(Errno::ENOENT))
                    &&& t == (FsState { attrs: t.attrs, ..s })
                    &&& last == SpecStep::Reply(Reply::Error(Errno::ENOENT))
                },
            }
        }),
{
    law_put_then_get(s.attrs, s.attr_cap, path, found);
    if other != path {
        law_put_keeps_others(s.attrs, s.attr_cap, path, found, other);
    }
}

// ---------------------------------------------------------------------------
// Reads
// ---------------------------------------------------------------------------

/// A read looks in the disk cache only under the lock of its path, and goes to the remote
/// wherever the disk cache cannot serve it: the lock is held by another, the file is not
/// there, or it cannot be read. Before it asks the remote it releases the lock it holds, and
/// starts a download unless the lock of the path is held. Nothing that is cached changes.
pub proof fn law_read_falls_back(s: FsState, path: Text, file: Text, offset: u64, size: u32)
    ensures
        ({
            let at = |phase: ReadPhase| Pending::Read { path, file, offset, size, phase };
            let asks = |a: SpecAction, phase: ReadPhase| (s, SpecStep::Perform(a, at(phase)));
            &&& s.next(at(ReadPhase::Tried), Event::Flag(true)) == asks(
                Action::Exists { file },
                ReadPhase::Present,
            )
            &&& s.next(at(ReadPhase::Tried), Event::Flag(false)) == asks(
                Action::IsLocked { path },
                ReadPhase::Asked,
            )
            &&& s.next(at(ReadPhase::Present), Event::Flag(true)) == asks(
                Action::ReadFile { file, offset, size },
                ReadPhase::Cached,
            )
            &&& s.next(at(ReadPhase::Present), Event::Flag(false)) == asks(
                Action::Unlock,
                ReadPhase::Unlocked,
            )
            &&& s.next(at(ReadPhase::Cached), Event::Data(None)) == asks(
                Action::Unlock,
                ReadPhase::Unlocked,
            )
            &&& s.next(at(ReadPhase::Unlocked), Event::Unit) == asks(
                Action::IsLocked { path },
                ReadPhase::Asked,
            )
            &&& s.next(at(ReadPhase::Asked), Event::Flag(false)) == asks(
                Action::Spawn(Task::FetchFile { path }),
                ReadPhase::Spawned,
            )
            &&& s.next(at(ReadPhase::Asked), Event::Flag(true)) == asks(
                Action::ReadAt { path, offset, size },
                ReadPhase::Remote,
            )
            &&& s.next(at(ReadPhase::Spawned), Event::Unit) == asks(
                Action::ReadAt { path, offset, size },
                ReadPhase::Remote,
            )
        }),
{
}

/// What a read replies is what was read: the bytes of the cache file where it is read there,
/// and else those of the remote, whichever they are; where the remote cannot be read, EIO.
pub proof fn law_read_replies_what_was_read(
    s: FsState,
    path: Text,
    file: Text,
    offset: u64,
    size: u32,
    d: Bytes,
)
    ensures
        ({
            let at = |phase: ReadPhase| Pending::Read { path, file, offset, size, phase };
            &&& s.next(at(ReadPhase::Cached), Event::Data(Some(d))) == (
                s,
                SpecStep::Reply(Reply::Data(d)),
            )
            &&& s.next(at(ReadPhase::Remote), Event::Data(Some(d))) == (
                s,
                SpecStep::Reply(Reply::Data(d)),
            )
            &&& s.next(at(ReadPhase::Remote), Event::Data(None)) == (
                s,
                SpecStep::Reply(Reply::Error(Errno::EIO)),
            )
        }),
{
}

// ---------------------------------------------------------------------------
// Writes
// ---------------------------------------------------------------------------

/// A write goes to its offset in the file in the disk cache, however the file got there: under
/// the lock of the path the file is looked for, and once getting it is done, exactly the bytes
/// of the request are written to exactly that file at exactly that offset.
pub proof fn law_write_goes_to_its_offset(
    s: FsState,
    path: Text,
    file: Text,
    offset: u64,
    data: Bytes,
    c: CachePhase,
    e: SpecEvent,
)
    requires
        caching_done(c, e),
    ensures
        ({
            let at = |phase: WritePhase| Pending::Write { path, file, offset, data, phase };
            &&& s.next(at(WritePhase::Locked), Event::Unit) == (
                s,
                SpecStep::Perform(
                    Action::Exists { file },
                    at(WritePhase::Caching(CachePhase::Present)),
                ),
            )
            &&& s.next(at(WritePhase::Caching(c)), e) == (
                s,
                SpecStep::Perform(
                    Action::WriteFile { file, offset, data },
                    at(WritePhase::Stored),
                ),
            )
        }),
{
}

/// A write that was stored goes to the remote before it is replied: the file is measured, which
/// gives cached attributes of the path the new size and changes nothing else that is cached;
/// the lock is released, the same bytes at the same offset are handed on for the remote, and the
/// file is measured again and recorded. The reply is the number of bytes. One that could not be
/// stored is answered with EIO, and goes nowhere.
pub proof fn law_stored_write_reaches_remote(
    s: FsState,
    path: Text,
    file: Text,
    offset: u64,
    data: Bytes,
    size: Option<u64>,
    other: Text,
)
    requires
        s.wf(),
    ensures
        ({
            let at = |phase: WritePhase| Pending::Write { path, file, offset, data, phase };
            let (t, measured) = s.next(at(WritePhase::Measured), Event::Size(size));
            let (u, recorded) = s.next(at(WritePhase::Recorded), Event::Size(size));
            &&& s.next(at(WritePhase::Stored), Event::Flag(true)) == (
                s,
                SpecStep::Perform(Action::Size { file }, at(WritePhase::Measured)),
            )
            &&& s.next(at(WritePhase::Stored), Event::Flag(false)) == (
                s,
                SpecStep::Reply(Reply::Error(Errno::EIO)),
            )
            &&& measured == SpecStep::Perform(Action::Unlock, at(WritePhase::Unlocked))
            &&& t == (FsState { attrs: t.attrs, ..s })
            &&& t.attr(path) == (match (s.attr(path), size) {
                (Some(Some(d)), Some(n)) => Some(Some(StatData { size: n, ..d })),
                _ => s.attr(path),
            })
            &&& other != path ==> t.attr(other) == s.attr(other)
            &&& s.next(at(WritePhase::Unlocked), Event::Unit) == (
                s,
                SpecStep::Perform(
                    Action::Spawn(Task::AsyncWrite { path, offset, data, file }),
                    at(WritePhase::Spawned),
                ),
            )
            &&& s.next(at(WritePhase::Spawned), Event::Unit) == (
                s,
                SpecStep::Perform(Action::Size { file }, at(WritePhase::Recorded)),
            )
            &&& records(s, u, file, size) is Some
            &&& recorded == SpecStep::Perform(
                Action::Remove { files: records(s, u, file, size)->0 },
                at(WritePhase::Trimmed),
            )
            &&& s.next(at(WritePhase::Trimmed), Event::Unit) == (
                s,
                SpecStep::Reply(Reply::Written(data.len() as u32)),
            )
        }),
{
    law_get_changes_no_value(s.attrs, path, path);
    law_get_changes_no_value(s.attrs, path, other);
    match (s.attr(path), size) {
        (Some(Some(d)), Some(n)) => {
            let elsewhere = path.push('/');
            assert(elsewhere.len() != path.len());
            law_write_updates_size(s, path, n, d, elsewhere);
            if other != path {
                law_write_updates_size(s, path, n, d, other);
            }
        },
        _ => {},
    }
}

// ---------------------------------------------------------------------------
// New files, directories and links
// ---------------------------------------------------------------------------

/// `t` is `s` once the entry `path` of `parent` was made, changed or deleted: nothing is cached
/// of the path or of the names in the directory, everything else that is cached stays, and so
/// do the disk cache and the fetches.
pub open spec fn forgets(s: FsState, t: FsState, path: Text, parent: Text) -> bool {
    &&& t.attr(path) is None
    &&& t.listing(parent) is None
    &&& forall|x: Text| x != path ==> #[trigger] t.attr(x) == s.attr(x)
    &&& forall|x: Text| x != parent ==> #[trigger] t.listing(x) == s.listing(x)
    &&& t == (FsState { attrs: t.attrs, dirs: t.dirs, inodes: t.inodes, files: t.files, ..s })
}

proof fn lemma_forgets(s: FsState, t: FsState, path: Text, parent: Text)
    requires
        s.wf(),
        t.attrs == without(s.attrs, path),
        t.dirs == without(s.dirs, parent),
        t == (FsState { attrs: t.attrs, dirs: t.dirs, inodes: t.inodes, files: t.files, ..s }),
    ensures
        forgets(s, t, path, parent),
{
    lemma_without(s.attrs, path);
    lemma_without(s.dirs, parent);
}

/// A file is made in two places: under the lock of its path an empty cache file is made, then
/// the remote file, with the mode that was asked for. Once the remote has made it, the reply is
/// an empty regular file with that mode's permissions and that owner, under the inode of the
/// path, and older knowledge of the path and of its directory is dropped, nothing else.
pub proof fn law_create_makes_empty_file(
    s: FsState,
    parent: Text,
    path: Text,
    file: Text,
    mode: u32,
    uid: u32,
    gid: u32,
)
    requires
        s.wf(),
        s.roomy(),
    ensures
        ({
            let at = |phase: CreatePhase|
                Pending::Create { parent, path, file, mode, uid, gid, phase };
            let (t, step) = s.next(at(CreatePhase::Made), Event::Flag(true));
            let ino = t.inodes.ino(path);
            &&& s.next(at(CreatePhase::Locked), Event::Unit) == (
                s,
                SpecStep::Perform(Action::CreateEmpty { file }, at(CreatePhase::Emptied)),
            )
            &&& s.next(at(CreatePhase::Emptied), Event::Unit) == (
                s,
                SpecStep::Perform(Action::CreateFile { path, mode }, at(CreatePhase::Made)),
            )
            &&& step == SpecStep::Reply(
                Reply::Created(
                    new_attr(
                        ino,
                        FileType::RegularFile,
                        0,
                        (mode & PERMISSION_BITS) as u16,
                        uid,
                        gid,
                    ),
                ),
            )
            &&& forgets(s, t, path, parent)
            &&& t.files == s.files
            &&& t.inodes == s.inodes.with(path)
            &&& t.path(ino) == Some(path)
        }),
{
    let made = Pending::Create { parent, path, file, mode, uid, gid, phase: CreatePhase::Made };
    lemma_forgets(s, s.next(made, Event::Flag(true)).0, path, parent);
}

/// A directory that the remote has made is replied as a directory, with the permissions of the
/// mode that was asked for, and a link as a link that all may use, as long as its target is in
/// bytes; both have that owner and the inode of the path. Older knowledge of the path and of its
/// directory is dropped, nothing else.
pub proof fn law_made_entries_are_replied(
    s: FsState,
    parent: Text,
    path: Text,
    target: Text,
    mode: u32,
    uid: u32,
    gid: u32,
)
    requires
        s.wf(),
        s.roomy(),
    ensures
        ({
            let dir = Pending::MkDir { parent, path, mode, uid, gid };
            let link = Pending::Symlink { parent, path, target, uid, gid };
            let (t, step) = s.next(dir, Event::Flag(true));
            let (u, last) = s.next(link, Event::Flag(true));
            let ino = t.inodes.ino(path);
            &&& step == SpecStep::Reply(
                Reply::Entry(
                    new_attr(
                        ino,
                        FileType::Directory,
                        0,
                        (mode & PERMISSION_BITS) as u16,
                        uid,
                        gid,
                    ),
                ),
            )
            &&& last == SpecStep::Reply(
                Reply::Entry(
                    new_attr(
                        ino,
                        FileType::Symlink,
                        vstd::utf8::encode_utf8(target).len() as u64,
                        0o777,
                        uid,
                        gid,
                    ),
                ),
            )
            &&& u == t
            &&& forgets(s, t, path, parent)
            &&& t.files == s.files
            &&& t.inodes == s.inodes.with(path)
            &&& t.path(ino) == Some(path)
        }),
{
    let dir = Pending::MkDir { parent, path, mode, uid, gid };
    lemma_forgets(s, s.next(dir, Event::Flag(true)).0, path, parent);
}

// ---------------------------------------------------------------------------
// Deleted and moved files
// ---------------------------------------------------------------------------

/// A file that the remote has deleted is forgotten under the lock of its path: its cache file is
/// removed and not tracked any more, its inode has no path, and older knowledge of the path and
/// of its directory is dropped. Every other cache file and inode stays, and the reply is
/// success.
pub proof fn law_unlink_forgets_only_that(
    s: FsState,
    parent: Text,
    path: Text,
    file: Text,
    other: Text,
    i: u64,
)
    requires
        s.wf(),
    ensures
        ({
            let at = |phase: UnlinkPhase| Pending::Unlink { parent, path, file, phase };
            let (t, step) = s.next(at(UnlinkPhase::Locked), Event::Unit);
            &&& s.next(at(UnlinkPhase::Deleted), Event::Flag(true)) == (
                s,
                SpecStep::Perform(Action::Lock { path }, at(UnlinkPhase::Locked)),
            )
            &&& step == SpecStep::Perform(
                Action::Remove { files: seq![file] },
                at(UnlinkPhase::Removed),
            )
            &&& forgets(s, t, path, parent)
            &&& lookup(t.files, file) is None
            &&& other != file ==> lookup(t.files, other) == lookup(s.files, other)
            &&& s.path(i) is Some && !(s.inodes.inos.contains_key(path) && s.inodes.inos[path] == i)
                ==> t.path(i) == s.path(i)
            &&& s.inodes.inos.contains_key(path) ==> t.path(s.inodes.inos[path]) is None
            &&& !t.inodes.inos.contains_key(path)
            &&& s.next(at(UnlinkPhase::Removed), Event::Unit) == (s, SpecStep::Reply(Reply::Done))
        }),
{
    lemma_without(s.files, file);
    let locked = Pending::Unlink { parent, path, file, phase: UnlinkPhase::Locked };
    lemma_forgets(s, s.next(locked, Event::Unit).0, path, parent);
}

/// A directory that the remote has deleted is forgotten at once: its inode has no path, and
/// older knowledge of the path and of its directory is dropped. The disk cache and every other
/// inode stay, and the reply is success.
pub proof fn law_rmdir_forgets_only_that(s: FsState, parent: Text, path: Text, i: u64)
    requires
        s.wf(),
    ensures
        ({
            let (t, step) = s.next(Pending::RmDir { parent, path }, Event::Flag(true));
            &&& step == SpecStep::Reply(Reply::Done)
            &&& forgets(s, t, path, parent)
            &&& t.files == s.files
            &&& s.path(i) is Some && !(s.inodes.inos.contains_key(path) && s.inodes.inos[path] == i)
                ==> t.path(i) == s.path(i)
            &&& s.inodes.inos.contains_key(path) ==> t.path(s.inodes.inos[path]) is None
            &&& !t.inodes.inos.contains_key(path)
        }),
{
    lemma_forgets(s, s.next(Pending::RmDir { parent, path }, Event::Flag(true)).0, path, parent);
}

/// A move that the remote has made forgets what is cached under the old path, then under the
/// new one, each under its lock and with its cache file; other paths, directories and cache
/// files keep what is cached of them. Only then does the inode get the new path: every other
/// inode keeps its path.
pub proof fn law_rename_forgets_both_ends(
    s: FsState,
    parent: Text,
    before: Text,
    before_file: Text,
    new_parent: Text,
    after: Text,
    after_file: Text,
    other: Text,
    i: u64,
)
    requires
        s.wf(),
    ensures
        ({
            let at = |phase: RenamePhase|
                Pending::Rename {
                    parent,
                    before,
                    before_file,
                    new_parent,
                    after,
                    after_file,
                    phase,
                };
            let t = s.next(at(RenamePhase::SourceLocked), Event::Unit).0;
            let u = s.next(at(RenamePhase::TargetLocked), Event::Unit).0;
            let (v, step) = s.next(at(RenamePhase::TargetUnlocked), Event::Unit);
            &&& forgets(s, t, before, parent)
            &&& lookup(t.files, before_file) is None
            &&& other != before_file ==> lookup(t.files, other) == lookup(s.files, other)
            &&& t.inodes == s.inodes
            &&& forgets(s, u, after, new_parent)
            &&& lookup(u.files, after_file) is None
            &&& other != after_file ==> lookup(u.files, other) == lookup(s.files, other)
            &&& u.inodes == s.inodes
            &&& step == SpecStep::Reply(Reply::Done)
            &&& v == (FsState { inodes: v.inodes, ..s })
            &&& s.inodes.inos.contains_key(before) ==> v.path(s.inodes.inos[before]) == Some(after)
                && v.inodes.ino(after) == s.inodes.inos[before]
            &&& !s.inodes.inos.contains_key(before) ==> v.inodes == s.inodes
            &&& s.path(i) is Some && !(s.inodes.inos.contains_key(before) && s.inodes.inos[before]
                == i) ==> v.path(i) == s.path(i)
        }),
{
    lemma_without(s.files, before_file);
    lemma_without(s.files, after_file);
    lemma_forgets(s, s.file_popped(before_file).changed(before, parent), before, parent);
    lemma_forgets(s, s.file_popped(after_file).changed(after, new_parent), after, new_parent);
}

// ---------------------------------------------------------------------------
// Background tasks
// ---------------------------------------------------------------------------

/// A fetch that fails leaves everything that is cached as it was, and another may start: the
/// directory is not being fetched any more, and every other fetch goes on.
pub proof fn law_failed_fetch_changes_nothing(s: FsState, ino: u64, path: Text, other: Text)
    ensures
        ({
            let listed = Pending::FetchDir { ino, path, phase: FetchDirPhase::Listed };
            let (t, step) = s.next(listed, Event::Listing(None));
            &&& step == SpecStep::Reply(Reply::Finished)
            &&& t == (FsState { fetching: t.fetching, ..s })
            &&& !t.fetching.contains(path)
            &&& other != path ==> t.fetching.contains(other) == s.fetching.contains(other)
        }),
{
}

/// A download in the background is done once the file is in the disk cache, was refused, or
/// cannot be had; it starts by looking for the file under the lock of the path.
pub proof fn law_download_task_runs(
    s: FsState,
    path: Text,
    file: Text,
    c: CachePhase,
    e: SpecEvent,
)
    requires
        caching_done(c, e),
    ensures
        ({
            let at = |phase: FetchFilePhase| Pending::FetchFile { path, file, phase };
            &&& s.next(at(FetchFilePhase::Locked), Event::Unit) == (
                s,
                SpecStep::Perform(
                    Action::Exists { file },
                    at(FetchFilePhase::Caching(CachePhase::Present)),
                ),
            )
            &&& s.next(at(FetchFilePhase::Caching(c)), e) == (s, SpecStep::Reply(Reply::Finished))
        }),
{
}

/// A refresh of attributes passes over a path whose lock is held, and else asks the remote for
/// them. What the remote says is cached in any case; the file leaves the disk cache where it is
/// gone or both sizes are known and differ, and stays there else. Nothing else changes.
pub proof fn law_refresh_follows_remote(
    s: FsState,
    path: Text,
    file: Text,
    cached: Option<StatData>,
    remote: Option<StatData>,
    other: Text,
)
    requires
        s.wf(),
    ensures
        ({
            let at = |phase: RenewPhase| Pending::RenewAttr { path, file, cached, phase };
            let (t, step) = s.next(at(RenewPhase::Fetched), Event::Stat(remote));
            let stale = match (cached, remote) {
                (_, None) => true,
                (Some(a), Some(b)) => a.size != b.size,
                (None, Some(_)) => false,
            };
            &&& s.next(at(RenewPhase::Tried), Event::Flag(false)) == (
                s,
                SpecStep::Reply(Reply::Finished),
            )
            &&& s.next(at(RenewPhase::Tried), Event::Flag(true)) == (
                s,
                SpecStep::Perform(Action::Stat { path }, at(RenewPhase::Fetched)),
            )
            &&& t.attr(path) == Some(remote)
            &&& t == (FsState { attrs: t.attrs, files: t.files, ..s })
            &&& stale ==> step == SpecStep::Perform(
                Action::Remove { files: seq![file] },
                at(RenewPhase::Removed),
            ) && lookup(t.files, file) is None
            &&& !stale ==> step == SpecStep::Reply(Reply::Finished) && t.files == s.files
            &&& other != file ==> lookup(t.files, other) == lookup(s.files, other)
            &&& other != path && !(s.attrs.len() == s.attr_cap && s.attr(path) is None
                && s.attrs.last().0 == other) ==> t.attr(other) == s.attr(other)
            &&& s.next(at(RenewPhase::Removed), Event::Unit) == (
                s,
                SpecStep::Reply(Reply::Finished),
            )
        }),
{
    lemma_without(s.files, file);
    law_put_then_get(s.attrs, s.attr_cap, path, remote);
    if other != path {
        law_put_keeps_others(s.attrs, s.attr_cap, path, remote, other);
    }
}

/// A refresh of a listing that fails changes nothing, and neither does one that finds the names
/// that were cached, in whatever order; one that finds others caches them, sorted, and changes no
/// other listing, but for the one that was used longest ago, which may have to make room.
pub proof fn law_listing_refresh_is_confined(
    s: FsState,
    path: Text,
    cached: Seq<Text>,
    l: Listing,
    other: Text,
)
    requires
        s.wf(),
    ensures
        ({
            let p = Pending::RenewDir { path, cached };
            let (t, step) = s.next(p, Event::Listing(Some(l)));
            let found = l.map_values(|e: (Text, StatData)| e.0);
            &&& s.next(p, Event::Listing(None)) == (s, SpecStep::Reply(Reply::Finished))
            &&& step == SpecStep::Reply(Reply::Finished)
            &&& t == (FsState { dirs: t.dirs, ..s })
            &&& cached.to_multiset() == found.to_multiset() ==> t == s
            &&& cached.to_multiset() != found.to_multiset() ==> t.listing(path) == Some(
                sorted(found),
            )
            &&& other != path && !(s.dirs.len() == s.dir_cap && s.listing(path) is None
                && s.dirs.last().0 == other) ==> t.listing(other) == s.listing(other)
        }),
{
    let found = listed_names(l);
    law_sorted_listings_agree(cached, found);
    law_put_then_get(s.dirs, s.dir_cap, path, sorted(found));
    if other != path {
        law_put_keeps_others(s.dirs, s.dir_cap, path, sorted(found), other);
    }
}

// ---------------------------------------------------------------------------
// Capacity
// ---------------------------------------------------------------------------

/// The capacity of the remote is replied in whole blocks: they hold no more than the remote
/// has, and one block more would; what is free is free to all. Where the remote does not know
/// its capacity, it is 0.
pub proof fn law_capacity_is_in_blocks(s: FsState, capacity: Option<(u64, u64)>)
    ensures
        ({
            let (t, step) = s.next(Pending::StatFs, Event::Capacity(capacity));
            &&& t == s
            &&& step matches Step::Reply(Reply::StatFs(r)) && {
                &&& r.bsize == 4096 && r.frsize == 4096 && r.namelen == 255
                &&& r.files == 0 && r.ffree == 0
                &&& r.bavail == r.bfree
                &&& capacity is None ==> r.blocks == 0 && r.bfree == 0
                &&& capacity matches Some((total, free)) ==> {
                    &&& r.blocks * 4096 <= total < (r.blocks + 1) * 4096
                    &&& r.bfree * 4096 <= free < (r.bfree + 1) * 4096
                }
            }
        }),
{
}

// ---------------------------------------------------------------------------
// What can be counted
// ---------------------------------------------------------------------------

/// Every event can be counted in, but for two: a listing of more names than memory can hold, and
/// the size of a file that is to be recorded where the total of the disk cache would take more
/// than 64 bits.
pub proof fn law_events_that_count(s: FsState, p: SpecPending, e: SpecEvent)
    ensures
        ({
            let records = match p {
                Pending::SetAttr { file, phase, .. } => if phase == SetAttrPhase::Caching(
                    CachePhase::Sized,
                ) {
                    Some(file)
                } else {
                    None
                },
                Pending::Write { file, phase, .. } => if phase == WritePhase::Recorded || phase
                    == WritePhase::Caching(CachePhase::Sized) {
                    Some(file)
                } else {
                    None
                },
                Pending::FetchFile { file, phase, .. } => if phase == FetchFilePhase::Caching(
                    CachePhase::Sized,
                ) {
                    Some(file)
                } else {
                    None
                },
                _ => None,
            };
            let fits = match (records, e) {
                (Some(file), Event::Size(Some(n))) => total(renewed(s.files, file, n)) <= u64::MAX,
                _ => true,
            };
            let short = match e {
                Event::Listing(Some(l)) => l.len() <= MAX_LISTING,
                _ => true,
            };
            s.accepts(p, e) == (fits && short)
        }),
{
}

/// There is room for the names of a whole directory as long as that many inodes are left, and a
/// fresh mount has it.
pub proof fn law_room_for_inodes(s: FsState, root: Text)
    ensures
        s.roomy() <==> s.inodes.next + MAX_LISTING < u64::MAX,
        s.inodes == Inodes::fresh(root) ==> s.roomy(),
{
}

// ---------------------------------------------------------------------------
// Events that nothing brings
// ---------------------------------------------------------------------------

/// The event is of the kind that the action brings which the request waits for.
pub open spec fn answers(p: SpecPending, e: SpecEvent) -> bool {
    let cached = |c: CachePhase|
        match c {
            CachePhase::Present | CachePhase::Downloaded => e is Flag,
            CachePhase::Sized => e is Size,
            CachePhase::Evicted => e is Unit,
        };
    match p {
        Pending::Lookup { .. } => e is Stat,
        Pending::GetAttr { .. } => e is Stat,
        Pending::SetAttr { phase, .. } => match phase {
            SetAttrPhase::Locked | SetAttrPhase::Truncated | SetAttrPhase::Unlocked => e is Unit,
            SetAttrPhase::Caching(c) => cached(c),
            SetAttrPhase::Applied => e is Flag,
            SetAttrPhase::Fetched => e is Stat,
        },
        Pending::Read { phase, .. } => match phase {
            ReadPhase::Tried | ReadPhase::Present | ReadPhase::Asked => e is Flag,
            ReadPhase::Cached | ReadPhase::Remote => e is Data,
            ReadPhase::Unlocked | ReadPhase::Spawned => e is Unit,
        },
        Pending::Write { phase, .. } => match phase {
            WritePhase::Caching(c) => cached(c),
            WritePhase::Stored => e is Flag,
            WritePhase::Measured | WritePhase::Recorded => e is Size,
            _ => e is Unit,
        },
        Pending::ReadLink => e is Link,
        Pending::Create { phase, .. } => match phase {
            CreatePhase::Made => e is Flag,
            _ => e is Unit,
        },
        Pending::Unlink { phase, .. } => match phase {
            UnlinkPhase::Deleted => e is Flag,
            _ => e is Unit,
        },
        Pending::Rename { phase, .. } => match phase {
            RenamePhase::Moved => e is Flag,
            _ => e is Unit,
        },
        Pending::StatFs => e is Capacity,
        Pending::FetchDir { phase, .. } => match phase {
            FetchDirPhase::Listed => e is Listing,
            FetchDirPhase::Invalidated => e is Unit,
        },
        Pending::FetchFile { phase, .. } => match phase {
            FetchFilePhase::Locked => e is Unit,
            FetchFilePhase::Caching(c) => cached(c),
        },
        Pending::RenewAttr { phase, .. } => match phase {
            RenewPhase::Tried => e is Flag,
            RenewPhase::Fetched => e is Stat,
            RenewPhase::Removed => e is Unit,
        },
        Pending::RenewDir { .. } => e is Listing,
        _ => e is Flag,
    }
}

/// An event that the awaited action cannot bring ends the request and changes nothing that is
/// cached: a background task is finished, a link is answered with ENOTSUP, and any other
/// request with EIO.
pub proof fn law_wrong_event_ends_request(s: FsState, p: SpecPending, e: SpecEvent)
    requires
        !answers(p, e),
    ensures
        s.next(p, e).1 == SpecStep::Reply(
            match p {
                Pending::FetchDir { .. } => Reply::Finished,
                Pending::FetchFile { .. } => Reply::Finished,
                Pending::RenewAttr { .. } => Reply::Finished,
                Pending::RenewDir { .. } => Reply::Finished,
                Pending::Symlink { .. } => Reply::Error(Errno::ENOTSUP),
                _ => Reply::Error(Errno::EIO),
            },
        ),
        s.next(p, e).0 == (FsState { fetching: s.next(p, e).0.fetching, ..s }),
        !(p is FetchDir) ==> s.next(p, e).0 == s,
{
}

// ---------------------------------------------------------------------------
// Whole runs
// ---------------------------------------------------------------------------

/// What a request comes to by the events of its actions, one after the other.
pub open spec fn run(at: (FsState, SpecStep), events: Seq<SpecEvent>) -> (FsState, SpecStep)
    decreases events.len(),
{
    if events.len() == 0 {
        at
    } else {
        match at.1 {
            Step::Perform(_, p) => run(at.0.next(p, events[0]), events.drop_first()),
            _ => at,
        }
    }
}

/// One event after others.
proof fn lemma_run_next(at: (FsState, SpecStep), events: Seq<SpecEvent>, e: SpecEvent)
    ensures
        run(at, events.push(e)) == (match run(at, events).1 {
            Step::Perform(_, p) => run(at, events).0.next(p, e),
            _ => run(at, events),
        }),
    decreases events.len(),
{
    if events.len() == 0 {
        assert(events.push(e).drop_first() =~= events);
        assert(events.push(e)[0] == e);
        match at.1 {
            Step::Perform(_, p) => {
                assert(run(at.0.next(p, e), events) == at.0.next(p, e));
            },
            _ => {},
        }
    } else {
        match at.1 {
            Step::Perform(_, p) => {
                assert(events.push(e).drop_first() =~= events.drop_first().push(e));
                lemma_run_next(at.0.next(p, events[0]), events.drop_first(), e);
            },
            _ => {},
        }
    }
}

/// Moving an entry from one directory to another, or to another name: once the remote has moved
/// it and both ends are forgotten, the reply is success, the inode that the entry had has the
/// path of the new name in the new directory, and nothing that was cached of either end or of
/// either directory is left.
pub proof fn law_moved_entry_has_new_path(
    s: FsState,
    parent: u64,
    dir: Text,
    name: Text,
    new_parent: u64,
    new_dir: Text,
    new_name: Text,
)
    requires
        s.wf(),
        s.path(parent) == Some(dir),
        s.path(new_parent) == Some(new_dir),
        s.inodes.inos.contains_key(child_of(dir, name)),
    ensures
        ({
            let done = seq![
                SpecEvent::Flag(true),
                SpecEvent::Unit,
                SpecEvent::Unit,
                SpecEvent::Unit,
                SpecEvent::Unit,
                SpecEvent::Unit,
                SpecEvent::Unit,
            ];
            let (t, step) = run(s.rename(parent, Some(name), new_parent, Some(new_name)), done);
            let before = child_of(dir, name);
            let after = child_of(new_dir, new_name);
            &&& step == SpecStep::Reply(Reply::Done)
            &&& t.path(s.inodes.inos[before]) == Some(after)
            &&& t.attr(before) is None && t.attr(after) is None
            &&& t.listing(dir) is None && t.listing(new_dir) is None
            &&& lookup(t.files, s.file(before)) is None && lookup(t.files, s.file(after)) is None
        }),
{
    let before = child_of(dir, name);
    let after = child_of(new_dir, new_name);
    let r0 = s.rename(parent, Some(name), new_parent, Some(new_name));
    let e0 = Seq::<SpecEvent>::empty();
    let e1 = e0.push(SpecEvent::Flag(true));
    let e2 = e1.push(SpecEvent::Unit);
    let e3 = e2.push(SpecEvent::Unit);
    let e4 = e3.push(SpecEvent::Unit);
    let e5 = e4.push(SpecEvent::Unit);
    let e6 = e5.push(SpecEvent::Unit);
    let e7 = e6.push(SpecEvent::Unit);
    lemma_run_next(r0, e0, SpecEvent::Flag(true));
    lemma_run_next(r0, e1, SpecEvent::Unit);
    lemma_run_next(r0, e2, SpecEvent::Unit);
    lemma_run_next(r0, e3, SpecEvent::Unit);
    lemma_run_next(r0, e4, SpecEvent::Unit);
    lemma_run_next(r0, e5, SpecEvent::Unit);
    lemma_run_next(r0, e6, SpecEvent::Unit);
    assert(e7 =~= seq![
        SpecEvent::Flag(true),
        SpecEvent::Unit,
        SpecEvent::Unit,
        SpecEvent::Unit,
        SpecEvent::Unit,
        SpecEvent::Unit,
        SpecEvent::Unit,
    ]);
    law_rename_moves(
        s,
        dir,
        before,
        s.file(before),
        new_dir,
        after,
        s.file(after),
    );
    law_rename_completes(
        s,
        dir,
        before,
        s.file(before),
        new_dir,
        after,
        s.file(after),
    );
}

/// A file that is not in the disk cache is downloaded before it is written or cut: after the
/// download, which may be refused, the bytes of a write go to its offset in the cache file, and a
/// change of size cuts the cache file to that size.
pub proof fn law_download_comes_before_change(
    s: FsState,
    ino: u64,
    path: Text,
    offset: u64,
    data: Bytes,
    change: AttrChange,
    size: u64,
    n: Option<u64>,
)
    requires
        s.path(ino) == Some(path),
        change.size == Some(size),
    ensures
        ({
            let fetched = seq![
                SpecEvent::Unit,
                SpecEvent::Flag(false),
                SpecEvent::Flag(true),
                SpecEvent::Size(n),
                SpecEvent::Unit,
            ];
            let refused = seq![SpecEvent::Unit, SpecEvent::Flag(false), SpecEvent::Flag(false)];
            let written: SpecAction = Action::WriteFile { file: s.file(path), offset, data };
            let cut: SpecAction = Action::Truncate { file: s.file(path), size };
            let asks = |at: (FsState, SpecStep), a: SpecAction| at.1 matches Step::Perform(b, _)
                && a == b;
            &&& asks(run(s.write(ino, offset, data), fetched), written)
            &&& asks(run(s.write(ino, offset, data), refused), written)
            &&& asks(run(s.setattr(ino, change), fetched), cut)
            &&& asks(run(s.setattr(ino, change), refused), cut)
        }),
{
    let w = s.write(ino, offset, data);
    let c = s.setattr(ino, change);
    let e0 = Seq::<SpecEvent>::empty();
    let e1 = e0.push(SpecEvent::Unit);
    let e2 = e1.push(SpecEvent::Flag(false));
    let e3 = e2.push(SpecEvent::Flag(true));
    let e4 = e3.push(SpecEvent::Size(n));
    let e5 = e4.push(SpecEvent::Unit);
    let r3 = e2.push(SpecEvent::Flag(false));
    lemma_run_next(w, e0, SpecEvent::Unit);
    lemma_run_next(w, e1, SpecEvent::Flag(false));
    lemma_run_next(w, e2, SpecEvent::Flag(true));
    lemma_run_next(w, e3, SpecEvent::Size(n));
    lemma_run_next(w, e4, SpecEvent::Unit);
    lemma_run_next(w, e2, SpecEvent::Flag(false));
    lemma_run_next(c, e0, SpecEvent::Unit);
    lemma_run_next(c, e1, SpecEvent::Flag(false));
    lemma_run_next(c, e2, SpecEvent::Flag(true));
    lemma_run_next(c, e3, SpecEvent::Size(n));
    lemma_run_next(c, e4, SpecEvent::Unit);
    lemma_run_next(c, e2, SpecEvent::Flag(false));
    assert(e5 =~= seq![
        SpecEvent::Unit,
        SpecEvent::Flag(false),
        SpecEvent::Flag(true),
        SpecEvent::Size(n),
        SpecEvent::Unit,
    ]);
    assert(r3 =~= seq![SpecEvent::Unit, SpecEvent::Flag(false), SpecEvent::Flag(false)]);
}

} // verus!
