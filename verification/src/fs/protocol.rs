//! What the filesystem and the world around it say to each other.
//!
//! The filesystem answers every kernel request with a [`Step`]: a reply, or one [`Action`] to
//! perform together with a [`Pending`] request to resume with the [`Event`] that came of it.
//! The types are generic in how they hold text, bytes and lists, so that contracts speak of
//! the same shapes over sequences.

use vstd::prelude::*;

use crate::backend::AttrChange;
use crate::stat::{FileAttr, FileType, StatData};
use crate::text::{opt_string, views};

verus! {

// ---------------------------------------------------------------------------
// Replies
// ---------------------------------------------------------------------------

/// The errors that the filesystem replies.
#[derive(Clone, Copy, Debug, PartialEq, Eq, Structural)]
pub enum Errno {
    ENOENT,
    EIO,
    EINVAL,
    ENOTSUP,
    ENODATA,
    ENOATTR,
}

/// One entry of a directory reply: `offset` is where the entry after it starts.
pub struct DirEntry<S> {
    pub ino: u64,
    pub offset: u64,
    pub kind: FileType,
    pub name: S,
}

/// Filesystem totals.
#[derive(Clone, Copy, Debug, PartialEq, Eq, Structural)]
pub struct StatFs {
    pub blocks: u64,
    pub bfree: u64,
    pub bavail: u64,
    pub files: u64,
    pub ffree: u64,
    pub bsize: u32,
    pub namelen: u32,
    pub frsize: u32,
}

/// What ends a request.
pub enum Reply<S, B, E> {
    Error(Errno),
    Done,
    Entry(FileAttr),
    Attr(FileAttr),
    Created(FileAttr),
    Data(B),
    Link(S),
    Written(u32),
    Directory(E),
    StatFs(StatFs),
    /// A background task is done; nobody waits for it.
    Finished,
}

// ---------------------------------------------------------------------------
// Actions and events
// ---------------------------------------------------------------------------

/// Work for the background pool.
pub enum Task<S, B> {
    /// Fetch a directory listing into the caches.
    FetchDir { ino: u64, path: S },
    /// Download a file into the disk cache.
    FetchFile { path: S },
    /// Persist a write to the remote: the changed chunk, and the whole file in the cache.
    AsyncWrite { path: S, offset: u64, data: B, file: S },
}

/// One thing to do outside the filesystem's own state.
#[allow(inconsistent_fields)]
pub enum Action<S, B, N> {
    /// Ask the backend for the attributes of a path. Event: `Stat`.
    Stat { path: S },
    /// Have the backend change attributes. Event: `Flag`.
    SetStat { path: S, change: AttrChange },
    /// Ask the backend for the target of a link. Event: `Link`.
    ReadLink { path: S },
    /// Have the backend create a file. Event: `Flag`.
    CreateFile { path: S, mode: u32 },
    /// Have the backend create a directory. Event: `Flag`.
    CreateDir { path: S, mode: u32 },
    /// Have the backend delete a file. Event: `Flag`.
    DeleteFile { path: S },
    /// Have the backend delete a directory. Event: `Flag`.
    DeleteDir { path: S },
    /// Have the backend move a file. Event: `Flag`.
    Rename { before: S, after: S },
    /// Have the backend make a symbolic link. Event: `Flag`.
    Symlink { target: S, link: S },
    /// Read a slice of a remote file. Event: `Data`.
    ReadAt { path: S, offset: u64, size: u32 },
    /// List a remote directory. Event: `Listing`.
    ReadDir { path: S },
    /// Ask the backend for its capacity. Event: `Capacity`.
    StatFs,
    /// Download a whole remote file to a local one, unless it is too large. Event: `Flag`.
    Download { path: S, file: S, max_bytes: u64 },
    /// Wait for the lock of a path. Event: `Unit`.
    Lock { path: S },
    /// Take the lock of a path if it is free. Event: `Flag`.
    TryLock { path: S },
    /// Release the lock that is held. Event: `Unit`.
    Unlock,
    /// Ask whether the lock of a path is held. Event: `Flag`.
    IsLocked { path: S },
    /// Ask whether a local file exists. Event: `Flag`.
    Exists { file: S },
    /// Measure a local file. Event: `Size`.
    Size { file: S },
    /// Cut or extend a local file. Event: `Unit`.
    Truncate { file: S, size: u64 },
    /// Read a slice of a local file. Event: `Data`.
    ReadFile { file: S, offset: u64, size: u32 },
    /// Write to a local file, which is made where there is none. Event: `Flag`.
    WriteFile { file: S, offset: u64, data: B },
    /// Make a local file, or empty it. Event: `Unit`.
    CreateEmpty { file: S },
    /// Delete local files. Event: `Unit`.
    Remove { files: N },
    /// Hand a task to the background pool. Event: `Unit`.
    Spawn(Task<S, B>),
    /// Tell the kernel that what it knows of an inode is stale. Event: `Unit`.
    Invalidate { ino: u64 },
}

/// What came of an action.
pub enum Event<S, B, L> {
    /// It was done; there is nothing more to say.
    Unit,
    /// Yes or no; success or failure.
    Flag(bool),
    /// The attributes of a path; none where it is absent.
    Stat(Option<StatData>),
    /// The size of a local file; none where it cannot be read.
    Size(Option<u64>),
    /// Bytes; none on failure.
    Data(Option<B>),
    /// The target of a link; none on failure.
    Link(Option<S>),
    /// Names and attributes; none on failure.
    Listing(Option<L>),
    /// Total and free bytes, where the backend knows them.
    Capacity(Option<(u64, u64)>),
}

// ---------------------------------------------------------------------------
// Requests under way
// ---------------------------------------------------------------------------

/// How far a request is with getting a file into the disk cache.
#[derive(Clone, Copy, Debug, PartialEq, Eq, Structural)]
pub enum CachePhase {
    /// Asked whether the cache file exists.
    Present,
    /// Asked for the download.
    Downloaded,
    /// Asked for the size of the downloaded file.
    Sized,
    /// Deleted what had to make room.
    Evicted,
}

#[derive(Clone, Copy, Debug, PartialEq, Eq, Structural)]
pub enum SetAttrPhase {
    Locked,
    Caching(CachePhase),
    Truncated,
    Unlocked,
    Applied,
    Fetched,
}

#[derive(Clone, Copy, Debug, PartialEq, Eq, Structural)]
pub enum ReadPhase {
    Tried,
    Present,
    Cached,
    Unlocked,
    Asked,
    Spawned,
    Remote,
}

#[derive(Clone, Copy, Debug, PartialEq, Eq, Structural)]
pub enum WritePhase {
    Locked,
    Caching(CachePhase),
    Stored,
    Measured,
    Unlocked,
    Spawned,
    Recorded,
    Trimmed,
}

#[derive(Clone, Copy, Debug, PartialEq, Eq, Structural)]
pub enum CreatePhase {
    Locked,
    Emptied,
    Made,
}

#[derive(Clone, Copy, Debug, PartialEq, Eq, Structural)]
pub enum UnlinkPhase {
    Deleted,
    Locked,
    Removed,
}

#[derive(Clone, Copy, Debug, PartialEq, Eq, Structural)]
pub enum RenamePhase {
    Moved,
    SourceLocked,
    SourceRemoved,
    SourceUnlocked,
    TargetLocked,
    TargetRemoved,
    TargetUnlocked,
}

#[derive(Clone, Copy, Debug, PartialEq, Eq, Structural)]
pub enum FetchDirPhase {
    Listed,
    Invalidated,
}

#[derive(Clone, Copy, Debug, PartialEq, Eq, Structural)]
pub enum FetchFilePhase {
    Locked,
    Caching(CachePhase),
}

#[derive(Clone, Copy, Debug, PartialEq, Eq, Structural)]
pub enum RenewPhase {
    Tried,
    Fetched,
    Removed,
}

/// A request that waits for the event of the action that was asked for last.
#[allow(inconsistent_fields)]
pub enum Pending<S, B, N> {
    Lookup { path: S },
    GetAttr { ino: u64, path: S },
    SetAttr { ino: u64, path: S, file: S, change: AttrChange, phase: SetAttrPhase },
    Read { path: S, file: S, offset: u64, size: u32, phase: ReadPhase },
    Write { path: S, file: S, offset: u64, data: B, phase: WritePhase },
    ReadLink,
    Create {
        parent: S,
        path: S,
        file: S,
        mode: u32,
        uid: u32,
        gid: u32,
        phase: CreatePhase,
    },
    MkDir { parent: S, path: S, mode: u32, uid: u32, gid: u32 },
    Unlink { parent: S, path: S, file: S, phase: UnlinkPhase },
    RmDir { parent: S, path: S },
    Rename {
        parent: S,
        before: S,
        before_file: S,
        new_parent: S,
        after: S,
        after_file: S,
        phase: RenamePhase,
    },
    Symlink { parent: S, path: S, target: S, uid: u32, gid: u32 },
    StatFs,
    FetchDir { ino: u64, path: S, phase: FetchDirPhase },
    FetchFile { path: S, file: S, phase: FetchFilePhase },
    RenewAttr { path: S, file: S, cached: Option<StatData>, phase: RenewPhase },
    RenewDir { path: S, cached: N },
}

/// What a request comes to next.
pub enum Step<S, B, N, E> {
    /// Perform the action, and resume the pending request with its event.
    Perform(Action<S, B, N>, Pending<S, B, N>),
    /// Reply; a lock that is held is released.
    Reply(Reply<S, B, E>),
    /// Reply, and hand a task to the background pool.
    ReplyAndSpawn(Reply<S, B, E>, Task<S, B>),
}

// ---------------------------------------------------------------------------
// Views
// ---------------------------------------------------------------------------

pub type Text = Seq<char>;

pub type Bytes = Seq<u8>;

pub type Names = Seq<Seq<char>>;

pub type Entries = Seq<DirEntry<Seq<char>>>;

pub type Listing = Seq<(Seq<char>, StatData)>;

pub type FsReply = Reply<String, Vec<u8>, Vec<DirEntry<String>>>;

pub type FsTask = Task<String, Vec<u8>>;

pub type FsAction = Action<String, Vec<u8>, Vec<String>>;

pub type FsEvent = Event<String, Vec<u8>, Vec<(String, StatData)>>;

pub type FsPending = Pending<String, Vec<u8>, Vec<String>>;

pub type FsStep = Step<String, Vec<u8>, Vec<String>, Vec<DirEntry<String>>>;

/// The view of a listing.
pub open spec fn listing(v: Seq<(String, StatData)>) -> Listing {
    v.map_values(|e: (String, StatData)| (e.0@, e.1))
}

/// The view of directory entries.
pub open spec fn entries(v: Seq<DirEntry<String>>) -> Entries {
    v.map_values(
        |e: DirEntry<String>|
            DirEntry { ino: e.ino, offset: e.offset, kind: e.kind, name: e.name@ },
    )
}

impl View for Reply<String, Vec<u8>, Vec<DirEntry<String>>> {
    type V = Reply<Text, Bytes, Entries>;

    open spec fn view(&self) -> Reply<Text, Bytes, Entries> {
        match *self {
            Reply::Error(e) => Reply::Error(e),
            Reply::Done => Reply::Done,
            Reply::Entry(a) => Reply::Entry(a),
            Reply::Attr(a) => Reply::Attr(a),
            Reply::Created(a) => Reply::Created(a),
            Reply::Data(d) => Reply::Data(d@),
            Reply::Link(s) => Reply::Link(s@),
            Reply::Written(n) => Reply::Written(n),
            Reply::Directory(e) => Reply::Directory(entries(e@)),
            Reply::StatFs(s) => Reply::StatFs(s),
            Reply::Finished => Reply::Finished,
        }
    }
}

impl View for Task<String, Vec<u8>> {
    type V = Task<Text, Bytes>;

    open spec fn view(&self) -> Task<Text, Bytes> {
        match *self {
            Task::FetchDir { ino, path } => Task::FetchDir { ino, path: path@ },
            Task::FetchFile { path } => Task::FetchFile { path: path@ },
            Task::AsyncWrite { path, offset, data, file } => Task::AsyncWrite {
                path: path@,
                offset,
                data: data@,
                file: file@,
            },
        }
    }
}

impl View for Action<String, Vec<u8>, Vec<String>> {
    type V = Action<Text, Bytes, Names>;

    open spec fn view(&self) -> Action<Text, Bytes, Names> {
        match *self {
            Action::Stat { path } => Action::Stat { path: path@ },
            Action::SetStat { path, change } => Action::SetStat { path: path@, change },
            Action::ReadLink { path } => Action::ReadLink { path: path@ },
            Action::CreateFile { path, mode } => Action::CreateFile { path: path@, mode },
            Action::CreateDir { path, mode } => Action::CreateDir { path: path@, mode },
            Action::DeleteFile { path } => Action::DeleteFile { path: path@ },
            Action::DeleteDir { path } => Action::DeleteDir { path: path@ },
            Action::Rename { before, after } => Action::Rename { before: before@, after: after@ },
            Action::Symlink { target, link } => Action::Symlink { target: target@, link: link@ },
            Action::ReadAt { path, offset, size } => Action::ReadAt { path: path@, offset, size },
            Action::ReadDir { path } => Action::ReadDir { path: path@ },
            Action::StatFs => Action::StatFs,
            Action::Download { path, file, max_bytes } => Action::Download {
                path: path@,
                file: file@,
                max_bytes,
            },
            Action::Lock { path } => Action::Lock { path: path@ },
            Action::TryLock { path } => Action::TryLock { path: path@ },
            Action::Unlock => Action::Unlock,
            Action::IsLocked { path } => Action::IsLocked { path: path@ },
            Action::Exists { file } => Action::Exists { file: file@ },
            Action::Size { file } => Action::Size { file: file@ },
            Action::Truncate { file, size } => Action::Truncate { file: file@, size },
            Action::ReadFile { file, offset, size } => Action::ReadFile {
                file: file@,
                offset,
                size,
            },
            Action::WriteFile { file, offset, data } => Action::WriteFile {
                file: file@,
                offset,
                data: data@,
            },
            Action::CreateEmpty { file } => Action::CreateEmpty { file: file@ },
            Action::Remove { files } => Action::Remove { files: views(files@) },
            Action::Spawn(t) => Action::Spawn(t@),
            Action::Invalidate { ino } => Action::Invalidate { ino },
        }
    }
}

impl View for Event<String, Vec<u8>, Vec<(String, StatData)>> {
    type V = Event<Text, Bytes, Listing>;

    open spec fn view(&self) -> Event<Text, Bytes, Listing> {
        match *self {
            Event::Unit => Event::Unit,
            Event::Flag(b) => Event::Flag(b),
            Event::Stat(s) => Event::Stat(s),
            Event::Size(n) => Event::Size(n),
            Event::Data(Some(d)) => Event::Data(Some(d@)),
            Event::Data(None) => Event::Data(None),
            Event::Link(o) => Event::Link(opt_string(o)),
            Event::Listing(Some(l)) => Event::Listing(Some(listing(l@))),
            Event::Listing(None) => Event::Listing(None),
            Event::Capacity(c) => Event::Capacity(c),
        }
    }
}

impl View for Pending<String, Vec<u8>, Vec<String>> {
    type V = Pending<Text, Bytes, Names>;

    open spec fn view(&self) -> Pending<Text, Bytes, Names> {
        match *self {
            Pending::Lookup { path } => Pending::Lookup { path: path@ },
            Pending::GetAttr { ino, path } => Pending::GetAttr { ino, path: path@ },
            Pending::SetAttr { ino, path, file, change, phase } => Pending::SetAttr {
                ino,
                path: path@,
                file: file@,
                change,
                phase,
            },
            Pending::Read { path, file, offset, size, phase } => Pending::Read {
                path: path@,
                file: file@,
                offset,
                size,
                phase,
            },
            Pending::Write { path, file, offset, data, phase } => Pending::Write {
                path: path@,
                file: file@,
                offset,
                data: data@,
                phase,
            },
            Pending::ReadLink => Pending::ReadLink,
            Pending::Create { parent, path, file, mode, uid, gid, phase } => Pending::Create {
                parent: parent@,
                path: path@,
                file: file@,
                mode,
                uid,
                gid,
                phase,
            },
            Pending::MkDir { parent, path, mode, uid, gid } => Pending::MkDir {
                parent: parent@,
                path: path@,
                mode,
                uid,
                gid,
            },
            Pending::Unlink { parent, path, file, phase } => Pending::Unlink {
                parent: parent@,
                path: path@,
                file: file@,
                phase,
            },
            Pending::RmDir { parent, path } => Pending::RmDir { parent: parent@, path: path@ },
            Pending::Rename {
                parent,
                before,
                before_file,
                new_parent,
                after,
                after_file,
                phase,
            } => Pending::Rename {
                parent: parent@,
                before: before@,
                before_file: before_file@,
                new_parent: new_parent@,
                after: after@,
                after_file: after_file@,
                phase,
            },
            Pending::Symlink { parent, path, target, uid, gid } => Pending::Symlink {
                parent: parent@,
                path: path@,
                target: target@,
                uid,
                gid,
            },
            Pending::StatFs => Pending::StatFs,
            Pending::FetchDir { ino, path, phase } => Pending::FetchDir { ino, path: path@, phase },
            Pending::FetchFile { path, file, phase } => Pending::FetchFile {
                path: path@,
                file: file@,
                phase,
            },
            Pending::RenewAttr { path, file, cached, phase } => Pending::RenewAttr {
                path: path@,
                file: file@,
                cached,
                phase,
            },
            Pending::RenewDir { path, cached } => Pending::RenewDir {
                path: path@,
                cached: views(cached@),
            },
        }
    }
}

impl View for Step<String, Vec<u8>, Vec<String>, Vec<DirEntry<String>>> {
    type V = Step<Text, Bytes, Names, Entries>;

    open spec fn view(&self) -> Step<Text, Bytes, Names, Entries> {
        match *self {
            Step::Perform(a, p) => Step::Perform(a@, p@),
            Step::Reply(r) => Step::Reply(r@),
            Step::ReplyAndSpawn(r, t) => Step::ReplyAndSpawn(r@, t@),
        }
    }
}

} // verus!
