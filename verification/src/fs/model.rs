//! What every request does, as functions of the filesystem's state.
//!
//! A request starts with a step; each event of the action that the step asks for leads to the
//! next. A state and an event together fix the next state and the next step.

use vstd::prelude::*;

use crate::assoc::{distinct, lookup, without};
use crate::backend::AttrChange;
use crate::cache::fs::{cachefile_of, excess, names, renewed, total};
use crate::cache::meta::{stored, used};
use crate::fs::protocol::{Action, Bytes, CachePhase, CreatePhase, DirEntry, Entries, Errno, Event};
use crate::fs::protocol::{FetchDirPhase, FetchFilePhase, Listing, Names, Pending, ReadPhase};
use crate::fs::protocol::{RenamePhase, RenewPhase, Reply, SetAttrPhase, StatFs, Step, Task, Text};
use crate::fs::protocol::{UnlinkPhase, WritePhase};
use crate::inode::Inodes;
use crate::path::{child_of, parent_of};
use crate::shared::{countable, MAX_LISTING};
use crate::sorting::sorted;
use crate::stat::{file_attr, new_attr, FileType, StatData, PERMISSION_BITS, TYPE_BITS};

verus! {

pub type SpecAction = Action<Text, Bytes, Names>;

pub type SpecEvent = Event<Text, Bytes, Listing>;

pub type SpecPending = Pending<Text, Bytes, Names>;

pub type SpecStep = Step<Text, Bytes, Names, Entries>;

/// The filesystem's state.
#[verifier::ext_equal]
pub struct FsState {
    pub inodes: Inodes,
    /// Cached attributes, most recently used first.
    pub attrs: Seq<(Text, Option<StatData>)>,
    pub attr_cap: nat,
    /// Cached listings, most recently used first.
    pub dirs: Seq<(Text, Names)>,
    pub dir_cap: nat,
    /// The files in the disk cache and their sizes, least recently used first.
    pub files: Seq<(Text, u64)>,
    /// The directory of the disk cache.
    pub cache_dir: Text,
    /// The most bytes that the disk cache holds.
    pub limit: u64,
    /// The directories that are being fetched.
    pub fetching: Set<Text>,
}

// ---------------------------------------------------------------------------
// Names and kinds
// ---------------------------------------------------------------------------

/// The name of a directory in itself.
pub open spec fn dot() -> Text {
    seq!['.']
}

/// The name of the parent directory.
pub open spec fn dotdot() -> Text {
    seq!['.', '.']
}

/// The kind of an entry in a listing, as far as its cached attributes tell.
pub open spec fn listed_kind(cached: Option<Option<StatData>>) -> FileType {
    match cached {
        Some(Some(st)) => if st.perm & TYPE_BITS == 0o040000 {
            FileType::Directory
        } else if st.perm & TYPE_BITS == 0o120000 {
            FileType::Symlink
        } else {
            FileType::RegularFile
        },
        _ => FileType::RegularFile,
    }
}

/// The entries from `offset` on; each says where the next one starts.
pub open spec fn entries_from(all: Seq<(u64, FileType, Text)>, offset: u64) -> Entries {
    if offset >= all.len() {
        Seq::empty()
    } else {
        Seq::new(
            (all.len() - offset) as nat,
            |i: int|
                DirEntry {
                    ino: all[offset + i].0,
                    offset: (offset + i + 1) as u64,
                    kind: all[offset + i].1,
                    name: all[offset + i].2,
                },
        )
    }
}

/// The names in a listing.
pub open spec fn listed_names(l: Listing) -> Names {
    l.map_values(|e: (Text, StatData)| e.0)
}

/// How many bytes a text takes.
pub open spec fn text_bytes(s: Text) -> int {
    vstd::utf8::encode_utf8(s).len() as int
}

// ---------------------------------------------------------------------------
// Changes of state
// ---------------------------------------------------------------------------

impl FsState {
    /// What holds of every state.
    pub open spec fn wf(self) -> bool {
        &&& self.inodes.wf()
        &&& distinct(self.attrs)
        &&& self.attrs.len() <= self.attr_cap
        &&& self.attr_cap > 0
        &&& distinct(self.dirs)
        &&& self.dirs.len() <= self.dir_cap
        &&& self.dir_cap > 0
        &&& countable(self.dirs)
        &&& distinct(self.files)
        &&& total(self.files) <= u64::MAX
    }

    /// There are inodes for the names of a whole directory.
    pub open spec fn roomy(self) -> bool {
        self.inodes.next < u64::MAX - MAX_LISTING
    }

    /// The path of an inode.
    pub open spec fn path(self, ino: u64) -> Option<Text> {
        self.inodes.path(ino)
    }

    /// What is cached of the attributes of a path; `Some(None)` says that it is absent.
    pub open spec fn attr(self, path: Text) -> Option<Option<StatData>> {
        lookup(self.attrs, path)
    }

    pub open spec fn attr_used(self, path: Text) -> FsState {
        FsState { attrs: used(self.attrs, path), ..self }
    }

    pub open spec fn attr_put(self, path: Text, v: Option<StatData>) -> FsState {
        FsState { attrs: stored(self.attrs, self.attr_cap, path, v), ..self }
    }

    pub open spec fn attr_removed(self, path: Text) -> FsState {
        FsState { attrs: without(self.attrs, path), ..self }
    }

    /// What is cached of the names in a directory.
    pub open spec fn listing(self, path: Text) -> Option<Names> {
        lookup(self.dirs, path)
    }

    pub open spec fn dir_used(self, path: Text) -> FsState {
        FsState { dirs: used(self.dirs, path), ..self }
    }

    pub open spec fn dir_put(self, path: Text, v: Names) -> FsState {
        FsState { dirs: stored(self.dirs, self.dir_cap, path, v), ..self }
    }

    pub open spec fn dir_removed(self, path: Text) -> FsState {
        FsState { dirs: without(self.dirs, path), ..self }
    }

    /// The cache file of a path.
    pub open spec fn file(self, path: Text) -> Text {
        cachefile_of(self.cache_dir, path)
    }

    pub open spec fn file_renewed(self, file: Text) -> FsState {
        match lookup(self.files, file) {
            Some(size) => FsState { files: renewed(self.files, file, size), ..self },
            None => self,
        }
    }

    /// The state once a cache file of a size is tracked, and what has to make room is not.
    pub open spec fn file_put(self, file: Text, size: Option<u64>) -> FsState {
        match size {
            Some(n) => {
                let t = renewed(self.files, file, n);
                FsState { files: t.skip(excess(t, self.limit)), ..self }
            },
            None => self,
        }
    }

    /// The cache files that have to make room for one of a size.
    pub open spec fn evicted(self, file: Text, size: Option<u64>) -> Names {
        match size {
            Some(n) => {
                let t = renewed(self.files, file, n);
                names(t.take(excess(t, self.limit)))
            },
            None => Seq::empty(),
        }
    }

    /// The total of the disk cache can be counted once a file of a size is in it.
    pub open spec fn fits(self, file: Text, size: Option<u64>) -> bool {
        size matches Some(n) ==> total(renewed(self.files, file, n)) <= u64::MAX
    }

    pub open spec fn file_popped(self, file: Text) -> FsState {
        FsState { files: without(self.files, file), ..self }
    }

    pub open spec fn with_ino(self, path: Text) -> FsState {
        FsState { inodes: self.inodes.with(path), ..self }
    }

    pub open spec fn without_ino(self, path: Text) -> FsState {
        FsState { inodes: self.inodes.removed(path), ..self }
    }

    pub open spec fn moved_ino(self, before: Text, after: Text) -> FsState {
        FsState { inodes: self.inodes.renamed(before, after), ..self }
    }

    /// The path is known to be new, changed or gone: what is cached of it and of its
    /// directory is dropped.
    pub open spec fn changed(self, path: Text, parent: Text) -> FsState {
        self.attr_removed(path).dir_removed(parent)
    }

    // -----------------------------------------------------------------------
    // Steps
    // -----------------------------------------------------------------------

    pub open spec fn replies(self, r: Reply<Text, Bytes, Entries>) -> (FsState, SpecStep) {
        (self, Step::Reply(r))
    }

    pub open spec fn fails(self, e: Errno) -> (FsState, SpecStep) {
        (self, Step::Reply(Reply::Error(e)))
    }

    pub open spec fn asks(self, a: SpecAction, p: SpecPending) -> (FsState, SpecStep) {
        (self, Step::Perform(a, p))
    }

    // -----------------------------------------------------------------------
    // lookup and getattr
    // -----------------------------------------------------------------------

    /// A directory entry for a path with these attributes; none is an absent path.
    pub open spec fn entry(self, path: Text, st: Option<StatData>) -> (FsState, SpecStep) {
        match st {
            Some(d) => self.with_ino(path).replies(
                Reply::Entry(file_attr(self.inodes.ino(path), d)),
            ),
            None => self.fails(Errno::ENOENT),
        }
    }

    /// The attributes of an inode; none is an absent path.
    pub open spec fn attributes(self, ino: u64, st: Option<StatData>) -> (FsState, SpecStep) {
        match st {
            Some(d) => self.replies(Reply::Attr(file_attr(ino, d))),
            None => self.fails(Errno::ENOENT),
        }
    }

    pub open spec fn lookup(self, parent: u64, name: Option<Text>) -> (FsState, SpecStep) {
        match (self.path(parent), name) {
            (Some(p), Some(n)) => {
                let path = child_of(p, n);
                match self.attr(path) {
                    Some(st) => self.attr_used(path).entry(path, st),
                    None => self.asks(Action::Stat { path }, Pending::Lookup { path }),
                }
            },
            _ => self.fails(Errno::ENOENT),
        }
    }

    pub open spec fn lookup_next(self, path: Text, e: SpecEvent) -> (FsState, SpecStep) {
        match e {
            Event::Stat(st) => self.attr_put(path, st).entry(path, st),
            _ => self.fails(Errno::EIO),
        }
    }

    pub open spec fn getattr(self, ino: u64) -> (FsState, SpecStep) {
        match self.path(ino) {
            Some(path) => match self.attr(path) {
                Some(st) => self.attr_used(path).attributes(ino, st),
                None => self.asks(Action::Stat { path }, Pending::GetAttr { ino, path }),
            },
            None => self.fails(Errno::ENOENT),
        }
    }

    pub open spec fn getattr_next(self, ino: u64, path: Text, e: SpecEvent) -> (FsState, SpecStep) {
        match e {
            Event::Stat(st) => self.attr_put(path, st).attributes(ino, st),
            _ => self.fails(Errno::EIO),
        }
    }

    // -----------------------------------------------------------------------
    // Getting a file into the disk cache
    // -----------------------------------------------------------------------

    /// The next action of getting `path` into its cache file; none once there is nothing
    /// left to do. A wrong event is `Err`.
    pub open spec fn cache_next(
        self,
        path: Text,
        file: Text,
        phase: CachePhase,
        e: SpecEvent,
    ) -> (FsState, Result<Option<(SpecAction, CachePhase)>, ()>) {
        match (phase, e) {
            (CachePhase::Present, Event::Flag(true)) => (self, Ok(None)),
            (CachePhase::Present, Event::Flag(false)) => (
                self,
                Ok(
                    Some(
                        (
                            Action::Download { path, file, max_bytes: self.limit },
                            CachePhase::Downloaded,
                        ),
                    ),
                ),
            ),
            (CachePhase::Downloaded, Event::Flag(true)) => (
                self,
                Ok(Some((Action::Size { file }, CachePhase::Sized))),
            ),
            (CachePhase::Downloaded, Event::Flag(false)) => (self, Ok(None)),
            (CachePhase::Sized, Event::Size(size)) => (
                self.file_put(file, size),
                Ok(
                    Some(
                        (
                            Action::Remove { files: self.evicted(file, size) },
                            CachePhase::Evicted,
                        ),
                    ),
                ),
            ),
            (CachePhase::Evicted, Event::Unit) => (self, Ok(None)),
            _ => (self, Err(())),
        }
    }

    pub open spec fn cache_accepts(self, file: Text, phase: CachePhase, e: SpecEvent) -> bool {
        match (phase, e) {
            (CachePhase::Sized, Event::Size(size)) => self.fits(file, size),
            _ => true,
        }
    }

    // -----------------------------------------------------------------------
    // setattr
    // -----------------------------------------------------------------------

    pub open spec fn setattr_at(
        self,
        a: SpecAction,
        ino: u64,
        path: Text,
        change: AttrChange,
        phase: SetAttrPhase,
    ) -> (FsState, SpecStep) {
        self.asks(a, Pending::SetAttr { ino, path, file: self.file(path), change, phase })
    }

    /// A change of size changes the cache file first, under the lock of the path.
    pub open spec fn setattr(self, ino: u64, change: AttrChange) -> (FsState, SpecStep) {
        match self.path(ino) {
            Some(path) => if change.size is Some {
                self.setattr_at(Action::Lock { path }, ino, path, change, SetAttrPhase::Locked)
            } else {
                self.setattr_at(
                    Action::SetStat { path, change },
                    ino,
                    path,
                    change,
                    SetAttrPhase::Applied,
                )
            },
            None => self.fails(Errno::ENOENT),
        }
    }

    pub open spec fn setattr_next(
        self,
        ino: u64,
        path: Text,
        file: Text,
        change: AttrChange,
        phase: SetAttrPhase,
        e: SpecEvent,
    ) -> (FsState, SpecStep) {
        match (phase, e) {
            (SetAttrPhase::Locked, Event::Unit) => self.asks(
                Action::Exists { file },
                Pending::SetAttr {
                    ino,
                    path,
                    file,
                    change,
                    phase: SetAttrPhase::Caching(CachePhase::Present),
                },
            ),
            (SetAttrPhase::Caching(c), _) => {
                let (s, r) = self.cache_next(path, file, c, e);
                match r {
                    Ok(Some((a, n))) => s.asks(
                        a,
                        Pending::SetAttr { ino, path, file, change, phase: SetAttrPhase::Caching(n) },
                    ),
                    Ok(None) => match change.size {
                        Some(size) => s.asks(
                            Action::Truncate { file, size },
                            Pending::SetAttr {
                                ino,
                                path,
                                file,
                                change,
                                phase: SetAttrPhase::Truncated,
                            },
                        ),
                        None => s.fails(Errno::EIO),
                    },
                    Err(_) => s.fails(Errno::EIO),
                }
            },
            (SetAttrPhase::Truncated, Event::Unit) => self.asks(
                Action::Unlock,
                Pending::SetAttr { ino, path, file, change, phase: SetAttrPhase::Unlocked },
            ),
            (SetAttrPhase::Unlocked, Event::Unit) => self.asks(
                Action::SetStat { path, change },
                Pending::SetAttr { ino, path, file, change, phase: SetAttrPhase::Applied },
            ),
            (SetAttrPhase::Applied, Event::Flag(true)) => self.attr_removed(path).asks(
                Action::Stat { path },
                Pending::SetAttr { ino, path, file, change, phase: SetAttrPhase::Fetched },
            ),
            (SetAttrPhase::Fetched, Event::Stat(st)) => self.attr_put(path, st).attributes(ino, st),
            _ => self.fails(Errno::EIO),
        }
    }

    // -----------------------------------------------------------------------
    // read
    // -----------------------------------------------------------------------

    /// A read takes the cache file where it is there and nobody holds its lock.
    pub open spec fn read(self, ino: u64, offset: u64, size: u32) -> (FsState, SpecStep) {
        match self.path(ino) {
            Some(path) => {
                let file = self.file(path);
                self.file_renewed(file).asks(
                    Action::TryLock { path },
                    Pending::Read { path, file, offset, size, phase: ReadPhase::Tried },
                )
            },
            None => self.fails(Errno::ENOENT),
        }
    }

    pub open spec fn read_next(
        self,
        path: Text,
        file: Text,
        offset: u64,
        size: u32,
        phase: ReadPhase,
        e: SpecEvent,
    ) -> (FsState, SpecStep) {
        let at = |phase: ReadPhase| Pending::Read { path, file, offset, size, phase };
        match (phase, e) {
            (ReadPhase::Tried, Event::Flag(true)) => self.asks(
                Action::Exists { file },
                at(ReadPhase::Present),
            ),
            (ReadPhase::Tried, Event::Flag(false)) => self.asks(
                Action::IsLocked { path },
                at(ReadPhase::Asked),
            ),
            (ReadPhase::Present, Event::Flag(true)) => self.asks(
                Action::ReadFile { file, offset, size },
                at(ReadPhase::Cached),
            ),
            (ReadPhase::Present, Event::Flag(false)) => self.asks(
                Action::Unlock,
                at(ReadPhase::Unlocked),
            ),
            (ReadPhase::Cached, Event::Data(Some(d))) => self.replies(Reply::Data(d)),
            (ReadPhase::Cached, Event::Data(None)) => self.asks(
                Action::Unlock,
                at(ReadPhase::Unlocked),
            ),
            (ReadPhase::Unlocked, Event::Unit) => self.asks(
                Action::IsLocked { path },
                at(ReadPhase::Asked),
            ),
            (ReadPhase::Asked, Event::Flag(false)) => self.asks(
                Action::Spawn(Task::FetchFile { path }),
                at(ReadPhase::Spawned),
            ),
            (ReadPhase::Asked, Event::Flag(true)) => self.asks(
                Action::ReadAt { path, offset, size },
                at(ReadPhase::Remote),
            ),
            (ReadPhase::Spawned, Event::Unit) => self.asks(
                Action::ReadAt { path, offset, size },
                at(ReadPhase::Remote),
            ),
            (ReadPhase::Remote, Event::Data(Some(d))) => self.replies(Reply::Data(d)),
            _ => self.fails(Errno::EIO),
        }
    }

    // -----------------------------------------------------------------------
    // write
    // -----------------------------------------------------------------------

    /// A write changes the cache file under the lock of the path, and the remote later.
    pub open spec fn write(self, ino: u64, offset: u64, data: Bytes) -> (FsState, SpecStep) {
        match self.path(ino) {
            Some(path) => self.asks(
                Action::Lock { path },
                Pending::Write {
                    path,
                    file: self.file(path),
                    offset,
                    data,
                    phase: WritePhase::Locked,
                },
            ),
            None => self.fails(Errno::ENOENT),
        }
    }

    /// The state once a cache file was measured after a write: cached attributes have the
    /// new size.
    pub open spec fn measured(self, path: Text, size: Option<u64>) -> FsState {
        match size {
            Some(n) => match self.attr(path) {
                Some(Some(st)) => self.attr_used(path).attr_put(
                    path,
                    Some(StatData { size: n, ..st }),
                ),
                _ => self.attr_used(path),
            },
            None => self,
        }
    }

    pub open spec fn write_next(
        self,
        path: Text,
        file: Text,
        offset: u64,
        data: Bytes,
        phase: WritePhase,
        e: SpecEvent,
    ) -> (FsState, SpecStep) {
        let at = |phase: WritePhase| Pending::Write { path, file, offset, data, phase };
        match (phase, e) {
            (WritePhase::Locked, Event::Unit) => self.asks(
                Action::Exists { file },
                at(WritePhase::Caching(CachePhase::Present)),
            ),
            (WritePhase::Caching(c), _) => {
                let (s, r) = self.cache_next(path, file, c, e);
                match r {
                    Ok(Some((a, n))) => s.asks(a, at(WritePhase::Caching(n))),
                    Ok(None) => s.asks(
                        Action::WriteFile { file, offset, data },
                        at(WritePhase::Stored),
                    ),
                    Err(_) => s.fails(Errno::EIO),
                }
            },
            (WritePhase::Stored, Event::Flag(true)) => self.asks(
                Action::Size { file },
                at(WritePhase::Measured),
            ),
            (WritePhase::Measured, Event::Size(size)) => self.measured(path, size).asks(
                Action::Unlock,
                at(WritePhase::Unlocked),
            ),
            (WritePhase::Unlocked, Event::Unit) => self.asks(
                Action::Spawn(Task::AsyncWrite { path, offset, data, file }),
                at(WritePhase::Spawned),
            ),
            (WritePhase::Spawned, Event::Unit) => self.asks(
                Action::Size { file },
                at(WritePhase::Recorded),
            ),
            (WritePhase::Recorded, Event::Size(size)) => self.file_put(file, size).asks(
                Action::Remove { files: self.evicted(file, size) },
                at(WritePhase::Trimmed),
            ),
            (WritePhase::Trimmed, Event::Unit) => self.replies(Reply::Written(data.len() as u32)),
            _ => self.fails(Errno::EIO),
        }
    }

    // -----------------------------------------------------------------------
    // readdir
    // -----------------------------------------------------------------------

    /// The children of a directory, each with an inode and its kind.
    pub open spec fn children(self, path: Text, names: Names) -> (
        FsState,
        Seq<(u64, FileType, Text)>,
    )
        decreases names.len(),
    {
        if names.len() == 0 {
            (self, Seq::empty())
        } else {
            let (s, before) = self.children(path, names.drop_last());
            let child = child_of(path, names.last());
            (
                s.with_ino(child).attr_used(child),
                before.push((s.inodes.ino(child), listed_kind(s.attr(child)), names.last())),
            )
        }
    }

    /// A directory and its parent.
    pub open spec fn dots(self, ino: u64, path: Text) -> Seq<(u64, FileType, Text)> {
        seq![
            (ino, FileType::Directory, dot()),
            (self.inodes.ino(parent_of(path)), FileType::Directory, dotdot()),
        ]
    }

    /// A listing that is cached is replied; else only the directory itself and its parent
    /// are, and the listing is fetched in the background, once.
    pub open spec fn readdir(self, ino: u64, offset: u64) -> (FsState, SpecStep) {
        match self.path(ino) {
            Some(path) => {
                let s = self.with_ino(parent_of(path));
                match self.listing(path) {
                    Some(names) => {
                        let (t, all) = s.dir_used(path).children(path, names);
                        t.replies(
                            Reply::Directory(entries_from(self.dots(ino, path) + all, offset)),
                        )
                    },
                    None => {
                        let r = Reply::Directory(entries_from(self.dots(ino, path), offset));
                        if self.fetching.contains(path) {
                            s.replies(r)
                        } else {
                            (
                                FsState { fetching: s.fetching.insert(path), ..s },
                                Step::ReplyAndSpawn(r, Task::FetchDir { ino, path }),
                            )
                        }
                    },
                }
            },
            None => self.fails(Errno::ENOENT),
        }
    }

    /// Starts to fetch a listing.
    pub open spec fn fetch_dir(self, ino: u64, path: Text) -> (FsState, SpecStep) {
        self.asks(
            Action::ReadDir { path },
            Pending::FetchDir { ino, path, phase: FetchDirPhase::Listed },
        )
    }

    /// The state once the attributes of the children of a directory are cached.
    pub open spec fn attrs_put(self, path: Text, l: Listing) -> FsState
        decreases l.len(),
    {
        if l.len() == 0 {
            self
        } else {
            self.attrs_put(path, l.drop_last()).attr_put(
                child_of(path, l.last().0),
                Some(l.last().1),
            )
        }
    }

    pub open spec fn fetched(self, path: Text) -> FsState {
        FsState { fetching: self.fetching.remove(path), ..self }
    }

    pub open spec fn fetch_dir_next(
        self,
        ino: u64,
        path: Text,
        phase: FetchDirPhase,
        e: SpecEvent,
    ) -> (FsState, SpecStep) {
        match (phase, e) {
            (FetchDirPhase::Listed, Event::Listing(Some(l))) => self.dir_put(
                path,
                listed_names(l),
            ).attrs_put(path, l).asks(
                Action::Invalidate { ino },
                Pending::FetchDir { ino, path, phase: FetchDirPhase::Invalidated },
            ),
            _ => self.fetched(path).replies(Reply::Finished),
        }
    }

    // -----------------------------------------------------------------------
    // readlink and statfs
    // -----------------------------------------------------------------------

    pub open spec fn readlink(self, ino: u64) -> (FsState, SpecStep) {
        match self.path(ino) {
            Some(path) => self.asks(Action::ReadLink { path }, Pending::ReadLink),
            None => self.fails(Errno::ENOENT),
        }
    }

    pub open spec fn readlink_next(self, e: SpecEvent) -> (FsState, SpecStep) {
        match e {
            Event::Link(Some(target)) => self.replies(Reply::Link(target)),
            _ => self.fails(Errno::EIO),
        }
    }

    pub open spec fn statfs_next(self, e: SpecEvent) -> (FsState, SpecStep) {
        match e {
            Event::Capacity(c) => self.replies(Reply::StatFs(fs_totals(c))),
            _ => self.fails(Errno::EIO),
        }
    }

    // -----------------------------------------------------------------------
    // create, mkdir and symlink
    // -----------------------------------------------------------------------

    pub open spec fn create(
        self,
        parent: u64,
        name: Option<Text>,
        mode: u32,
        uid: u32,
        gid: u32,
    ) -> (FsState, SpecStep) {
        match (self.path(parent), name) {
            (Some(p), Some(n)) => {
                let path = child_of(p, n);
                self.asks(
                    Action::Lock { path },
                    Pending::Create {
                        parent: p,
                        path,
                        file: self.file(path),
                        mode,
                        uid,
                        gid,
                        phase: CreatePhase::Locked,
                    },
                )
            },
            _ => self.fails(Errno::ENOENT),
        }
    }

    /// A new file is replied, and has an inode.
    pub open spec fn made(
        self,
        parent: Text,
        path: Text,
        kind: FileType,
        size: u64,
        perm: u16,
        uid: u32,
        gid: u32,
    ) -> (FsState, SpecStep) {
        let attr = new_attr(self.inodes.ino(path), kind, size, perm, uid, gid);
        self.changed(path, parent).with_ino(path).replies(
            if kind == FileType::RegularFile {
                Reply::Created(attr)
            } else {
                Reply::Entry(attr)
            },
        )
    }

    pub open spec fn create_next(
        self,
        parent: Text,
        path: Text,
        file: Text,
        mode: u32,
        uid: u32,
        gid: u32,
        phase: CreatePhase,
        e: SpecEvent,
    ) -> (FsState, SpecStep) {
        match (phase, e) {
            (CreatePhase::Locked, Event::Unit) => self.asks(
                Action::CreateEmpty { file },
                Pending::Create { parent, path, file, mode, uid, gid, phase: CreatePhase::Emptied },
            ),
            (CreatePhase::Emptied, Event::Unit) => self.asks(
                Action::CreateFile { path, mode },
                Pending::Create { parent, path, file, mode, uid, gid, phase: CreatePhase::Made },
            ),
            (CreatePhase::Made, Event::Flag(true)) => self.made(
                parent,
                path,
                FileType::RegularFile,
                0,
                (mode & PERMISSION_BITS) as u16,
                uid,
                gid,
            ),
            _ => self.fails(Errno::EIO),
        }
    }

    pub open spec fn mkdir(
        self,
        parent: u64,
        name: Option<Text>,
        mode: u32,
        uid: u32,
        gid: u32,
    ) -> (FsState, SpecStep) {
        match (self.path(parent), name) {
            (Some(p), Some(n)) => {
                let path = child_of(p, n);
                self.asks(
                    Action::CreateDir { path, mode },
                    Pending::MkDir { parent: p, path, mode, uid, gid },
                )
            },
            _ => self.fails(Errno::ENOENT),
        }
    }

    pub open spec fn mkdir_next(
        self,
        parent: Text,
        path: Text,
        mode: u32,
        uid: u32,
        gid: u32,
        e: SpecEvent,
    ) -> (FsState, SpecStep) {
        match e {
            Event::Flag(true) => self.made(
                parent,
                path,
                FileType::Directory,
                0,
                (mode & PERMISSION_BITS) as u16,
                uid,
                gid,
            ),
            _ => self.fails(Errno::EIO),
        }
    }

    pub open spec fn symlink(
        self,
        parent: u64,
        name: Option<Text>,
        target: Text,
        uid: u32,
        gid: u32,
    ) -> (FsState, SpecStep) {
        match (self.path(parent), name) {
            (None, _) => self.fails(Errno::ENOENT),
            (_, None) => self.fails(Errno::EINVAL),
            (Some(p), Some(n)) => {
                let path = child_of(p, n);
                self.asks(
                    Action::Symlink { target, link: path },
                    Pending::Symlink { parent: p, path, target, uid, gid },
                )
            },
        }
    }

    pub open spec fn symlink_next(
        self,
        parent: Text,
        path: Text,
        target: Text,
        uid: u32,
        gid: u32,
        e: SpecEvent,
    ) -> (FsState, SpecStep) {
        match e {
            Event::Flag(true) => self.made(
                parent,
                path,
                FileType::Symlink,
                text_bytes(target) as u64,
                0o777,
                uid,
                gid,
            ),
            _ => self.fails(Errno::ENOTSUP),
        }
    }

    // -----------------------------------------------------------------------
    // unlink, rmdir and rename
    // -----------------------------------------------------------------------

    pub open spec fn unlink(self, parent: u64, name: Option<Text>) -> (FsState, SpecStep) {
        match (self.path(parent), name) {
            (None, _) => self.fails(Errno::ENOENT),
            (_, None) => self.fails(Errno::EINVAL),
            (Some(p), Some(n)) => {
                let path = child_of(p, n);
                self.asks(
                    Action::DeleteFile { path },
                    Pending::Unlink {
                        parent: p,
                        path,
                        file: self.file(path),
                        phase: UnlinkPhase::Deleted,
                    },
                )
            },
        }
    }

    pub open spec fn unlink_next(
        self,
        parent: Text,
        path: Text,
        file: Text,
        phase: UnlinkPhase,
        e: SpecEvent,
    ) -> (FsState, SpecStep) {
        match (phase, e) {
            (UnlinkPhase::Deleted, Event::Flag(true)) => self.asks(
                Action::Lock { path },
                Pending::Unlink { parent, path, file, phase: UnlinkPhase::Locked },
            ),
            (UnlinkPhase::Locked, Event::Unit) => self.file_popped(file).changed(
                path,
                parent,
            ).without_ino(path).asks(
                Action::Remove { files: seq![file] },
                Pending::Unlink { parent, path, file, phase: UnlinkPhase::Removed },
            ),
            (UnlinkPhase::Removed, Event::Unit) => self.replies(Reply::Done),
            _ => self.fails(Errno::EIO),
        }
    }

    pub open spec fn rmdir(self, parent: u64, name: Option<Text>) -> (FsState, SpecStep) {
        match (self.path(parent), name) {
            (None, _) => self.fails(Errno::ENOENT),
            (_, None) => self.fails(Errno::EINVAL),
            (Some(p), Some(n)) => {
                let path = child_of(p, n);
                self.asks(Action::DeleteDir { path }, Pending::RmDir { parent: p, path })
            },
        }
    }

    pub open spec fn rmdir_next(self, parent: Text, path: Text, e: SpecEvent) -> (
        FsState,
        SpecStep,
    ) {
        match e {
            Event::Flag(true) => self.changed(path, parent).without_ino(path).replies(Reply::Done),
            _ => self.fails(Errno::EIO),
        }
    }

    pub open spec fn rename(
        self,
        parent: u64,
        name: Option<Text>,
        new_parent: u64,
        new_name: Option<Text>,
    ) -> (FsState, SpecStep) {
        match (self.path(parent), self.path(new_parent)) {
            (Some(p), Some(q)) => match (name, new_name) {
                (Some(n), Some(m)) => {
                    let before = child_of(p, n);
                    let after = child_of(q, m);
                    self.asks(
                        Action::Rename { before, after },
                        Pending::Rename {
                            parent: p,
                            before,
                            before_file: self.file(before),
                            new_parent: q,
                            after,
                            after_file: self.file(after),
                            phase: RenamePhase::Moved,
                        },
                    )
                },
                _ => self.fails(Errno::EINVAL),
            },
            _ => self.fails(Errno::ENOENT),
        }
    }

    pub open spec fn rename_next(
        self,
        parent: Text,
        before: Text,
        before_file: Text,
        new_parent: Text,
        after: Text,
        after_file: Text,
        phase: RenamePhase,
        e: SpecEvent,
    ) -> (FsState, SpecStep) {
        let at = |phase: RenamePhase|
            Pending::Rename {
                parent,
                before,
                before_file,
                new_parent,
                after,
                after_file,
                phase,
            };
        match (phase, e) {
            (RenamePhase::Moved, Event::Flag(true)) => self.asks(
                Action::Lock { path: before },
                at(RenamePhase::SourceLocked),
            ),
            (RenamePhase::SourceLocked, Event::Unit) => self.file_popped(before_file).changed(
                before,
                parent,
            ).asks(Action::Remove { files: seq![before_file] }, at(RenamePhase::SourceRemoved)),
            (RenamePhase::SourceRemoved, Event::Unit) => self.asks(
                Action::Unlock,
                at(RenamePhase::SourceUnlocked),
            ),
            (RenamePhase::SourceUnlocked, Event::Unit) => self.asks(
                Action::Lock { path: after },
                at(RenamePhase::TargetLocked),
            ),
            (RenamePhase::TargetLocked, Event::Unit) => self.file_popped(after_file).changed(
                after,
                new_parent,
            ).asks(Action::Remove { files: seq![after_file] }, at(RenamePhase::TargetRemoved)),
            (RenamePhase::TargetRemoved, Event::Unit) => self.asks(
                Action::Unlock,
                at(RenamePhase::TargetUnlocked),
            ),
            (RenamePhase::TargetUnlocked, Event::Unit) => self.moved_ino(before, after).replies(
                Reply::Done,
            ),
            _ => self.fails(Errno::EIO),
        }
    }

    // -----------------------------------------------------------------------
    // Background tasks
    // -----------------------------------------------------------------------

    /// Starts to download a file into the disk cache.
    pub open spec fn fetch_file(self, path: Text) -> (FsState, SpecStep) {
        self.asks(
            Action::Lock { path },
            Pending::FetchFile { path, file: self.file(path), phase: FetchFilePhase::Locked },
        )
    }

    pub open spec fn fetch_file_next(
        self,
        path: Text,
        file: Text,
        phase: FetchFilePhase,
        e: SpecEvent,
    ) -> (FsState, SpecStep) {
        match (phase, e) {
            (FetchFilePhase::Locked, Event::Unit) => self.asks(
                Action::Exists { file },
                Pending::FetchFile {
                    path,
                    file,
                    phase: FetchFilePhase::Caching(CachePhase::Present),
                },
            ),
            (FetchFilePhase::Caching(c), _) => {
                let (s, r) = self.cache_next(path, file, c, e);
                match r {
                    Ok(Some((a, n))) => s.asks(
                        a,
                        Pending::FetchFile { path, file, phase: FetchFilePhase::Caching(n) },
                    ),
                    _ => s.replies(Reply::Finished),
                }
            },
            _ => self.replies(Reply::Finished),
        }
    }

    /// Starts to refresh cached attributes; a path whose lock is held is passed over.
    pub open spec fn renew_attr(self, path: Text, cached: Option<StatData>) -> (FsState, SpecStep) {
        self.asks(
            Action::TryLock { path },
            Pending::RenewAttr { path, file: self.file(path), cached, phase: RenewPhase::Tried },
        )
    }

    /// A file that is gone or has another size leaves the disk cache, so that the next read
    /// downloads it.
    pub open spec fn renew_attr_next(
        self,
        path: Text,
        file: Text,
        cached: Option<StatData>,
        phase: RenewPhase,
        e: SpecEvent,
    ) -> (FsState, SpecStep) {
        match (phase, e) {
            (RenewPhase::Tried, Event::Flag(true)) => self.asks(
                Action::Stat { path },
                Pending::RenewAttr { path, file, cached, phase: RenewPhase::Fetched },
            ),
            (RenewPhase::Fetched, Event::Stat(remote)) => if outdated(cached, remote) {
                self.file_popped(file).attr_put(path, remote).asks(
                    Action::Remove { files: seq![file] },
                    Pending::RenewAttr { path, file, cached, phase: RenewPhase::Removed },
                )
            } else {
                self.attr_put(path, remote).replies(Reply::Finished)
            },
            _ => self.replies(Reply::Finished),
        }
    }

    /// Starts to refresh a cached listing.
    pub open spec fn renew_dir(self, path: Text, cached: Names) -> (FsState, SpecStep) {
        self.asks(Action::ReadDir { path }, Pending::RenewDir { path, cached })
    }

    /// A listing that changed on the remote takes the place of the cached one.
    pub open spec fn renew_dir_next(self, path: Text, cached: Names, e: SpecEvent) -> (
        FsState,
        SpecStep,
    ) {
        match e {
            Event::Listing(Some(l)) => if sorted(cached) != sorted(listed_names(l)) {
                self.dir_put(path, sorted(listed_names(l))).replies(Reply::Finished)
            } else {
                self.replies(Reply::Finished)
            },
            _ => self.replies(Reply::Finished),
        }
    }

    // -----------------------------------------------------------------------
    // All requests
    // -----------------------------------------------------------------------

    /// What a pending request does on an event.
    pub open spec fn next(self, p: SpecPending, e: SpecEvent) -> (FsState, SpecStep) {
        match p {
            Pending::Lookup { path } => self.lookup_next(path, e),
            Pending::GetAttr { ino, path } => self.getattr_next(ino, path, e),
            Pending::SetAttr { ino, path, file, change, phase } => self.setattr_next(
                ino,
                path,
                file,
                change,
                phase,
                e,
            ),
            Pending::Read { path, file, offset, size, phase } => self.read_next(
                path,
                file,
                offset,
                size,
                phase,
                e,
            ),
            Pending::Write { path, file, offset, data, phase } => self.write_next(
                path,
                file,
                offset,
                data,
                phase,
                e,
            ),
            Pending::ReadLink => self.readlink_next(e),
            Pending::Create { parent, path, file, mode, uid, gid, phase } => self.create_next(
                parent,
                path,
                file,
                mode,
                uid,
                gid,
                phase,
                e,
            ),
            Pending::MkDir { parent, path, mode, uid, gid } => self.mkdir_next(
                parent,
                path,
                mode,
                uid,
                gid,
                e,
            ),
            Pending::Unlink { parent, path, file, phase } => self.unlink_next(
                parent,
                path,
                file,
                phase,
                e,
            ),
            Pending::RmDir { parent, path } => self.rmdir_next(parent, path, e),
            Pending::Rename {
                parent,
                before,
                before_file,
                new_parent,
                after,
                after_file,
                phase,
            } => self.rename_next(
                parent,
                before,
                before_file,
                new_parent,
                after,
                after_file,
                phase,
                e,
            ),
            Pending::Symlink { parent, path, target, uid, gid } => self.symlink_next(
                parent,
                path,
                target,
                uid,
                gid,
                e,
            ),
            Pending::StatFs => self.statfs_next(e),
            Pending::FetchDir { ino, path, phase } => self.fetch_dir_next(ino, path, phase, e),
            Pending::FetchFile { path, file, phase } => self.fetch_file_next(path, file, phase, e),
            Pending::RenewAttr { path, file, cached, phase } => self.renew_attr_next(
                path,
                file,
                cached,
                phase,
                e,
            ),
            Pending::RenewDir { path, cached } => self.renew_dir_next(path, cached, e),
        }
    }

    /// The event can be counted in: a measured file into the total of the disk cache, a
    /// listing into the inodes.
    pub open spec fn accepts(self, p: SpecPending, e: SpecEvent) -> bool {
        &&& match p {
            Pending::SetAttr { file, phase: SetAttrPhase::Caching(c), .. } => self.cache_accepts(
                file,
                c,
                e,
            ),
            Pending::Write { file, phase: WritePhase::Caching(c), .. } => self.cache_accepts(
                file,
                c,
                e,
            ),
            Pending::Write { file, phase: WritePhase::Recorded, .. } => e matches Event::Size(
                size,
            ) ==> self.fits(file, size),
            Pending::FetchFile { file, phase: FetchFilePhase::Caching(c), .. } => self.cache_accepts(
                file,
                c,
                e,
            ),
            _ => true,
        }
        &&& e matches Event::Listing(Some(l)) ==> l.len() <= MAX_LISTING
    }
}

/// The disk cache may hold another file than the remote: it is gone, or its size changed.
pub open spec fn outdated(cached: Option<StatData>, remote: Option<StatData>) -> bool {
    match (cached, remote) {
        (_, None) => true,
        (Some(a), Some(b)) => a.size != b.size,
        (None, Some(_)) => false,
    }
}

/// Capacity in blocks of 4096 bytes; nothing where the backend does not know it.
pub open spec fn fs_totals(c: Option<(u64, u64)>) -> StatFs {
    let (total, free) = match c {
        Some(v) => v,
        None => (0u64, 0u64),
    };
    StatFs {
        blocks: total / 4096,
        bfree: free / 4096,
        bavail: free / 4096,
        files: 0,
        ffree: 0,
        bsize: 4096,
        namelen: 255,
        frsize: 4096,
    }
}

} // verus!
