//! The kernel's requests and the background tasks.
//!
//! Each request returns its first step. [`RemoteFs::resume`] takes the event of the action
//! that a step asked for, and returns the next.

use vstd::prelude::*;

use crate::assoc::lookup;
use crate::backend::AttrChange;
use crate::cache::fs::total;
use crate::fs::model::{dot, dotdot, entries_from, listed_names};
use crate::fs::model::{SpecAction, SpecStep};
use crate::fs::protocol::{entries, listing, Action, CachePhase, CreatePhase, DirEntry};
use crate::fs::protocol::{Errno, Event, FetchDirPhase, FetchFilePhase, FsAction, FsEvent};
use crate::fs::protocol::{FsPending, FsReply, FsStep, Pending, ReadPhase, RenamePhase, RenewPhase};
use crate::fs::protocol::{Reply, SetAttrPhase, StatFs, Step, Task, UnlinkPhase, WritePhase};
use crate::fs::remote::RemoteFs;
use crate::path::{parent_path, path_join};
use crate::shared::MAX_LISTING;
use crate::sorting::sort_names;
use crate::stat::{new_file_attr, to_file_attr, FileType, StatData, PERMISSION_BITS, TYPE_BITS};
use crate::text::{opt_text, same, views};

verus! {

/// A time that a request asks for: seconds after the Unix epoch, none where it lies before;
/// or the present.
#[derive(Clone, Copy, Debug, PartialEq, Eq, Structural)]
pub enum TimeOrNow {
    SpecificTime(Option<u64>),
    Now,
}

/// The seconds that a time stands for.
pub open spec fn secs_of(t: Option<TimeOrNow>, now: u64) -> Option<u64> {
    match t {
        Some(TimeOrNow::SpecificTime(Some(n))) => Some(n),
        Some(TimeOrNow::SpecificTime(None)) => Some(0),
        Some(TimeOrNow::Now) => Some(now),
        None => None,
    }
}

fn time_secs(t: Option<TimeOrNow>, now: u64) -> (r: Option<u64>)
    ensures
        r == secs_of(t, now),
{
    match t {
        Some(TimeOrNow::SpecificTime(Some(n))) => Some(n),
        Some(TimeOrNow::SpecificTime(None)) => Some(0),
        Some(TimeOrNow::Now) => Some(now),
        None => None,
    }
}

/// What getting a file into the disk cache comes to next.
enum CacheStep {
    Ask(FsAction, CachePhase),
    Ready,
    Broken,
}

impl CacheStep {
    spec fn says(self, r: Result<Option<(SpecAction, CachePhase)>, ()>) -> bool {
        match self {
            CacheStep::Ask(a, c) => r == Ok::<Option<(SpecAction, CachePhase)>, ()>(
                Some((a@, c)),
            ),
            CacheStep::Ready => r == Ok::<Option<(SpecAction, CachePhase)>, ()>(None),
            CacheStep::Broken => r is Err,
        }
    }
}

fn reply(r: FsReply) -> (s: FsStep)
    ensures
        s@ == SpecStep::Reply(r@),
{
    Step::Reply(r)
}

fn fail(e: Errno) -> (s: FsStep)
    ensures
        s@ == SpecStep::Reply(Reply::Error(e)),
{
    Step::Reply(Reply::Error(e))
}

/// What answers a question about extended attributes.
pub enum XattrReply {
    Size(u32),
    Data(Vec<u8>),
    Error(Errno),
}

/// Lists the extended attributes of a file: there are none. A size of 0 asks for the size of
/// the list.
pub fn listxattr(size: u32) -> (r: XattrReply)
    ensures
        match r {
            XattrReply::Size(n) => size == 0 && n == 0,
            XattrReply::Data(d) => size != 0 && d@.len() == 0,
            XattrReply::Error(_) => false,
        },
{
    if size == 0 {
        XattrReply::Size(0)
    } else {
        XattrReply::Data(Vec::new())
    }
}

/// Gets an extended attribute: it does not exist, which macOS and other systems say
/// differently.
pub fn getxattr(macos: bool) -> (r: XattrReply)
    ensures
        r == XattrReply::Error(
            if macos {
                Errno::ENOATTR
            } else {
                Errno::ENODATA
            },
        ),
{
    if macos {
        XattrReply::Error(Errno::ENOATTR)
    } else {
        XattrReply::Error(Errno::ENODATA)
    }
}

/// What entries say before they are numbered.
spec fn triples(v: Seq<DirEntry<String>>) -> Seq<(u64, FileType, Seq<char>)> {
    v.map_values(|e: DirEntry<String>| (e.ino, e.kind, e.name@))
}

/// Numbers the entries, and leaves those before `offset` out.
fn entries_at(all: Vec<DirEntry<String>>, offset: u64) -> (r: Vec<DirEntry<String>>)
    ensures
        entries(r@) == entries_from(triples(all@), offset),
{
    let mut r: Vec<DirEntry<String>> = Vec::new();
    let mut i: usize = 0;
    while i < all.len()
        invariant
            i <= all@.len(),
            r@.len() == (if i < offset { 0 } else { i - offset }),
            forall|j: int|
                0 <= j < r@.len() ==> (#[trigger] r@[j]).ino == all@[offset + j].ino && r@[j].offset
                    == offset + j + 1 && r@[j].kind == all@[offset + j].kind && r@[j].name@
                    == all@[offset + j].name@,
        decreases all@.len() - i,
    {
        if i as u64 >= offset {
            let e = &all[i];
            r.push(
                DirEntry { ino: e.ino, offset: i as u64 + 1, kind: e.kind, name: e.name.clone() },
            );
        }
        i = i + 1;
    }
    assert(entries(r@) =~= entries_from(triples(all@), offset));
    r
}

/// The names in a listing.
fn names_of(l: &Vec<(String, StatData)>) -> (r: Vec<String>)
    ensures
        views(r@) == listed_names(listing(l@)),
        r@.len() == l@.len(),
{
    let mut r: Vec<String> = Vec::new();
    let mut i: usize = 0;
    while i < l.len()
        invariant
            i <= l@.len(),
            r@.len() == i,
            forall|j: int| 0 <= j < i ==> (#[trigger] r@[j])@ == l@[j].0@,
        decreases l@.len() - i,
    {
        r.push(l[i].0.clone());
        i = i + 1;
    }
    assert(views(r@) =~= listed_names(listing(l@)));
    r
}

/// Whether two lists hold the same names in the same order.
fn same_names(a: &Vec<String>, b: &Vec<String>) -> (r: bool)
    ensures
        r == (views(a@) == views(b@)),
{
    if a.len() != b.len() {
        assert(views(a@).len() != views(b@).len());
        return false;
    }
    let mut i: usize = 0;
    while i < a.len()
        invariant
            a@.len() == b@.len(),
            i <= a@.len(),
            forall|j: int| 0 <= j < i ==> (#[trigger] a@[j])@ == b@[j]@,
        decreases a@.len() - i,
    {
        if !same(a[i].as_str(), b[i].as_str()) {
            assert(views(a@)[i as int] != views(b@)[i as int]);
            return false;
        }
        i = i + 1;
    }
    assert(views(a@) =~= views(b@));
    true
}

/// A list of one name.
fn one(file: &String) -> (r: Vec<String>)
    ensures
        views(r@) == seq![file@],
{
    let mut r: Vec<String> = Vec::new();
    r.push(file.clone());
    assert(views(r@) =~= seq![file@]);
    r
}

/// Copies bytes.
fn clone_bytes(v: &Vec<u8>) -> (r: Vec<u8>)
    ensures
        r@ == v@,
{
    let r = v.clone();
    assert(r@ =~= v@);
    r
}

impl RemoteFs {
    // -----------------------------------------------------------------------
    // lookup and getattr
    // -----------------------------------------------------------------------

    fn reply_entry(&mut self, path: &str, st: Option<StatData>) -> (step: FsStep)
        requires
            old(self).wf(),
            old(self)@.roomy(),
        ensures
            final(self).wf(),
            (final(self)@, step@) == old(self)@.entry(path@, st),
    {
        match st {
            Some(d) => {
                let ino = self.give_ino(path);
                reply(Reply::Entry(to_file_attr(ino, &d)))
            },
            None => fail(Errno::ENOENT),
        }
    }

    /// Looks up a directory entry by name; `name` is none where it is no text.
    pub fn lookup(&mut self, parent: u64, name: Option<&str>) -> (step: FsStep)
        requires
            old(self).wf(),
            old(self)@.roomy(),
        ensures
            final(self).wf(),
            (final(self)@, step@) == old(self)@.lookup(parent, opt_text(name)),
    {
        let parent_path = match self.inodes.path_of(parent) {
            Some(p) => p,
            None => {
                return fail(Errno::ENOENT);
            },
        };
        match name {
            Some(n) => {
                let path = path_join(parent_path.as_str(), n);
                match self.cached_attr(path.as_str()) {
                    Some(st) => self.reply_entry(path.as_str(), st),
                    None => Step::Perform(
                        Action::Stat { path: path.clone() },
                        Pending::Lookup { path },
                    ),
                }
            },
            None => fail(Errno::ENOENT),
        }
    }

    fn lookup_next(&mut self, path: String, event: FsEvent) -> (step: FsStep)
        requires
            old(self).wf(),
            old(self)@.roomy(),
        ensures
            final(self).wf(),
            (final(self)@, step@) == old(self)@.lookup_next(path@, event@),
    {
        match event {
            Event::Stat(st) => {
                self.put_attr(path.as_str(), st);
                self.reply_entry(path.as_str(), st)
            },
            _ => fail(Errno::EIO),
        }
    }

    fn reply_attr(&self, ino: u64, st: Option<StatData>) -> (step: FsStep)
        ensures
            (self@, step@) == self@.attributes(ino, st),
    {
        match st {
            Some(d) => reply(Reply::Attr(to_file_attr(ino, &d))),
            None => fail(Errno::ENOENT),
        }
    }

    /// Gets the attributes of an inode.
    pub fn getattr(&mut self, ino: u64) -> (step: FsStep)
        requires
            old(self).wf(),
        ensures
            final(self).wf(),
            (final(self)@, step@) == old(self)@.getattr(ino),
    {
        match self.inodes.path_of(ino) {
            Some(path) => match self.cached_attr(path.as_str()) {
                Some(st) => self.reply_attr(ino, st),
                None => Step::Perform(
                    Action::Stat { path: path.clone() },
                    Pending::GetAttr { ino, path },
                ),
            },
            None => fail(Errno::ENOENT),
        }
    }

    fn getattr_next(&mut self, ino: u64, path: String, event: FsEvent) -> (step: FsStep)
        requires
            old(self).wf(),
        ensures
            final(self).wf(),
            (final(self)@, step@) == old(self)@.getattr_next(ino, path@, event@),
    {
        match event {
            Event::Stat(st) => {
                self.put_attr(path.as_str(), st);
                self.reply_attr(ino, st)
            },
            _ => fail(Errno::EIO),
        }
    }

    // -----------------------------------------------------------------------
    // Getting a file into the disk cache
    // -----------------------------------------------------------------------

    /// Goes on with getting the file at `path` into the local disk cache.
    fn ensure_cached(&mut self, path: &str, file: &str, phase: CachePhase, event: FsEvent) -> (r:
        CacheStep)
        requires
            old(self).wf(),
            old(self)@.cache_accepts(file@, phase, event@),
        ensures
            final(self).wf(),
            final(self)@ == old(self)@.cache_next(path@, file@, phase, event@).0,
            r.says(old(self)@.cache_next(path@, file@, phase, event@).1),
    {
        match phase {
            CachePhase::Present => match event {
                Event::Flag(true) => CacheStep::Ready,
                Event::Flag(false) => CacheStep::Ask(
                    Action::Download {
                        path: path.to_owned(),
                        file: file.to_owned(),
                        max_bytes: self.shared.disk_cache.max_size(),
                    },
                    CachePhase::Downloaded,
                ),
                _ => CacheStep::Broken,
            },
            CachePhase::Downloaded => match event {
                Event::Flag(true) => CacheStep::Ask(
                    Action::Size { file: file.to_owned() },
                    CachePhase::Sized,
                ),
                Event::Flag(false) => CacheStep::Ready,
                _ => CacheStep::Broken,
            },
            CachePhase::Sized => match event {
                Event::Size(size) => {
                    let files = self.put_file(file, size);
                    CacheStep::Ask(Action::Remove { files }, CachePhase::Evicted)
                },
                _ => CacheStep::Broken,
            },
            CachePhase::Evicted => match event {
                Event::Unit => CacheStep::Ready,
                _ => CacheStep::Broken,
            },
        }
    }

    // -----------------------------------------------------------------------
    // setattr
    // -----------------------------------------------------------------------

    /// Changes the attributes of an inode. `now` is the present, in seconds after the epoch.
    pub fn setattr(
        &mut self,
        ino: u64,
        mode: Option<u32>,
        uid: Option<u32>,
        gid: Option<u32>,
        size: Option<u64>,
        atime: Option<TimeOrNow>,
        mtime: Option<TimeOrNow>,
        now: u64,
    ) -> (step: FsStep)
        requires
            old(self).wf(),
        ensures
            final(self).wf(),
            (final(self)@, step@) == old(self)@.setattr(
                ino,
                (AttrChange {
                    size,
                    uid,
                    gid,
                    perm: mode,
                    atime: secs_of(atime, now),
                    mtime: secs_of(mtime, now),
                }),
            ),
    {
        let path = match self.inodes.path_of(ino) {
            Some(p) => p,
            None => {
                return fail(Errno::ENOENT);
            },
        };
        let change = AttrChange {
            size,
            uid,
            gid,
            perm: mode,
            atime: time_secs(atime, now),
            mtime: time_secs(mtime, now),
        };
        let file = self.file_of(path.as_str());
        if size.is_some() {
            Step::Perform(
                Action::Lock { path: path.clone() },
                Pending::SetAttr { ino, path, file, change, phase: SetAttrPhase::Locked },
            )
        } else {
            Step::Perform(
                Action::SetStat { path: path.clone(), change },
                Pending::SetAttr { ino, path, file, change, phase: SetAttrPhase::Applied },
            )
        }
    }

    fn setattr_next(
        &mut self,
        ino: u64,
        path: String,
        file: String,
        change: AttrChange,
        phase: SetAttrPhase,
        event: FsEvent,
    ) -> (step: FsStep)
        requires
            old(self).wf(),
            phase matches SetAttrPhase::Caching(c) ==> old(self)@.cache_accepts(file@, c, event@),
        ensures
            final(self).wf(),
            (final(self)@, step@) == old(self)@.setattr_next(
                ino,
                path@,
                file@,
                change,
                phase,
                event@,
            ),
    {
        let (action, phase) = match phase {
            SetAttrPhase::Locked => match event {
                Event::Unit => (
                    Action::Exists { file: file.clone() },
                    SetAttrPhase::Caching(CachePhase::Present),
                ),
                _ => {
                    return fail(Errno::EIO);
                },
            },
            SetAttrPhase::Caching(c) => match self.ensure_cached(
                path.as_str(),
                file.as_str(),
                c,
                event,
            ) {
                CacheStep::Ask(a, n) => (a, SetAttrPhase::Caching(n)),
                CacheStep::Ready => match change.size {
                    Some(size) => (
                        Action::Truncate { file: file.clone(), size },
                        SetAttrPhase::Truncated,
                    ),
                    None => {
                        return fail(Errno::EIO);
                    },
                },
                CacheStep::Broken => {
                    return fail(Errno::EIO);
                },
            },
            SetAttrPhase::Truncated => match event {
                Event::Unit => (Action::Unlock, SetAttrPhase::Unlocked),
                _ => {
                    return fail(Errno::EIO);
                },
            },
            SetAttrPhase::Unlocked => match event {
                Event::Unit => (
                    Action::SetStat { path: path.clone(), change },
                    SetAttrPhase::Applied,
                ),
                _ => {
                    return fail(Errno::EIO);
                },
            },
            SetAttrPhase::Applied => match event {
                Event::Flag(true) => {
                    self.drop_attr(path.as_str());
                    (Action::Stat { path: path.clone() }, SetAttrPhase::Fetched)
                },
                _ => {
                    return fail(Errno::EIO);
                },
            },
            SetAttrPhase::Fetched => match event {
                Event::Stat(st) => {
                    self.put_attr(path.as_str(), st);
                    return self.reply_attr(ino, st);
                },
                _ => {
                    return fail(Errno::EIO);
                },
            },
        };
        Step::Perform(action, Pending::SetAttr { ino, path, file, change, phase })
    }

    // -----------------------------------------------------------------------
    // read
    // -----------------------------------------------------------------------

    /// Reads a slice of a file: from the disk cache, or else from the remote.
    pub fn read(&mut self, ino: u64, offset: u64, size: u32) -> (step: FsStep)
        requires
            old(self).wf(),
        ensures
            final(self).wf(),
            (final(self)@, step@) == old(self)@.read(ino, offset, size),
    {
        match self.inodes.path_of(ino) {
            Some(path) => {
                let file = self.file_of(path.as_str());
                self.renew_file(file.as_str());
                Step::Perform(
                    Action::TryLock { path: path.clone() },
                    Pending::Read { path, file, offset, size, phase: ReadPhase::Tried },
                )
            },
            None => fail(Errno::ENOENT),
        }
    }

    fn read_next(
        &self,
        path: String,
        file: String,
        offset: u64,
        size: u32,
        phase: ReadPhase,
        event: FsEvent,
    ) -> (step: FsStep)
        ensures
            (self@, step@) == self@.read_next(path@, file@, offset, size, phase, event@),
    {
        let (action, phase) = match phase {
            ReadPhase::Tried => match event {
                Event::Flag(true) => (Action::Exists { file: file.clone() }, ReadPhase::Present),
                Event::Flag(false) => (Action::IsLocked { path: path.clone() }, ReadPhase::Asked),
                _ => {
                    return fail(Errno::EIO);
                },
            },
            ReadPhase::Present => match event {
                Event::Flag(true) => (
                    Action::ReadFile { file: file.clone(), offset, size },
                    ReadPhase::Cached,
                ),
                Event::Flag(false) => (Action::Unlock, ReadPhase::Unlocked),
                _ => {
                    return fail(Errno::EIO);
                },
            },
            ReadPhase::Cached => match event {
                Event::Data(Some(d)) => {
                    return reply(Reply::Data(d));
                },
                Event::Data(None) => (Action::Unlock, ReadPhase::Unlocked),
                _ => {
                    return fail(Errno::EIO);
                },
            },
            ReadPhase::Unlocked => match event {
                Event::Unit => (Action::IsLocked { path: path.clone() }, ReadPhase::Asked),
                _ => {
                    return fail(Errno::EIO);
                },
            },
            ReadPhase::Asked => match event {
                Event::Flag(false) => (
                    Action::Spawn(Task::FetchFile { path: path.clone() }),
                    ReadPhase::Spawned,
                ),
                Event::Flag(true) => (
                    Action::ReadAt { path: path.clone(), offset, size },
                    ReadPhase::Remote,
                ),
                _ => {
                    return fail(Errno::EIO);
                },
            },
            ReadPhase::Spawned => match event {
                Event::Unit => (
                    Action::ReadAt { path: path.clone(), offset, size },
                    ReadPhase::Remote,
                ),
                _ => {
                    return fail(Errno::EIO);
                },
            },
            ReadPhase::Remote => match event {
                Event::Data(Some(d)) => {
                    return reply(Reply::Data(d));
                },
                _ => {
                    return fail(Errno::EIO);
                },
            },
        };
        Step::Perform(action, Pending::Read { path, file, offset, size, phase })
    }

    // -----------------------------------------------------------------------
    // write
    // -----------------------------------------------------------------------

    /// Writes to a file: to the disk cache at once, to the remote in the background.
    pub fn write(&mut self, ino: u64, offset: u64, data: Vec<u8>) -> (step: FsStep)
        requires
            old(self).wf(),
        ensures
            final(self).wf(),
            (final(self)@, step@) == old(self)@.write(ino, offset, data@),
    {
        match self.inodes.path_of(ino) {
            Some(path) => {
                let file = self.file_of(path.as_str());
                Step::Perform(
                    Action::Lock { path: path.clone() },
                    Pending::Write { path, file, offset, data, phase: WritePhase::Locked },
                )
            },
            None => fail(Errno::ENOENT),
        }
    }

    /// Updates the size in the attribute cache.
    fn measure(&mut self, path: &str, size: Option<u64>)
        requires
            old(self).wf(),
        ensures
            final(self).wf(),
            final(self)@ == old(self)@.measured(path@, size),
    {
        match size {
            Some(n) => match self.cached_attr(path) {
                Some(Some(st)) => {
                    self.put_attr(path, Some(StatData { size: n, ..st }));
                },
                _ => {},
            },
            None => {},
        }
    }

    fn write_next(
        &mut self,
        path: String,
        file: String,
        offset: u64,
        data: Vec<u8>,
        phase: WritePhase,
        event: FsEvent,
    ) -> (step: FsStep)
        requires
            old(self).wf(),
            phase matches WritePhase::Caching(c) ==> old(self)@.cache_accepts(file@, c, event@),
            phase is Recorded ==> (event matches Event::Size(size) ==> old(self)@.fits(file@, size)),
        ensures
            final(self).wf(),
            (final(self)@, step@) == old(self)@.write_next(
                path@,
                file@,
                offset,
                data@,
                phase,
                event@,
            ),
    {
        let (action, phase) = match phase {
            WritePhase::Locked => match event {
                Event::Unit => (
                    Action::Exists { file: file.clone() },
                    WritePhase::Caching(CachePhase::Present),
                ),
                _ => {
                    return fail(Errno::EIO);
                },
            },
            WritePhase::Caching(c) => match self.ensure_cached(
                path.as_str(),
                file.as_str(),
                c,
                event,
            ) {
                CacheStep::Ask(a, n) => (a, WritePhase::Caching(n)),
                CacheStep::Ready => {
                    let copy = clone_bytes(&data);
                    (
                        Action::WriteFile { file: file.clone(), offset, data: copy },
                        WritePhase::Stored,
                    )
                },
                CacheStep::Broken => {
                    return fail(Errno::EIO);
                },
            },
            WritePhase::Stored => match event {
                Event::Flag(true) => (Action::Size { file: file.clone() }, WritePhase::Measured),
                _ => {
                    return fail(Errno::EIO);
                },
            },
            WritePhase::Measured => match event {
                Event::Size(size) => {
                    self.measure(path.as_str(), size);
                    (Action::Unlock, WritePhase::Unlocked)
                },
                _ => {
                    return fail(Errno::EIO);
                },
            },
            WritePhase::Unlocked => match event {
                Event::Unit => {
                    let copy = clone_bytes(&data);
                    (
                        Action::Spawn(
                            Task::AsyncWrite {
                                path: path.clone(),
                                offset,
                                data: copy,
                                file: file.clone(),
                            },
                        ),
                        WritePhase::Spawned,
                    )
                },
                _ => {
                    return fail(Errno::EIO);
                },
            },
            WritePhase::Spawned => match event {
                Event::Unit => (Action::Size { file: file.clone() }, WritePhase::Recorded),
                _ => {
                    return fail(Errno::EIO);
                },
            },
            WritePhase::Recorded => match event {
                Event::Size(size) => {
                    let files = self.put_file(file.as_str(), size);
                    (Action::Remove { files }, WritePhase::Trimmed)
                },
                _ => {
                    return fail(Errno::EIO);
                },
            },
            WritePhase::Trimmed => match event {
                Event::Unit => {
                    return reply(Reply::Written(data.len() as u32));
                },
                _ => {
                    return fail(Errno::EIO);
                },
            },
        };
        Step::Perform(action, Pending::Write { path, file, offset, data, phase })
    }

    // -----------------------------------------------------------------------
    // readdir
    // -----------------------------------------------------------------------

    /// Appends the children of a directory to its entries.
    fn push_children(&mut self, path: &str, names: Vec<String>, all: &mut Vec<DirEntry<String>>)
        requires
            old(self).wf(),
            old(self)@.inodes.next + names@.len() <= u64::MAX,
        ensures
            final(self).wf(),
            final(self)@ == old(self)@.children(path@, views(names@)).0,
            triples(final(all)@) == triples(old(all)@) + old(self)@.children(
                path@,
                views(names@),
            ).1,
    {
        let ghost s = self@;
        let ghost before = triples(all@);
        let ghost v = views(names@);
        let mut i: usize = 0;
        proof {
            assert(v.take(0) =~= Seq::<Seq<char>>::empty());
            assert(triples(all@) =~= before + s.children(path@, v.take(0)).1);
        }
        while i < names.len()
            invariant
                self.wf(),
                v == views(names@),
                i <= names@.len(),
                self@.inodes.next + (names@.len() - i) <= u64::MAX,
                self@ == s.children(path@, v.take(i as int)).0,
                triples(all@) == before + s.children(path@, v.take(i as int)).1,
            decreases names@.len() - i,
        {
            let ghost t = self@;
            let ghost had = all@;
            let child = path_join(path, names[i].as_str());
            let ino = self.give_ino(child.as_str());
            let kind = match self.cached_attr(child.as_str()) {
                Some(Some(st)) => {
                    let bits: u32 = st.perm & TYPE_BITS;
                    if bits == 0o040000 {
                        FileType::Directory
                    } else if bits == 0o120000 {
                        FileType::Symlink
                    } else {
                        FileType::RegularFile
                    }
                },
                _ => FileType::RegularFile,
            };
            all.push(DirEntry { ino, offset: 0, kind, name: names[i].clone() });
            proof {
                assert(v.take(i + 1).drop_last() =~= v.take(i as int));
                assert(v.take(i + 1).last() == names@[i as int]@);
                assert(triples(all@) =~= triples(had).push((ino, kind, names@[i as int]@)));
                assert(before + s.children(path@, v.take(i + 1)).1 =~= (before + s.children(
                    path@,
                    v.take(i as int),
                ).1).push((ino, kind, names@[i as int]@)));
            }
            i = i + 1;
        }
        assert(v.take(i as int) =~= v);
    }

    /// Lists a directory, from `offset` on.
    pub fn readdir(&mut self, ino: u64, offset: u64) -> (step: FsStep)
        requires
            old(self).wf(),
            old(self)@.roomy(),
        ensures
            final(self).wf(),
            (final(self)@, step@) == old(self)@.readdir(ino, offset),
    {
        let path = match self.inodes.path_of(ino) {
            Some(p) => p,
            None => {
                return fail(Errno::ENOENT);
            },
        };
        let cached = self.cached_dir(path.as_str());
        let parent = parent_path(path.as_str());
        let parent_ino = self.give_ino(parent.as_str());
        let mut all: Vec<DirEntry<String>> = Vec::new();
        all.push(DirEntry { ino, offset: 0, kind: FileType::Directory, name: ".".to_owned() });
        all.push(
            DirEntry { ino: parent_ino, offset: 0, kind: FileType::Directory, name: "..".to_owned() },
        );
        proof {
            reveal_strlit(".");
            reveal_strlit("..");
            assert("."@ =~= dot());
            assert(".."@ =~= dotdot());
            assert(triples(all@) =~= old(self)@.dots(ino, path@));
        }
        match cached {
            Some(names) => {
                self.push_children(path.as_str(), names, &mut all);
                reply(Reply::Directory(entries_at(all, offset)))
            },
            None => {
                let r = Reply::Directory(entries_at(all, offset));
                if self.shared.fetching_dirs.insert(path.clone()) {
                    Step::ReplyAndSpawn(r, Task::FetchDir { ino, path })
                } else {
                    assert(self@.fetching =~= old(self)@.fetching);
                    reply(r)
                }
            },
        }
    }

    /// Fetches a directory listing into the caches.
    pub fn fetch_dir(&mut self, ino: u64, path: String) -> (step: FsStep)
        requires
            old(self).wf(),
        ensures
            final(self).wf(),
            (final(self)@, step@) == old(self)@.fetch_dir(ino, path@),
    {
        Step::Perform(
            Action::ReadDir { path: path.clone() },
            Pending::FetchDir { ino, path, phase: FetchDirPhase::Listed },
        )
    }

    /// Puts the attributes of the children of a directory into the cache.
    fn put_attrs(&mut self, path: &str, l: &Vec<(String, StatData)>)
        requires
            old(self).wf(),
        ensures
            final(self).wf(),
            final(self)@ == old(self)@.attrs_put(path@, listing(l@)),
    {
        let ghost s = self@;
        let ghost v = listing(l@);
        let mut i: usize = 0;
        assert(v.take(0) =~= Seq::<(Seq<char>, StatData)>::empty());
        while i < l.len()
            invariant
                self.wf(),
                v == listing(l@),
                i <= l@.len(),
                self@ == s.attrs_put(path@, v.take(i as int)),
            decreases l@.len() - i,
        {
            let (name, stat) = &l[i];
            proof {
                assert(v.take(i + 1).drop_last() =~= v.take(i as int));
                assert(v.take(i + 1).last() == (name@, *stat));
            }
            self.put_attr(path_join(path, name.as_str()).as_str(), Some(*stat));
            i = i + 1;
        }
        assert(v.take(i as int) =~= v);
    }

    fn fetch_dir_next(&mut self, ino: u64, path: String, phase: FetchDirPhase, event: FsEvent) -> (
        step: FsStep)
        requires
            old(self).wf(),
            event@ matches Event::Listing(Some(l)) ==> l.len() <= MAX_LISTING,
        ensures
            final(self).wf(),
            (final(self)@, step@) == old(self)@.fetch_dir_next(ino, path@, phase, event@),
    {
        match (phase, event) {
            (FetchDirPhase::Listed, Event::Listing(Some(l))) => {
                let names = names_of(&l);
                self.put_dir(path.as_str(), names);
                self.put_attrs(path.as_str(), &l);
                Step::Perform(
                    Action::Invalidate { ino },
                    Pending::FetchDir { ino, path, phase: FetchDirPhase::Invalidated },
                )
            },
            _ => {
                self.shared.fetching_dirs.remove(path.as_str());
                reply(Reply::Finished)
            },
        }
    }

    // -----------------------------------------------------------------------
    // readlink and statfs
    // -----------------------------------------------------------------------

    /// Reads the target of a symbolic link.
    pub fn readlink(&mut self, ino: u64) -> (step: FsStep)
        requires
            old(self).wf(),
        ensures
            final(self).wf(),
            (final(self)@, step@) == old(self)@.readlink(ino),
    {
        match self.inodes.path_of(ino) {
            Some(path) => Step::Perform(Action::ReadLink { path }, Pending::ReadLink),
            None => fail(Errno::ENOENT),
        }
    }

    fn readlink_next(&self, event: FsEvent) -> (step: FsStep)
        ensures
            (self@, step@) == self@.readlink_next(event@),
    {
        match event {
            Event::Link(Some(target)) => reply(Reply::Link(target)),
            _ => fail(Errno::EIO),
        }
    }

    /// Asks for the totals of the filesystem.
    pub fn statfs(&mut self) -> (step: FsStep)
        requires
            old(self).wf(),
        ensures
            final(self).wf(),
            (final(self)@, step@) == old(self)@.asks(Action::StatFs, Pending::StatFs),
    {
        Step::Perform(Action::StatFs, Pending::StatFs)
    }

    fn statfs_next(&self, event: FsEvent) -> (step: FsStep)
        ensures
            (self@, step@) == self@.statfs_next(event@),
    {
        match event {
            Event::Capacity(c) => {
                let (total, free): (u64, u64) = match c {
                    Some(v) => v,
                    None => (0, 0),
                };
                reply(
                    Reply::StatFs(
                        StatFs {
                            blocks: total / 4096,
                            bfree: free / 4096,
                            bavail: free / 4096,
                            files: 0,
                            ffree: 0,
                            bsize: 4096,
                            namelen: 255,
                            frsize: 4096,
                        },
                    ),
                )
            },
            _ => fail(Errno::EIO),
        }
    }

    // -----------------------------------------------------------------------
    // create, mkdir and symlink
    // -----------------------------------------------------------------------

    /// Creates a file.
    pub fn create(&mut self, parent: u64, name: Option<&str>, mode: u32, uid: u32, gid: u32) -> (
        step: FsStep)
        requires
            old(self).wf(),
        ensures
            final(self).wf(),
            (final(self)@, step@) == old(self)@.create(parent, opt_text(name), mode, uid, gid),
    {
        match (self.inodes.path_of(parent), name) {
            (Some(parent), Some(name)) => {
                let path = path_join(parent.as_str(), name);
                let file = self.file_of(path.as_str());
                Step::Perform(
                    Action::Lock { path: path.clone() },
                    Pending::Create { parent, path, file, mode, uid, gid, phase: CreatePhase::Locked },
                )
            },
            _ => fail(Errno::ENOENT),
        }
    }

    /// Gives a new file its inode, and replies its attributes.
    fn made(
        &mut self,
        parent: &str,
        path: &str,
        kind: FileType,
        size: u64,
        perm: u16,
        uid: u32,
        gid: u32,
    ) -> (step: FsStep)
        requires
            old(self).wf(),
            old(self)@.roomy(),
        ensures
            final(self).wf(),
            (final(self)@, step@) == old(self)@.made(parent@, path@, kind, size, perm, uid, gid),
    {
        self.note_change(path, parent);
        let ino = self.give_ino(path);
        let attr = new_file_attr(ino, kind, size, perm, uid, gid);
        if kind == FileType::RegularFile {
            reply(Reply::Created(attr))
        } else {
            reply(Reply::Entry(attr))
        }
    }

    fn create_next(
        &mut self,
        parent: String,
        path: String,
        file: String,
        mode: u32,
        uid: u32,
        gid: u32,
        phase: CreatePhase,
        event: FsEvent,
    ) -> (step: FsStep)
        requires
            old(self).wf(),
            old(self)@.roomy(),
        ensures
            final(self).wf(),
            (final(self)@, step@) == old(self)@.create_next(
                parent@,
                path@,
                file@,
                mode,
                uid,
                gid,
                phase,
                event@,
            ),
    {
        match (phase, event) {
            (CreatePhase::Locked, Event::Unit) => Step::Perform(
                Action::CreateEmpty { file: file.clone() },
                Pending::Create { parent, path, file, mode, uid, gid, phase: CreatePhase::Emptied },
            ),
            (CreatePhase::Emptied, Event::Unit) => Step::Perform(
                Action::CreateFile { path: path.clone(), mode },
                Pending::Create { parent, path, file, mode, uid, gid, phase: CreatePhase::Made },
            ),
            (CreatePhase::Made, Event::Flag(true)) => self.made(
                parent.as_str(),
                path.as_str(),
                FileType::RegularFile,
                0,
                (mode & PERMISSION_BITS) as u16,
                uid,
                gid,
            ),
            _ => fail(Errno::EIO),
        }
    }

    /// Creates a directory.
    pub fn mkdir(&mut self, parent: u64, name: Option<&str>, mode: u32, uid: u32, gid: u32) -> (
        step: FsStep)
        requires
            old(self).wf(),
        ensures
            final(self).wf(),
            (final(self)@, step@) == old(self)@.mkdir(parent, opt_text(name), mode, uid, gid),
    {
        match (self.inodes.path_of(parent), name) {
            (Some(parent), Some(name)) => {
                let path = path_join(parent.as_str(), name);
                Step::Perform(
                    Action::CreateDir { path: path.clone(), mode },
                    Pending::MkDir { parent, path, mode, uid, gid },
                )
            },
            _ => fail(Errno::ENOENT),
        }
    }

    fn mkdir_next(
        &mut self,
        parent: String,
        path: String,
        mode: u32,
        uid: u32,
        gid: u32,
        event: FsEvent,
    ) -> (step: FsStep)
        requires
            old(self).wf(),
            old(self)@.roomy(),
        ensures
            final(self).wf(),
            (final(self)@, step@) == old(self)@.mkdir_next(
                parent@,
                path@,
                mode,
                uid,
                gid,
                event@,
            ),
    {
        match event {
            Event::Flag(true) => self.made(
                parent.as_str(),
                path.as_str(),
                FileType::Directory,
                0,
                (mode & PERMISSION_BITS) as u16,
                uid,
                gid,
            ),
            _ => fail(Errno::EIO),
        }
    }

    /// Makes a symbolic link to `target`.
    pub fn symlink(
        &mut self,
        parent: u64,
        name: Option<&str>,
        target: String,
        uid: u32,
        gid: u32,
    ) -> (step: FsStep)
        requires
            old(self).wf(),
        ensures
            final(self).wf(),
            (final(self)@, step@) == old(self)@.symlink(
                parent,
                opt_text(name),
                target@,
                uid,
                gid,
            ),
    {
        match (self.inodes.path_of(parent), name) {
            (None, _) => fail(Errno::ENOENT),
            (_, None) => fail(Errno::EINVAL),
            (Some(parent), Some(name)) => {
                let path = path_join(parent.as_str(), name);
                Step::Perform(
                    Action::Symlink { target: target.clone(), link: path.clone() },
                    Pending::Symlink { parent, path, target, uid, gid },
                )
            },
        }
    }

    fn symlink_next(
        &mut self,
        parent: String,
        path: String,
        target: String,
        uid: u32,
        gid: u32,
        event: FsEvent,
    ) -> (step: FsStep)
        requires
            old(self).wf(),
            old(self)@.roomy(),
        ensures
            final(self).wf(),
            (final(self)@, step@) == old(self)@.symlink_next(
                parent@,
                path@,
                target@,
                uid,
                gid,
                event@,
            ),
    {
        match event {
            Event::Flag(true) => {
                let size: usize = target.as_str().as_bytes().len();
                self.made(
                    parent.as_str(),
                    path.as_str(),
                    FileType::Symlink,
                    size as u64,
                    0o777,
                    uid,
                    gid,
                )
            },
            _ => fail(Errno::ENOTSUP),
        }
    }

    // -----------------------------------------------------------------------
    // unlink, rmdir and rename
    // -----------------------------------------------------------------------

    /// Deletes a file.
    pub fn unlink(&mut self, parent: u64, name: Option<&str>) -> (step: FsStep)
        requires
            old(self).wf(),
        ensures
            final(self).wf(),
            (final(self)@, step@) == old(self)@.unlink(parent, opt_text(name)),
    {
        match (self.inodes.path_of(parent), name) {
            (None, _) => fail(Errno::ENOENT),
            (_, None) => fail(Errno::EINVAL),
            (Some(parent), Some(name)) => {
                let path = path_join(parent.as_str(), name);
                let file = self.file_of(path.as_str());
                Step::Perform(
                    Action::DeleteFile { path: path.clone() },
                    Pending::Unlink { parent, path, file, phase: UnlinkPhase::Deleted },
                )
            },
        }
    }

    fn unlink_next(
        &mut self,
        parent: String,
        path: String,
        file: String,
        phase: UnlinkPhase,
        event: FsEvent,
    ) -> (step: FsStep)
        requires
            old(self).wf(),
        ensures
            final(self).wf(),
            (final(self)@, step@) == old(self)@.unlink_next(parent@, path@, file@, phase, event@),
    {
        match (phase, event) {
            (UnlinkPhase::Deleted, Event::Flag(true)) => Step::Perform(
                Action::Lock { path: path.clone() },
                Pending::Unlink { parent, path, file, phase: UnlinkPhase::Locked },
            ),
            (UnlinkPhase::Locked, Event::Unit) => {
                self.pop_file(file.as_str());
                self.note_change(path.as_str(), parent.as_str());
                self.drop_ino(path.as_str());
                Step::Perform(
                    Action::Remove { files: one(&file) },
                    Pending::Unlink { parent, path, file, phase: UnlinkPhase::Removed },
                )
            },
            (UnlinkPhase::Removed, Event::Unit) => reply(Reply::Done),
            _ => fail(Errno::EIO),
        }
    }

    /// Deletes a directory.
    pub fn rmdir(&mut self, parent: u64, name: Option<&str>) -> (step: FsStep)
        requires
            old(self).wf(),
        ensures
            final(self).wf(),
            (final(self)@, step@) == old(self)@.rmdir(parent, opt_text(name)),
    {
        match (self.inodes.path_of(parent), name) {
            (None, _) => fail(Errno::ENOENT),
            (_, None) => fail(Errno::EINVAL),
            (Some(parent), Some(name)) => {
                let path = path_join(parent.as_str(), name);
                Step::Perform(
                    Action::DeleteDir { path: path.clone() },
                    Pending::RmDir { parent, path },
                )
            },
        }
    }

    fn rmdir_next(&mut self, parent: String, path: String, event: FsEvent) -> (step: FsStep)
        requires
            old(self).wf(),
        ensures
            final(self).wf(),
            (final(self)@, step@) == old(self)@.rmdir_next(parent@, path@, event@),
    {
        match event {
            Event::Flag(true) => {
                self.note_change(path.as_str(), parent.as_str());
                self.drop_ino(path.as_str());
                reply(Reply::Done)
            },
            _ => fail(Errno::EIO),
        }
    }

    /// Moves a file or a directory.
    pub fn rename(
        &mut self,
        parent: u64,
        name: Option<&str>,
        new_parent: u64,
        new_name: Option<&str>,
    ) -> (step: FsStep)
        requires
            old(self).wf(),
        ensures
            final(self).wf(),
            (final(self)@, step@) == old(self)@.rename(
                parent,
                opt_text(name),
                new_parent,
                opt_text(new_name),
            ),
    {
        match (self.inodes.path_of(parent), self.inodes.path_of(new_parent)) {
            (Some(parent), Some(new_parent)) => match (name, new_name) {
                (Some(name), Some(new_name)) => {
                    let before = path_join(parent.as_str(), name);
                    let after = path_join(new_parent.as_str(), new_name);
                    let before_file = self.file_of(before.as_str());
                    let after_file = self.file_of(after.as_str());
                    Step::Perform(
                        Action::Rename { before: before.clone(), after: after.clone() },
                        Pending::Rename {
                            parent,
                            before,
                            before_file,
                            new_parent,
                            after,
                            after_file,
                            phase: RenamePhase::Moved,
                        },
                    )
                },
                _ => fail(Errno::EINVAL),
            },
            _ => fail(Errno::ENOENT),
        }
    }

    fn rename_next(
        &mut self,
        parent: String,
        before: String,
        before_file: String,
        new_parent: String,
        after: String,
        after_file: String,
        phase: RenamePhase,
        event: FsEvent,
    ) -> (step: FsStep)
        requires
            old(self).wf(),
        ensures
            final(self).wf(),
            (final(self)@, step@) == old(self)@.rename_next(
                parent@,
                before@,
                before_file@,
                new_parent@,
                after@,
                after_file@,
                phase,
                event@,
            ),
    {
        let (action, phase) = match (phase, event) {
            (RenamePhase::Moved, Event::Flag(true)) => (
                Action::Lock { path: before.clone() },
                RenamePhase::SourceLocked,
            ),
            (RenamePhase::SourceLocked, Event::Unit) => {
                self.pop_file(before_file.as_str());
                self.note_change(before.as_str(), parent.as_str());
                (Action::Remove { files: one(&before_file) }, RenamePhase::SourceRemoved)
            },
            (RenamePhase::SourceRemoved, Event::Unit) => (
                Action::Unlock,
                RenamePhase::SourceUnlocked,
            ),
            (RenamePhase::SourceUnlocked, Event::Unit) => (
                Action::Lock { path: after.clone() },
                RenamePhase::TargetLocked,
            ),
            (RenamePhase::TargetLocked, Event::Unit) => {
                self.pop_file(after_file.as_str());
                self.note_change(after.as_str(), new_parent.as_str());
                (Action::Remove { files: one(&after_file) }, RenamePhase::TargetRemoved)
            },
            (RenamePhase::TargetRemoved, Event::Unit) => (
                Action::Unlock,
                RenamePhase::TargetUnlocked,
            ),
            (RenamePhase::TargetUnlocked, Event::Unit) => {
                self.move_ino(before.as_str(), after.as_str());
                return reply(Reply::Done);
            },
            _ => {
                return fail(Errno::EIO);
            },
        };
        Step::Perform(
            action,
            Pending::Rename { parent, before, before_file, new_parent, after, after_file, phase },
        )
    }

    // -----------------------------------------------------------------------
    // Background tasks
    // -----------------------------------------------------------------------

    /// Downloads a file into the disk cache.
    pub fn fetch_file(&mut self, path: String) -> (step: FsStep)
        requires
            old(self).wf(),
        ensures
            final(self).wf(),
            (final(self)@, step@) == old(self)@.fetch_file(path@),
    {
        let file = self.file_of(path.as_str());
        Step::Perform(
            Action::Lock { path: path.clone() },
            Pending::FetchFile { path, file, phase: FetchFilePhase::Locked },
        )
    }

    fn fetch_file_next(
        &mut self,
        path: String,
        file: String,
        phase: FetchFilePhase,
        event: FsEvent,
    ) -> (step: FsStep)
        requires
            old(self).wf(),
            phase matches FetchFilePhase::Caching(c) ==> old(self)@.cache_accepts(file@, c, event@),
        ensures
            final(self).wf(),
            (final(self)@, step@) == old(self)@.fetch_file_next(path@, file@, phase, event@),
    {
        match phase {
            FetchFilePhase::Locked => match event {
                Event::Unit => Step::Perform(
                    Action::Exists { file: file.clone() },
                    Pending::FetchFile {
                        path,
                        file,
                        phase: FetchFilePhase::Caching(CachePhase::Present),
                    },
                ),
                _ => reply(Reply::Finished),
            },
            FetchFilePhase::Caching(c) => match self.ensure_cached(
                path.as_str(),
                file.as_str(),
                c,
                event,
            ) {
                CacheStep::Ask(a, n) => Step::Perform(
                    a,
                    Pending::FetchFile { path, file, phase: FetchFilePhase::Caching(n) },
                ),
                _ => reply(Reply::Finished),
            },
        }
    }

    /// Refreshes the attributes of a path that were cached when the round began.
    pub fn renew_attr(&mut self, path: String, cached: Option<StatData>) -> (step: FsStep)
        requires
            old(self).wf(),
        ensures
            final(self).wf(),
            (final(self)@, step@) == old(self)@.renew_attr(path@, cached),
    {
        let file = self.file_of(path.as_str());
        Step::Perform(
            Action::TryLock { path: path.clone() },
            Pending::RenewAttr { path, file, cached, phase: RenewPhase::Tried },
        )
    }

    fn renew_attr_next(
        &mut self,
        path: String,
        file: String,
        cached: Option<StatData>,
        phase: RenewPhase,
        event: FsEvent,
    ) -> (step: FsStep)
        requires
            old(self).wf(),
        ensures
            final(self).wf(),
            (final(self)@, step@) == old(self)@.renew_attr_next(
                path@,
                file@,
                cached,
                phase,
                event@,
            ),
    {
        match (phase, event) {
            (RenewPhase::Tried, Event::Flag(true)) => Step::Perform(
                Action::Stat { path: path.clone() },
                Pending::RenewAttr { path, file, cached, phase: RenewPhase::Fetched },
            ),
            (RenewPhase::Fetched, Event::Stat(remote)) => {
                let stale = match (cached, remote) {
                    (_, None) => true,
                    (Some(a), Some(b)) => a.size != b.size,
                    (None, Some(_)) => false,
                };
                if stale {
                    self.pop_file(file.as_str());
                }
                self.put_attr(path.as_str(), remote);
                if stale {
                    Step::Perform(
                        Action::Remove { files: one(&file) },
                        Pending::RenewAttr { path, file, cached, phase: RenewPhase::Removed },
                    )
                } else {
                    reply(Reply::Finished)
                }
            },
            _ => reply(Reply::Finished),
        }
    }

    /// Refreshes a listing that was cached when the round began.
    pub fn renew_dir(&mut self, path: String, cached: Vec<String>) -> (step: FsStep)
        requires
            old(self).wf(),
        ensures
            final(self).wf(),
            (final(self)@, step@) == old(self)@.renew_dir(path@, views(cached@)),
    {
        Step::Perform(
            Action::ReadDir { path: path.clone() },
            Pending::RenewDir { path, cached },
        )
    }

    fn renew_dir_next(&mut self, path: String, cached: Vec<String>, event: FsEvent) -> (step:
        FsStep)
        requires
            old(self).wf(),
            event@ matches Event::Listing(Some(l)) ==> l.len() <= MAX_LISTING,
        ensures
            final(self).wf(),
            (final(self)@, step@) == old(self)@.renew_dir_next(path@, views(cached@), event@),
    {
        match event {
            Event::Listing(Some(l)) => {
                let mut local = cached;
                let mut remote = names_of(&l);
                sort_names(&mut local);
                sort_names(&mut remote);
                if !same_names(&local, &remote) {
                    self.put_dir(path.as_str(), remote);
                }
                reply(Reply::Finished)
            },
            _ => reply(Reply::Finished),
        }
    }

    // -----------------------------------------------------------------------
    // All requests
    // -----------------------------------------------------------------------

    fn cache_fits(&self, file: &str, phase: CachePhase, event: &FsEvent) -> (r: bool)
        requires
            self.wf(),
        ensures
            r == self@.cache_accepts(file@, phase, event@),
    {
        match (phase, event) {
            (CachePhase::Sized, Event::Size(Some(n))) => self.shared.disk_cache.fits(file, *n),
            _ => true,
        }
    }

    /// Tells whether an event can be counted in.
    pub fn can_resume(&self, pending: &FsPending, event: &FsEvent) -> (r: bool)
        requires
            self.wf(),
        ensures
            r == self@.accepts(pending@, event@),
    {
        let short = match event {
            Event::Listing(Some(l)) => l.len() as u64 <= MAX_LISTING,
            _ => true,
        };
        short && match pending {
            Pending::SetAttr { file, phase, .. } => match *phase {
                SetAttrPhase::Caching(c) => self.cache_fits(file.as_str(), c, event),
                _ => true,
            },
            Pending::Write { file, phase, .. } => match *phase {
                WritePhase::Caching(c) => self.cache_fits(file.as_str(), c, event),
                WritePhase::Recorded => match event {
                    Event::Size(Some(n)) => self.shared.disk_cache.fits(file.as_str(), *n),
                    _ => true,
                },
                _ => true,
            },
            Pending::FetchFile { file, phase, .. } => match *phase {
                FetchFilePhase::Caching(c) => self.cache_fits(file.as_str(), c, event),
                _ => true,
            },
            _ => true,
        }
    }

    /// Goes on with a pending request.
    pub fn resume(&mut self, pending: FsPending, event: FsEvent) -> (step: FsStep)
        requires
            old(self).wf(),
            old(self)@.roomy(),
            old(self)@.accepts(pending@, event@),
        ensures
            final(self).wf(),
            (final(self)@, step@) == old(self)@.next(pending@, event@),
    {
        match pending {
            Pending::Lookup { path } => self.lookup_next(path, event),
            Pending::GetAttr { ino, path } => self.getattr_next(ino, path, event),
            Pending::SetAttr { ino, path, file, change, phase } => self.setattr_next(
                ino,
                path,
                file,
                change,
                phase,
                event,
            ),
            Pending::Read { path, file, offset, size, phase } => self.read_next(
                path,
                file,
                offset,
                size,
                phase,
                event,
            ),
            Pending::Write { path, file, offset, data, phase } => self.write_next(
                path,
                file,
                offset,
                data,
                phase,
                event,
            ),
            Pending::ReadLink => self.readlink_next(event),
            Pending::Create { parent, path, file, mode, uid, gid, phase } => self.create_next(
                parent,
                path,
                file,
                mode,
                uid,
                gid,
                phase,
                event,
            ),
            Pending::MkDir { parent, path, mode, uid, gid } => self.mkdir_next(
                parent,
                path,
                mode,
                uid,
                gid,
                event,
            ),
            Pending::Unlink { parent, path, file, phase } => self.unlink_next(
                parent,
                path,
                file,
                phase,
                event,
            ),
            Pending::RmDir { parent, path } => self.rmdir_next(parent, path, event),
            Pending::Rename {
                parent,
                before,
                before_file,
                new_parent,
                after,
                after_file,
                phase,
            } => self.rename_next(
                parent,
                before,
                before_file,
                new_parent,
                after,
                after_file,
                phase,
                event,
            ),
            Pending::Symlink { parent, path, target, uid, gid } => self.symlink_next(
                parent,
                path,
                target,
                uid,
                gid,
                event,
            ),
            Pending::StatFs => self.statfs_next(event),
            Pending::FetchDir { ino, path, phase } => self.fetch_dir_next(ino, path, phase, event),
            Pending::FetchFile { path, file, phase } => self.fetch_file_next(
                path,
                file,
                phase,
                event,
            ),
            Pending::RenewAttr { path, file, cached, phase } => self.renew_attr_next(
                path,
                file,
                cached,
                phase,
                event,
            ),
            Pending::RenewDir { path, cached } => self.renew_dir_next(path, cached, event),
        }
    }
}

} // verus!
