//! The kernel's requests, step by step.

use remotefs::backend::AttrChange;
use remotefs::fs::protocol::{
    Action, Errno, Event, FsAction, FsEvent, FsPending, FsReply, FsStep, Reply, Step, Task,
};
use remotefs::fs::remote::RemoteFs;
use remotefs::fs::requests::{getxattr, listxattr, TimeOrNow, XattrReply};
use remotefs::path::{parent_path, path_join};
use remotefs::shared::Shared;
use remotefs::stat::{FileAttr, FileType, StatData};

const FILE_A: &str = "/c/d24ec4f1a98c6e5b";

fn st(size: u64) -> StatData {
    StatData { size, uid: 1, gid: 2, perm: 0o100644, atime: 3, mtime: 4 }
}

fn dir() -> StatData {
    StatData { perm: 0o040755, ..st(0) }
}

fn fs(root: &str) -> RemoteFs {
    RemoteFs::new(root, Shared::new("/c".to_string(), 1, vec![], 0, None, None))
}

fn ask(step: FsStep) -> (FsAction, FsPending) {
    match step {
        Step::Perform(a, p) => (a, p),
        _ => panic!("no action"),
    }
}

fn reply(step: FsStep) -> FsReply {
    match step {
        Step::Reply(r) => r,
        _ => panic!("no reply"),
    }
}

fn next(f: &mut RemoteFs, p: FsPending, e: FsEvent) -> FsStep {
    assert!(f.has_room());
    assert!(f.can_resume(&p, &e));
    f.resume(p, e)
}

fn go(f: &mut RemoteFs, p: FsPending, e: FsEvent) -> (FsAction, FsPending) {
    let step = next(f, p, e);
    ask(step)
}

fn end(f: &mut RemoteFs, p: FsPending, e: FsEvent) -> FsReply {
    let step = next(f, p, e);
    reply(step)
}

fn entry(r: FsReply) -> FileAttr {
    match r {
        Reply::Entry(a) => a,
        _ => panic!("no entry"),
    }
}

fn error(r: FsReply) -> Errno {
    match r {
        Reply::Error(e) => e,
        _ => panic!("no error"),
    }
}

/// Looks up a name in the root, which the remote has.
fn look(f: &mut RemoteFs, name: &str, d: StatData) -> u64 {
    let (_, p) = ask(f.lookup(1, Some(name)));
    entry(end(f, p, Event::Stat(Some(d)))).ino
}

fn names(r: FsReply) -> Vec<(u64, u64, FileType, String)> {
    match r {
        Reply::Directory(v) => v.into_iter().map(|e| (e.ino, e.offset, e.kind, e.name)).collect(),
        _ => panic!("no directory"),
    }
}

#[test]
fn child_and_parent_paths() {
    assert_eq!(path_join("/", "a"), "/a");
    assert_eq!(path_join("", "a"), "/a");
    assert_eq!(path_join("/d", "a"), "/d/a");
    assert_eq!(path_join("/d//", "a"), "/d/a");
    assert_eq!(parent_path("/d/a"), "/d");
    assert_eq!(parent_path("/a"), "/");
    assert_eq!(parent_path("/"), "/");
    assert_eq!(parent_path(""), "/");
    assert_eq!(parent_path("data"), "");
    assert_eq!(parent_path("data/a"), "data");
}

#[test]
fn lookup_asks_then_remembers() {
    let mut f = fs("/");
    let (a, p) = ask(f.lookup(1, Some("x")));
    assert!(matches!(a, Action::Stat { path } if path == "/x"));
    let e = entry(end(&mut f, p, Event::Stat(Some(st(5)))));
    assert_eq!((e.ino, e.size), (2, 5));
    assert_eq!(entry(reply(f.lookup(1, Some("x")))).ino, 2);
    match reply(f.getattr(2)) {
        Reply::Attr(a) => assert_eq!((a.ino, a.size), (2, 5)),
        _ => panic!("no attributes"),
    }
}

#[test]
fn absence_is_remembered() {
    let mut f = fs("/");
    let (_, p) = ask(f.lookup(1, Some("x")));
    assert_eq!(error(end(&mut f, p, Event::Stat(None))), Errno::ENOENT);
    assert_eq!(error(reply(f.lookup(1, Some("x")))), Errno::ENOENT);
}

#[test]
fn unknown_inodes_and_names() {
    let mut f = fs("/");
    assert_eq!(error(reply(f.lookup(9, Some("x")))), Errno::ENOENT);
    assert_eq!(error(reply(f.lookup(1, None))), Errno::ENOENT);
    assert_eq!(error(reply(f.getattr(9))), Errno::ENOENT);
    assert_eq!(error(reply(f.setattr(9, None, None, None, None, None, None, 0))), Errno::ENOENT);
    assert_eq!(error(reply(f.read(9, 0, 1))), Errno::ENOENT);
    assert_eq!(error(reply(f.write(9, 0, vec![1]))), Errno::ENOENT);
    assert_eq!(error(reply(f.readdir(9, 0))), Errno::ENOENT);
    assert_eq!(error(reply(f.readlink(9))), Errno::ENOENT);
    assert_eq!(error(reply(f.create(9, Some("x"), 0, 0, 0))), Errno::ENOENT);
    assert_eq!(error(reply(f.create(1, None, 0, 0, 0))), Errno::ENOENT);
    assert_eq!(error(reply(f.mkdir(1, None, 0, 0, 0))), Errno::ENOENT);
    assert_eq!(error(reply(f.unlink(9, Some("x")))), Errno::ENOENT);
    assert_eq!(error(reply(f.unlink(1, None))), Errno::EINVAL);
    assert_eq!(error(reply(f.rmdir(1, None))), Errno::EINVAL);
    assert_eq!(error(reply(f.symlink(1, None, "t".to_string(), 0, 0))), Errno::EINVAL);
    assert_eq!(error(reply(f.rename(1, Some("a"), 9, None))), Errno::ENOENT);
    assert_eq!(error(reply(f.rename(1, Some("a"), 1, None))), Errno::EINVAL);
}

#[test]
fn getattr_of_root() {
    let mut f = fs("/data");
    let (a, p) = ask(f.getattr(1));
    assert!(matches!(a, Action::Stat { path } if path == "/data"));
    match end(&mut f, p, Event::Stat(Some(dir()))) {
        Reply::Attr(a) => assert_eq!((a.ino, a.kind), (1, FileType::Directory)),
        _ => panic!("no attributes"),
    }
}

#[test]
fn wrong_events_are_errors() {
    let mut f = fs("/");
    let (_, p) = ask(f.lookup(1, Some("x")));
    assert_eq!(error(end(&mut f, p, Event::Unit)), Errno::EIO);
}

#[test]
fn setattr_without_size() {
    let mut f = fs("/");
    let ino = look(&mut f, "x", st(5));
    let (a, p) = ask(f.setattr(
        ino,
        Some(0o600),
        None,
        Some(7),
        None,
        Some(TimeOrNow::Now),
        Some(TimeOrNow::SpecificTime(None)),
        99,
    ));
    let want = AttrChange {
        size: None,
        uid: None,
        gid: Some(7),
        perm: Some(0o600),
        atime: Some(99),
        mtime: Some(0),
    };
    assert!(matches!(a, Action::SetStat { path, change } if path == "/x" && change == want));
    let (a, p) = go(&mut f, p, Event::Flag(true));
    assert!(matches!(a, Action::Stat { .. }));
    match end(&mut f, p, Event::Stat(Some(st(6)))) {
        Reply::Attr(a) => assert_eq!(a.size, 6),
        _ => panic!("no attributes"),
    }
}

#[test]
fn setattr_with_size_truncates_under_lock() {
    let mut f = fs("");
    let ino = look(&mut f, "a", st(5));
    // The path is "/a"; its cache file is not that of "a".
    let (a, p) = ask(f.setattr(ino, None, None, None, Some(3), None, None, 0));
    assert!(matches!(a, Action::Lock { path } if path == "/a"));
    let (a, p) = go(&mut f, p, Event::Unit);
    let file = match a {
        Action::Exists { file } => file,
        _ => panic!("no question"),
    };
    let (a, p) = go(&mut f, p, Event::Flag(false));
    assert!(matches!(a, Action::Download { path, max_bytes, .. } if path == "/a" && max_bytes == 1 << 20));
    let (a, p) = go(&mut f, p, Event::Flag(true));
    assert!(matches!(a, Action::Size { .. }));
    let (a, p) = go(&mut f, p, Event::Size(Some(5)));
    assert!(matches!(a, Action::Remove { files } if files.is_empty()));
    assert_eq!(f.shared.disk_cache.total_size(), 5);
    let (a, p) = go(&mut f, p, Event::Unit);
    assert!(matches!(a, Action::Truncate { file: g, size: 3 } if g == file));
    let (a, p) = go(&mut f, p, Event::Unit);
    assert!(matches!(a, Action::Unlock));
    let (a, p) = go(&mut f, p, Event::Unit);
    assert!(matches!(a, Action::SetStat { .. }));
    assert_eq!(error(end(&mut f, p, Event::Flag(false))), Errno::EIO);
}

#[test]
fn cached_read_stays_local() {
    let mut f = fs("/");
    let ino = look(&mut f, "x", st(5));
    let (a, p) = ask(f.read(ino, 2, 3));
    assert!(matches!(a, Action::TryLock { path } if path == "/x"));
    let (a, p) = go(&mut f, p, Event::Flag(true));
    assert!(matches!(a, Action::Exists { .. }));
    let (a, p) = go(&mut f, p, Event::Flag(true));
    assert!(matches!(a, Action::ReadFile { offset: 2, size: 3, .. }));
    match end(&mut f, p, Event::Data(Some(vec![1, 2, 3]))) {
        Reply::Data(d) => assert_eq!(d, vec![1, 2, 3]),
        _ => panic!("no data"),
    }
}

#[test]
fn uncached_read_downloads_in_the_background() {
    let mut f = fs("/");
    let ino = look(&mut f, "x", st(5));
    let (_, p) = ask(f.read(ino, 0, 9));
    let (_, p) = go(&mut f, p, Event::Flag(true));
    let (a, p) = go(&mut f, p, Event::Flag(false));
    assert!(matches!(a, Action::Unlock));
    let (a, p) = go(&mut f, p, Event::Unit);
    assert!(matches!(a, Action::IsLocked { .. }));
    let (a, p) = go(&mut f, p, Event::Flag(false));
    assert!(matches!(a, Action::Spawn(Task::FetchFile { path }) if path == "/x"));
    let (a, p) = go(&mut f, p, Event::Unit);
    assert!(matches!(a, Action::ReadAt { offset: 0, size: 9, .. }));
    assert_eq!(error(end(&mut f, p, Event::Data(None))), Errno::EIO);
}

#[test]
fn locked_read_goes_to_the_remote() {
    let mut f = fs("/");
    let ino = look(&mut f, "x", st(5));
    let (_, p) = ask(f.read(ino, 0, 9));
    let (_, p) = go(&mut f, p, Event::Flag(false));
    let (a, p) = go(&mut f, p, Event::Flag(true));
    assert!(matches!(a, Action::ReadAt { .. }));
    assert!(matches!(end(&mut f, p, Event::Data(Some(vec![]))), Reply::Data(d) if d.is_empty()));
}

#[test]
fn write_goes_to_the_cache_then_the_remote() {
    let mut f = fs("/");
    let ino = look(&mut f, "x", st(5));
    let (a, p) = ask(f.write(ino, 4, vec![7, 8, 9]));
    assert!(matches!(a, Action::Lock { .. }));
    let (_, p) = go(&mut f, p, Event::Unit);
    let (a, p) = go(&mut f, p, Event::Flag(true));
    assert!(matches!(a, Action::WriteFile { offset: 4, data, .. } if data == vec![7, 8, 9]));
    let (a, p) = go(&mut f, p, Event::Flag(true));
    assert!(matches!(a, Action::Size { .. }));
    let (a, p) = go(&mut f, p, Event::Size(Some(7)));
    assert!(matches!(a, Action::Unlock));
    let (a, p) = go(&mut f, p, Event::Unit);
    assert!(matches!(
        a,
        Action::Spawn(Task::AsyncWrite { offset: 4, data, .. }) if data == vec![7, 8, 9]
    ));
    let (a, p) = go(&mut f, p, Event::Unit);
    assert!(matches!(a, Action::Size { .. }));
    let (a, p) = go(&mut f, p, Event::Size(Some(7)));
    assert!(matches!(a, Action::Remove { .. }));
    assert!(matches!(end(&mut f, p, Event::Unit), Reply::Written(3)));
    match reply(f.getattr(ino)) {
        Reply::Attr(a) => assert_eq!(a.size, 7),
        _ => panic!("no attributes"),
    }
    assert_eq!(f.shared.disk_cache.total_size(), 7);
    let stored = f.shared.disk_cache.cachefile("/x");
    let (_, p) = ask(f.read(ino, 4, 3));
    let (a, p) = go(&mut f, p, Event::Flag(true));
    assert!(matches!(a, Action::Exists { file } if file == stored));
    let (a, _) = go(&mut f, p, Event::Flag(true));
    assert!(matches!(a, Action::ReadFile { file, offset: 4, size: 3 } if file == stored));
}

#[test]
fn failed_write_is_an_error() {
    let mut f = fs("/");
    let ino = look(&mut f, "x", st(5));
    let (_, p) = ask(f.write(ino, 0, vec![1]));
    let (_, p) = go(&mut f, p, Event::Unit);
    let (_, p) = go(&mut f, p, Event::Flag(true));
    assert_eq!(error(end(&mut f, p, Event::Flag(false))), Errno::EIO);
}

#[test]
fn total_that_cannot_be_counted_is_not_accepted() {
    let mut f = fs("/");
    f.shared.disk_cache.put("/c/other", Some(1));
    let (_, p) = ask(f.fetch_file("/x".to_string()));
    let (_, p) = go(&mut f, p, Event::Unit);
    let (_, p) = go(&mut f, p, Event::Flag(false));
    let (_, p) = go(&mut f, p, Event::Flag(true));
    assert!(!f.can_resume(&p, &Event::Size(Some(u64::MAX))));
    assert!(f.can_resume(&p, &Event::Size(Some(u64::MAX - 1))));
}

#[test]
fn cold_listing_shows_dots_and_fetches_once() {
    let mut f = fs("/d");
    match f.readdir(1, 0) {
        Step::ReplyAndSpawn(r, Task::FetchDir { ino, path }) => {
            assert_eq!((ino, path.as_str()), (1, "/d"));
            let n = names(r);
            assert_eq!(n.len(), 2);
            assert_eq!(n[0], (1, 1, FileType::Directory, ".".to_string()));
            assert_eq!(n[1], (2, 2, FileType::Directory, "..".to_string()));
        }
        _ => panic!("no fetch"),
    }
    let again = names(reply(f.readdir(1, 1)));
    assert_eq!(again, vec![(2, 2, FileType::Directory, "..".to_string())]);
    assert!(names(reply(f.readdir(1, 2))).is_empty());
}

#[test]
fn fetched_listing_is_served() {
    let mut f = fs("/");
    assert!(matches!(f.readdir(1, 0), Step::ReplyAndSpawn(..)));
    let (a, p) = ask(f.fetch_dir(1, "/".to_string()));
    assert!(matches!(a, Action::ReadDir { path } if path == "/"));
    let l = vec![
        ("sub".to_string(), dir()),
        ("f".to_string(), st(1)),
        ("l".to_string(), StatData { perm: 0o120777, ..st(0) }),
    ];
    let (a, p) = go(&mut f, p, Event::Listing(Some(l)));
    assert!(matches!(a, Action::Invalidate { ino: 1 }));
    assert!(matches!(end(&mut f, p, Event::Unit), Reply::Finished));
    let n = names(reply(f.readdir(1, 0)));
    let seen: Vec<(FileType, &str)> = n.iter().map(|e| (e.2, e.3.as_str())).collect();
    assert_eq!(
        seen,
        vec![
            (FileType::Directory, "."),
            (FileType::Directory, ".."),
            (FileType::Directory, "sub"),
            (FileType::RegularFile, "f"),
            (FileType::Symlink, "l"),
        ]
    );
    assert_eq!(n[0].0, 1);
    assert_eq!(n[1].0, 1);
    let rest = names(reply(f.readdir(1, n[2].1)));
    assert_eq!(rest, n[3..].to_vec());
    assert_eq!(entry(reply(f.lookup(1, Some("f")))).size, 1);
}

#[test]
fn failed_fetch_can_be_tried_again() {
    let mut f = fs("/");
    assert!(matches!(f.readdir(1, 0), Step::ReplyAndSpawn(..)));
    assert!(matches!(f.readdir(1, 0), Step::Reply(_)));
    let (_, p) = ask(f.fetch_dir(1, "/".to_string()));
    assert!(matches!(end(&mut f, p, Event::Listing(None)), Reply::Finished));
    assert!(matches!(f.readdir(1, 0), Step::ReplyAndSpawn(..)));
}

#[test]
fn links() {
    let mut f = fs("/");
    let ino = look(&mut f, "l", st(0));
    let (a, p) = ask(f.readlink(ino));
    assert!(matches!(a, Action::ReadLink { path } if path == "/l"));
    assert!(matches!(end(&mut f, p, Event::Link(Some("t".to_string()))), Reply::Link(t) if t == "t"));
    let (_, p) = ask(f.readlink(ino));
    assert_eq!(error(end(&mut f, p, Event::Link(None))), Errno::EIO);
}

#[test]
fn create_makes_a_file() {
    let mut f = fs("/");
    let (a, p) = ask(f.create(1, Some("n"), 0o100640, 5, 6));
    assert!(matches!(a, Action::Lock { path } if path == "/n"));
    let (a, p) = go(&mut f, p, Event::Unit);
    assert!(matches!(a, Action::CreateEmpty { .. }));
    let (a, p) = go(&mut f, p, Event::Unit);
    assert!(matches!(a, Action::CreateFile { path, mode: 0o100640 } if path == "/n"));
    match end(&mut f, p, Event::Flag(true)) {
        Reply::Created(a) => {
            assert_eq!((a.ino, a.perm, a.uid, a.gid, a.kind), (2, 0o640, 5, 6, FileType::RegularFile));
        }
        _ => panic!("not created"),
    }
    assert!(matches!(f.lookup(1, Some("n")), Step::Perform(Action::Stat { .. }, _)));
}

#[test]
fn mkdir_and_symlink() {
    let mut f = fs("/");
    let (a, p) = ask(f.mkdir(1, Some("d"), 0o755, 1, 1));
    assert!(matches!(a, Action::CreateDir { mode: 0o755, .. }));
    let d = entry(end(&mut f, p, Event::Flag(true)));
    assert_eq!((d.kind, d.nlink, d.perm), (FileType::Directory, 2, 0o755));
    let (a, p) = ask(f.symlink(1, Some("l"), "é".to_string(), 1, 1));
    assert!(matches!(a, Action::Symlink { target, link } if target == "é" && link == "/l"));
    let l = entry(end(&mut f, p, Event::Flag(true)));
    assert_eq!((l.kind, l.size, l.perm), (FileType::Symlink, 2, 0o777));
    let (_, p) = ask(f.symlink(1, Some("m"), "t".to_string(), 1, 1));
    assert_eq!(error(end(&mut f, p, Event::Flag(false))), Errno::ENOTSUP);
    let (_, p) = ask(f.mkdir(1, Some("e"), 0o755, 1, 1));
    assert_eq!(error(end(&mut f, p, Event::Flag(false))), Errno::EIO);
}

#[test]
fn unlink_forgets() {
    let mut f = fs("/");
    let ino = look(&mut f, "x", st(5));
    let (a, p) = ask(f.unlink(1, Some("x")));
    assert!(matches!(a, Action::DeleteFile { path } if path == "/x"));
    let (a, p) = go(&mut f, p, Event::Flag(true));
    assert!(matches!(a, Action::Lock { .. }));
    let (a, p) = go(&mut f, p, Event::Unit);
    assert!(matches!(a, Action::Remove { files } if files.len() == 1));
    assert!(matches!(end(&mut f, p, Event::Unit), Reply::Done));
    assert_eq!(error(reply(f.getattr(ino))), Errno::ENOENT);
    assert!(matches!(f.lookup(1, Some("x")), Step::Perform(Action::Stat { .. }, _)));
}

#[test]
fn refused_unlink_changes_nothing() {
    let mut f = fs("/");
    let ino = look(&mut f, "x", st(5));
    let (_, p) = ask(f.unlink(1, Some("x")));
    assert_eq!(error(end(&mut f, p, Event::Flag(false))), Errno::EIO);
    assert!(matches!(reply(f.getattr(ino)), Reply::Attr(_)));
}

#[test]
fn rmdir_forgets() {
    let mut f = fs("/");
    let ino = look(&mut f, "d", dir());
    let (a, p) = ask(f.rmdir(1, Some("d")));
    assert!(matches!(a, Action::DeleteDir { .. }));
    assert!(matches!(end(&mut f, p, Event::Flag(true)), Reply::Done));
    assert_eq!(error(reply(f.getattr(ino))), Errno::ENOENT);
}

#[test]
fn rename_moves_the_inode() {
    let mut f = fs("/");
    let ino = look(&mut f, "x", st(5));
    let (a, p) = ask(f.rename(1, Some("x"), 1, Some("y")));
    assert!(matches!(a, Action::Rename { before, after } if before == "/x" && after == "/y"));
    let (a, p) = go(&mut f, p, Event::Flag(true));
    assert!(matches!(a, Action::Lock { path } if path == "/x"));
    let (a, p) = go(&mut f, p, Event::Unit);
    assert!(matches!(a, Action::Remove { .. }));
    let (a, p) = go(&mut f, p, Event::Unit);
    assert!(matches!(a, Action::Unlock));
    let (a, p) = go(&mut f, p, Event::Unit);
    assert!(matches!(a, Action::Lock { path } if path == "/y"));
    let (a, p) = go(&mut f, p, Event::Unit);
    assert!(matches!(a, Action::Remove { .. }));
    let (a, p) = go(&mut f, p, Event::Unit);
    assert!(matches!(a, Action::Unlock));
    assert!(matches!(end(&mut f, p, Event::Unit), Reply::Done));
    let (a, _) = ask(f.getattr(ino));
    assert!(matches!(a, Action::Stat { path } if path == "/y"));
}

#[test]
fn totals_in_blocks() {
    let mut f = fs("/");
    let (a, p) = ask(f.statfs());
    assert!(matches!(a, Action::StatFs));
    match end(&mut f, p, Event::Capacity(Some((40960, 8191)))) {
        Reply::StatFs(t) => {
            assert_eq!((t.blocks, t.bfree, t.bavail), (10, 1, 1));
            assert_eq!((t.files, t.ffree, t.bsize, t.namelen, t.frsize), (0, 0, 4096, 255, 4096));
        }
        _ => panic!("no totals"),
    }
    let (_, p) = ask(f.statfs());
    assert!(matches!(end(&mut f, p, Event::Capacity(None)), Reply::StatFs(t) if t.blocks == 0));
}

#[test]
fn fetch_file_downloads_once() {
    let mut f = fs("/");
    let (a, p) = ask(f.fetch_file("a".to_string()));
    assert!(matches!(a, Action::Lock { .. }));
    let (a, p) = go(&mut f, p, Event::Unit);
    assert!(matches!(a, Action::Exists { file } if file == FILE_A));
    assert!(matches!(end(&mut f, p, Event::Flag(true)), Reply::Finished));
}

#[test]
fn downloaded_file_is_kept() {
    let mut f = fs("/");
    f.shared.disk_cache.put("/c/old", Some(1 << 20));
    let (_, p) = ask(f.fetch_file("a".to_string()));
    let (_, p) = go(&mut f, p, Event::Unit);
    let (a, p) = go(&mut f, p, Event::Flag(false));
    assert!(matches!(a, Action::Download { max_bytes: 0x10_0000, .. }));
    let (a, p) = go(&mut f, p, Event::Flag(true));
    assert!(matches!(a, Action::Size { file } if file == FILE_A));
    let (a, p) = go(&mut f, p, Event::Size(Some(5)));
    assert!(matches!(a, Action::Remove { files } if files == vec!["/c/old".to_string()]));
    assert!(matches!(end(&mut f, p, Event::Unit), Reply::Finished));
    assert_eq!(f.shared.disk_cache.total_size(), 5);
}

#[test]
fn renewal_drops_changed_files() {
    let mut f = fs("/");
    f.shared.disk_cache.put(FILE_A, Some(5));
    let (a, p) = ask(f.renew_attr("a".to_string(), Some(st(5))));
    assert!(matches!(a, Action::TryLock { .. }));
    let (a, p) = go(&mut f, p, Event::Flag(true));
    assert!(matches!(a, Action::Stat { .. }));
    let (a, p) = go(&mut f, p, Event::Stat(Some(st(6))));
    assert!(matches!(a, Action::Remove { files } if files == vec![FILE_A.to_string()]));
    assert!(matches!(end(&mut f, p, Event::Unit), Reply::Finished));
    assert_eq!(f.shared.disk_cache.total_size(), 0);
    assert_eq!(f.shared.attr_cache.get("a"), Some(Some(st(6))));
}

#[test]
fn renewal_keeps_unchanged_files() {
    let mut f = fs("/");
    f.shared.disk_cache.put(FILE_A, Some(5));
    let newer = StatData { mtime: 9, ..st(5) };
    let (_, p) = ask(f.renew_attr("a".to_string(), Some(st(5))));
    let (_, p) = go(&mut f, p, Event::Flag(true));
    assert!(matches!(end(&mut f, p, Event::Stat(Some(newer))), Reply::Finished));
    assert_eq!(f.shared.disk_cache.total_size(), 5);
    assert_eq!(f.shared.attr_cache.get("a"), Some(Some(newer)));
    let (_, p) = ask(f.renew_attr("a".to_string(), None));
    assert!(matches!(end(&mut f, p, Event::Flag(false)), Reply::Finished));
}

#[test]
fn renewal_of_listings() {
    let mut f = fs("/");
    f.shared.dir_cache.put("/".to_string(), vec!["b".to_string(), "a".to_string()]);
    let cached = vec!["b".to_string(), "a".to_string()];
    let (_, p) = ask(f.renew_dir("/".to_string(), cached.clone()));
    let same = vec![("a".to_string(), st(1)), ("b".to_string(), st(1))];
    assert!(matches!(end(&mut f, p, Event::Listing(Some(same))), Reply::Finished));
    assert_eq!(f.shared.dir_cache.get("/"), Some(cached.clone()));
    let (_, p) = ask(f.renew_dir("/".to_string(), cached));
    let other = vec![("z".to_string(), st(1)), ("a".to_string(), st(1))];
    assert!(matches!(end(&mut f, p, Event::Listing(Some(other))), Reply::Finished));
    assert_eq!(f.shared.dir_cache.get("/"), Some(vec!["a".to_string(), "z".to_string()]));
}

#[test]
fn extended_attributes() {
    assert!(matches!(listxattr(0), XattrReply::Size(0)));
    assert!(matches!(listxattr(10), XattrReply::Data(d) if d.is_empty()));
    assert!(matches!(getxattr(true), XattrReply::Error(Errno::ENOATTR)));
    assert!(matches!(getxattr(false), XattrReply::Error(Errno::ENODATA)));
}
