//! The caches, the inode table, the locks and what they rest on.

use remotefs::cache::fs::CacheManager;
use remotefs::cache::meta::{AttrCache, DirCache};
use remotefs::clock::secs_or_zero;
use remotefs::digest::digest;
use remotefs::inode::InodeTable;
use remotefs::lock::{is_refused, StripedLock, NUM_STRIPES};
use remotefs::shared::{PersistedDirCache, PersistedMetaCache, Shared};
use remotefs::sorting::sort_names;
use remotefs::stat::{
    file_type, from_ssh2_stat, new_file_attr, to_file_attr, FileStat, FileTime, FileType, StatData,
};

fn st(size: u64) -> StatData {
    StatData { size, uid: 1, gid: 2, perm: 0o100644, atime: 3, mtime: 4 }
}

fn s(v: &[&str]) -> Vec<String> {
    v.iter().map(|x| x.to_string()).collect()
}

// --- attributes ---

#[test]
fn missing_sftp_attributes_have_defaults() {
    let none = FileStat { size: None, uid: None, gid: None, perm: None, atime: None, mtime: None };
    let d = from_ssh2_stat(&none);
    assert_eq!(
        d,
        StatData { size: 0, uid: 0, gid: 0, perm: 0o100644, atime: 0, mtime: 0 }
    );
    let all = FileStat {
        size: Some(1),
        uid: Some(2),
        gid: Some(3),
        perm: Some(0o40700),
        atime: Some(4),
        mtime: Some(5),
    };
    assert_eq!(
        from_ssh2_stat(&all),
        StatData { size: 1, uid: 2, gid: 3, perm: 0o40700, atime: 4, mtime: 5 }
    );
}

#[test]
fn kinds_of_file() {
    assert_eq!(file_type(0o040755), FileType::Directory);
    assert_eq!(file_type(0o120777), FileType::Symlink);
    assert_eq!(file_type(0o010644), FileType::NamedPipe);
    assert_eq!(file_type(0o020644), FileType::CharDevice);
    assert_eq!(file_type(0o060644), FileType::BlockDevice);
    assert_eq!(file_type(0o140644), FileType::Socket);
    assert_eq!(file_type(0o100644), FileType::RegularFile);
    assert_eq!(file_type(0o644), FileType::RegularFile);
}

#[test]
fn kernel_attributes() {
    let a = to_file_attr(7, &StatData { size: 513, uid: 1, gid: 2, perm: 0o104755, atime: 3, mtime: 4 });
    assert_eq!(a.ino, 7);
    assert_eq!(a.blocks, 2);
    assert_eq!(a.perm, 0o4755);
    assert_eq!(a.nlink, 1);
    assert_eq!(a.atime, FileTime::Secs(3));
    assert_eq!(a.mtime, FileTime::Secs(4));
    assert_eq!(a.ctime, FileTime::Secs(4));
    assert_eq!(a.crtime, FileTime::Secs(0));
    let d = to_file_attr(1, &StatData { perm: 0o040755, size: 512, ..st(0) });
    assert_eq!((d.kind, d.nlink, d.blocks), (FileType::Directory, 2, 1));
    let huge = to_file_attr(1, &st(u64::MAX));
    assert_eq!(huge.blocks, 1 << 55);
}

#[test]
fn new_files() {
    let a = new_file_attr(9, FileType::Directory, 0, 0o700, 5, 6);
    assert_eq!((a.nlink, a.uid, a.gid, a.atime), (2, 5, 6, FileTime::Now));
}

// --- digests and locks ---

#[test]
fn known_digests() {
    assert_eq!(digest(""), 0xef46db3751d8e999);
    assert_eq!(digest("a"), 0xd24ec4f1a98c6e5b);
}

#[test]
fn stripes() {
    let l = StripedLock::new();
    assert_eq!(l.stripe("a"), 0xd24ec4f1a98c6e5b_u64 as usize % NUM_STRIPES);
    let g = l.lock("a");
    assert_eq!(g.stripe(), l.stripe("a"));
    assert!(l.is_locked("a"));
    assert!(l.try_lock("a").is_none());
    assert!(!l.is_locked(""));
    drop(g);
    assert!(!l.is_locked("a"));
    assert!(l.try_lock("a").is_some());
    let other = StripedLock::default();
    assert!(other.try_lock("x").is_some());
}

// --- names ---

#[test]
fn names_sort_by_code_point() {
    let mut v = s(&["b", "a", "ab", "", "Z", "é", "a"]);
    sort_names(&mut v);
    assert_eq!(v, s(&["", "Z", "a", "a", "ab", "b", "é"]));
}

// --- metadata cache ---

#[test]
fn metadata_cache_evicts_least_recent() {
    let mut c: AttrCache = AttrCache::new(2);
    c.put("/a".to_string(), Some(st(1)));
    c.put("/b".to_string(), None);
    assert_eq!(c.get("/a"), Some(Some(st(1))));
    c.put("/c".to_string(), Some(st(3)));
    assert_eq!(c.get("/b"), None);
    assert_eq!(c.get("/a"), Some(Some(st(1))));
    assert_eq!(c.get("/c"), Some(Some(st(3))));
}

#[test]
fn metadata_cache_tells_absent_from_unknown() {
    let mut c: AttrCache = AttrCache::new(4);
    c.put("/gone".to_string(), None);
    assert_eq!(c.get("/gone"), Some(None));
    assert_eq!(c.get("/never"), None);
    c.remove("/gone");
    assert_eq!(c.get("/gone"), None);
}

#[test]
fn metadata_cache_replaces() {
    let mut c: DirCache = DirCache::new(2);
    c.put("/d".to_string(), s(&["x"]));
    c.put("/e".to_string(), s(&[]));
    c.put("/d".to_string(), s(&["y", "z"]));
    assert_eq!(c.get("/d"), Some(s(&["y", "z"])));
    assert_eq!(c.get("/e"), Some(s(&[])));
}

#[test]
fn metadata_snapshot_is_most_recent_first() {
    let mut c: AttrCache = AttrCache::new(3);
    c.put("/a".to_string(), None);
    c.put("/b".to_string(), Some(st(2)));
    c.get("/a");
    let snap = c.snapshot();
    assert_eq!(snap, vec![("/a".to_string(), None), ("/b".to_string(), Some(st(2)))]);
}

// --- disk cache ---

fn disk() -> CacheManager {
    CacheManager::new("/c".to_string(), 1, vec![])
}

#[test]
fn cache_file_names() {
    assert_eq!(disk().cachefile("a"), "/c/d24ec4f1a98c6e5b");
    assert_ne!(disk().cachefile("a"), disk().cachefile("b"));
    assert_eq!(disk().max_size(), 1 << 20);
    assert_eq!(disk().cache_path(), "/c");
}

#[test]
fn disk_cache_tracks_content_files_only() {
    let c = CacheManager::new(
        "/c".to_string(),
        1,
        vec![
            ("00ff".to_string(), 10),
            ("meta_cache.json".to_string(), 99),
            ("00ff.tmp".to_string(), 5),
            (".hidden".to_string(), 7),
        ],
    );
    assert_eq!(c.total_size(), 17);
}

#[test]
fn disk_cache_evicts_oldest() {
    let mut c = disk();
    let half: u64 = 1 << 19;
    assert!(c.put("/c/1", Some(half)).is_empty());
    assert!(c.put("/c/2", Some(half)).is_empty());
    c.renew("/c/1");
    assert_eq!(c.put("/c/3", Some(1)), s(&["/c/2"]));
    assert_eq!(c.total_size(), half + 1);
    c.pop("/c/1");
    assert_eq!(c.total_size(), 1);
}

#[test]
fn disk_cache_limits() {
    let mut c = disk();
    assert!(c.put("/c/1", Some(3)).is_empty());
    assert!(c.put("/c/1", Some(5)).is_empty());
    assert_eq!(c.total_size(), 5);
    assert!(c.put("/c/1", None).is_empty());
    assert_eq!(c.total_size(), 5);
    assert_eq!(c.put("/c/2", Some((1 << 20) + 1)), s(&["/c/1", "/c/2"]));
    assert_eq!(c.total_size(), 0);
    assert!(c.fits("/c/3", u64::MAX));
    c.put("/c/3", Some(7));
    assert!(!c.fits("/c/4", u64::MAX - 6));
    assert!(c.fits("/c/4", u64::MAX - 7));
    assert!(c.fits("/c/3", u64::MAX));
}

// --- inodes ---

#[test]
fn inode_table() {
    let mut t = InodeTable::new("/r");
    assert_eq!(t.path_of(1), Some("/r".to_string()));
    assert_eq!(t.get_or_create("/r"), 1);
    assert_eq!(t.get_or_create("/r/a"), 2);
    assert_eq!(t.get_or_create("/r/b"), 3);
    assert_eq!(t.get_or_create("/r/a"), 2);
    t.rename("/r/a", "/r/z");
    assert_eq!(t.path_of(2), Some("/r/z".to_string()));
    assert_eq!(t.get_or_create("/r/a"), 4);
    t.remove("/r/z");
    assert_eq!(t.path_of(2), None);
    assert_eq!(t.get_or_create("/r/z"), 5);
    assert_eq!(t.next_ino(), 6);
    t.rename("/none", "/other");
    t.remove("/none");
    assert_eq!(t.next_ino(), 6);
}

// --- persistence ---

#[test]
fn fresh_metadata_is_loaded() {
    let meta = PersistedMetaCache { saved_at: 1000, entries: vec![("/a".to_string(), Some(st(1))), ("/b".to_string(), None)] };
    let dirs = PersistedDirCache { saved_at: 1000, entries: vec![("/".to_string(), s(&["a"]))] };
    let mut x = Shared::new("/c".to_string(), 1, vec![], 1600, Some(meta), Some(dirs));
    assert_eq!(x.attr_cache.get("/a"), Some(Some(st(1))));
    assert_eq!(x.attr_cache.get("/b"), Some(None));
    assert_eq!(x.dir_cache.get("/"), Some(s(&["a"])));
}

#[test]
fn stale_metadata_is_discarded() {
    let meta = PersistedMetaCache { saved_at: 1000, entries: vec![("/a".to_string(), Some(st(1)))] };
    let mut x = Shared::new("/c".to_string(), 1, vec![], 1601, Some(meta), None);
    assert_eq!(x.attr_cache.get("/a"), None);
}

#[test]
fn metadata_from_the_future_is_fresh() {
    let dirs = PersistedDirCache { saved_at: 5000, entries: vec![("/".to_string(), s(&[]))] };
    let mut x = Shared::new("/c".to_string(), 1, vec![], 10, None, Some(dirs));
    assert_eq!(x.dir_cache.get("/"), Some(s(&[])));
}

#[test]
fn saved_metadata_comes_back() {
    let mut x = Shared::new("/c".to_string(), 1, vec![], 0, None, None);
    x.attr_cache.put("/a".to_string(), Some(st(1)));
    x.attr_cache.put("/b".to_string(), None);
    x.dir_cache.put("/".to_string(), s(&["a", "b"]));
    let (meta, dirs) = x.save(77);
    assert_eq!((meta.saved_at, dirs.saved_at), (77, 77));
    let mut y = Shared::new("/c".to_string(), 1, vec![], 80, Some(meta), Some(dirs));
    assert_eq!(y.attr_cache.get("/a"), Some(Some(st(1))));
    assert_eq!(y.attr_cache.get("/b"), Some(None));
    assert_eq!(y.dir_cache.get("/"), Some(s(&["a", "b"])));
}

// --- attempts and the clock ---

#[test]
fn attempts_to_lock() {
    let l = StripedLock::new();
    let held = l.try_lock("a");
    assert_eq!(held.as_ref().map(|g| g.stripe()), Some(l.stripe("a")));
    assert!(is_refused(l.try_lock("a")));
    let other = l.lock("b");
    assert_eq!(other.stripe(), l.stripe("b"));
    assert!(l.stripe("a") != l.stripe("b"));
    drop(held);
    assert!(!is_refused(l.try_lock("a")));
    assert!(!is_refused(l.try_lock("a")));
    assert!(is_refused(l.try_lock("b")));
}

#[test]
fn times_before_the_epoch_count_as_zero() {
    assert_eq!(secs_or_zero(Some(12)), 12);
    assert_eq!(secs_or_zero(None), 0);
}
