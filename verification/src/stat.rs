//! Portable file attributes and their conversions.

use vstd::prelude::*;

verus! {

/// Raw file attributes without an inode number; stored in the attribute cache.
/// `None` in the cache means that the path was looked up and found absent.
#[derive(Clone, Copy, Debug, PartialEq, Eq, Structural)]
pub struct StatData {
    pub size: u64,
    pub uid: u32,
    pub gid: u32,
    /// Full mode bits (type and permissions), e.g. 0o100644.
    pub perm: u32,
    pub atime: u64,
    pub mtime: u64,
}

/// File attributes as an SFTP server reports or takes them; each may be missing.
#[derive(Clone, Copy, Debug, PartialEq, Eq, Structural)]
pub struct FileStat {
    pub size: Option<u64>,
    pub uid: Option<u32>,
    pub gid: Option<u32>,
    pub perm: Option<u32>,
    pub atime: Option<u64>,
    pub mtime: Option<u64>,
}

/// The kinds of file that the kernel knows.
#[derive(Clone, Copy, Debug, PartialEq, Eq, Structural)]
pub enum FileType {
    NamedPipe,
    CharDevice,
    BlockDevice,
    Directory,
    RegularFile,
    Symlink,
    Socket,
}

/// A point in time: seconds after the Unix epoch, or the moment of the reply.
#[derive(Clone, Copy, Debug, PartialEq, Eq, Structural)]
pub enum FileTime {
    Secs(u64),
    Now,
}

/// File attributes as the kernel takes them.
#[derive(Clone, Copy, Debug, PartialEq, Eq, Structural)]
pub struct FileAttr {
    pub ino: u64,
    pub size: u64,
    pub blocks: u64,
    pub atime: FileTime,
    pub mtime: FileTime,
    pub ctime: FileTime,
    pub crtime: FileTime,
    pub kind: FileType,
    pub perm: u16,
    pub nlink: u32,
    pub uid: u32,
    pub gid: u32,
    pub rdev: u32,
    pub blksize: u32,
    pub flags: u32,
}

/// The bits of a mode that hold the file type.
pub const TYPE_BITS: u32 = 0o170000;

/// The bits of a mode that hold the permissions.
pub const PERMISSION_BITS: u32 = 0o7777;

/// Mode bits of a regular file that its owner may write and all may read.
pub const REGULAR_MODE: u32 = 0o100644;

/// Mode bits of a directory that its owner may write and all may read and enter.
pub const DIRECTORY_MODE: u32 = 0o040755;

/// A value, or the default where it is missing.
pub open spec fn or_default<T>(v: Option<T>, default: T) -> T {
    match v {
        Some(x) => x,
        None => default,
    }
}

/// The attributes that an SFTP server reported, with 0, and a regular file's mode, for those
/// that are missing.
pub fn from_ssh2_stat(s: &FileStat) -> (r: StatData)
    ensures
        r == (StatData {
            size: or_default(s.size, 0),
            uid: or_default(s.uid, 0),
            gid: or_default(s.gid, 0),
            perm: or_default(s.perm, REGULAR_MODE),
            atime: or_default(s.atime, 0),
            mtime: or_default(s.mtime, 0),
        }),
{
    StatData {
        size: s.size.unwrap_or(0),
        uid: s.uid.unwrap_or(0),
        gid: s.gid.unwrap_or(0),
        perm: s.perm.unwrap_or(REGULAR_MODE),
        atime: s.atime.unwrap_or(0),
        mtime: s.mtime.unwrap_or(0),
    }
}

/// The kind of file that full mode bits tell.
pub open spec fn kind_of(perm: u32) -> FileType {
    let t = perm & TYPE_BITS;
    if t == 0o040000 {
        FileType::Directory
    } else if t == 0o120000 {
        FileType::Symlink
    } else if t == 0o010000 {
        FileType::NamedPipe
    } else if t == 0o020000 {
        FileType::CharDevice
    } else if t == 0o060000 {
        FileType::BlockDevice
    } else if t == 0o140000 {
        FileType::Socket
    } else {
        FileType::RegularFile
    }
}

/// Tells the kind of file from full mode bits.
pub fn file_type(perm: u32) -> (k: FileType)
    ensures
        k == kind_of(perm),
{
    let t: u32 = perm & TYPE_BITS;
    if t == 0o040000 {
        FileType::Directory
    } else if t == 0o120000 {
        FileType::Symlink
    } else if t == 0o010000 {
        FileType::NamedPipe
    } else if t == 0o020000 {
        FileType::CharDevice
    } else if t == 0o060000 {
        FileType::BlockDevice
    } else if t == 0o140000 {
        FileType::Socket
    } else {
        FileType::RegularFile
    }
}

/// The kernel's attributes of the file of inode `ino` with the given raw attributes.
pub open spec fn file_attr(ino: u64, s: StatData) -> FileAttr {
    FileAttr {
        ino,
        size: s.size,
        blocks: ((s.size + 511) / 512) as u64,
        atime: FileTime::Secs(s.atime),
        mtime: FileTime::Secs(s.mtime),
        ctime: FileTime::Secs(s.mtime),
        crtime: FileTime::Secs(0),
        kind: kind_of(s.perm),
        perm: (s.perm & PERMISSION_BITS) as u16,
        nlink: if kind_of(s.perm) == FileType::Directory {
            2
        } else {
            1
        },
        uid: s.uid,
        gid: s.gid,
        rdev: 0,
        blksize: 512,
        flags: 0,
    }
}

/// Converts raw attributes to the kernel's.
pub fn to_file_attr(ino: u64, s: &StatData) -> (a: FileAttr)
    ensures
        a == file_attr(ino, *s),
{
    let kind = file_type(s.perm);
    let blocks: u64 = s.size / 512 + if s.size % 512 > 0 {
        1
    } else {
        0
    };
    FileAttr {
        ino,
        size: s.size,
        blocks,
        atime: FileTime::Secs(s.atime),
        mtime: FileTime::Secs(s.mtime),
        ctime: FileTime::Secs(s.mtime),
        crtime: FileTime::Secs(0),
        kind,
        perm: (s.perm & PERMISSION_BITS) as u16,
        nlink: if kind == FileType::Directory {
            2
        } else {
            1
        },
        uid: s.uid,
        gid: s.gid,
        rdev: 0,
        blksize: 512,
        flags: 0,
    }
}

/// The attributes of a file that has just been made.
pub open spec fn new_attr(
    ino: u64,
    kind: FileType,
    size: u64,
    perm: u16,
    uid: u32,
    gid: u32,
) -> FileAttr {
    FileAttr {
        ino,
        size,
        blocks: 0,
        atime: FileTime::Now,
        mtime: FileTime::Now,
        ctime: FileTime::Now,
        crtime: FileTime::Now,
        kind,
        perm,
        nlink: if kind == FileType::Directory {
            2
        } else {
            1
        },
        uid,
        gid,
        rdev: 0,
        blksize: 512,
        flags: 0,
    }
}

/// Builds the attributes of a file that has just been made.
pub fn new_file_attr(ino: u64, kind: FileType, size: u64, perm: u16, uid: u32, gid: u32) -> (a:
    FileAttr)
    ensures
        a == new_attr(ino, kind, size, perm, uid, gid),
{
    FileAttr {
        ino,
        size,
        blocks: 0,
        atime: FileTime::Now,
        mtime: FileTime::Now,
        ctime: FileTime::Now,
        crtime: FileTime::Now,
        kind,
        perm,
        nlink: if kind == FileType::Directory {
            2
        } else {
            1
        },
        uid,
        gid,
        rdev: 0,
        blksize: 512,
        flags: 0,
    }
}

/// The permissions in a mode fit their field: converting keeps every bit.
pub proof fn law_permissions_fit(perm: u32)
    ensures
        (perm & PERMISSION_BITS) as u16 == perm & PERMISSION_BITS,
        perm & PERMISSION_BITS <= 0o7777,
{
    assert(perm & 0o7777 <= 0o7777) by (bit_vector);
}

/// The blocks of a file hold all of it, and no fewer blocks would.
pub proof fn law_blocks_cover_size(ino: u64, s: StatData)
    ensures
        file_attr(ino, s).blocks * 512 >= s.size,
        s.size > 0 ==> (file_attr(ino, s).blocks - 1) * 512 < s.size,
{
}

/// The type bits of a mode tell the kind of file, whatever its permissions are; a mode that has
/// none of a kind is a regular file's.
pub proof fn law_type_bits_tell_kind(permissions: u32)
    requires
        permissions <= 0o7777,
    ensures
        kind_of(0o040000 | permissions) == FileType::Directory,
        kind_of(0o120000 | permissions) == FileType::Symlink,
        kind_of(0o100000 | permissions) == FileType::RegularFile,
        kind_of(0o010000 | permissions) == FileType::NamedPipe,
        kind_of(0o020000 | permissions) == FileType::CharDevice,
        kind_of(0o060000 | permissions) == FileType::BlockDevice,
        kind_of(0o140000 | permissions) == FileType::Socket,
        kind_of(permissions) == FileType::RegularFile,
        (0o100000 | permissions) & PERMISSION_BITS == permissions,
{
    let p = permissions;
    assert((0o040000u32 | p) & 0o170000 == 0o040000) by (bit_vector)
        requires
            p <= 0o7777,
    ;
    assert((0o120000u32 | p) & 0o170000 == 0o120000) by (bit_vector)
        requires
            p <= 0o7777,
    ;
    assert((0o100000u32 | p) & 0o170000 == 0o100000) by (bit_vector)
        requires
            p <= 0o7777,
    ;
    assert((0o010000u32 | p) & 0o170000 == 0o010000) by (bit_vector)
        requires
            p <= 0o7777,
    ;
    assert((0o020000u32 | p) & 0o170000 == 0o020000) by (bit_vector)
        requires
            p <= 0o7777,
    ;
    assert((0o060000u32 | p) & 0o170000 == 0o060000) by (bit_vector)
        requires
            p <= 0o7777,
    ;
    assert((0o140000u32 | p) & 0o170000 == 0o140000) by (bit_vector)
        requires
            p <= 0o7777,
    ;
    assert(p & 0o170000 == 0) by (bit_vector)
        requires
            p <= 0o7777,
    ;
    assert((0o100000u32 | p) & 0o7777 == p) by (bit_vector)
        requires
            p <= 0o7777,
    ;
}

/// The kernel is told what the remote says: the size, the owner, the times and the permissions of
/// the file, its kind, and the inode that it was asked about. A directory has two links, and any
/// other file one.
pub proof fn law_kernel_attributes_agree(ino: u64, s: StatData)
    ensures
        ({
            let a = file_attr(ino, s);
            &&& a.ino == ino
            &&& a.size == s.size
            &&& a.uid == s.uid && a.gid == s.gid
            &&& a.atime == FileTime::Secs(s.atime)
            &&& a.mtime == FileTime::Secs(s.mtime) && a.ctime == a.mtime
            &&& a.crtime == FileTime::Secs(0)
            &&& a.perm == s.perm & PERMISSION_BITS
            &&& a.kind == kind_of(s.perm)
            &&& a.nlink == 2 <==> kind_of(s.perm) == FileType::Directory
            &&& a.nlink == 1 || a.nlink == 2
            &&& a.rdev == 0 && a.flags == 0 && a.blksize == 512
        }),
{
    law_permissions_fit(s.perm);
}

/// A file that has just been made is told the kernel as it was asked for, as of now, and with no
/// blocks yet.
pub proof fn law_new_attributes_agree(
    ino: u64,
    kind: FileType,
    size: u64,
    perm: u16,
    uid: u32,
    gid: u32,
)
    ensures
        ({
            let a = new_attr(ino, kind, size, perm, uid, gid);
            &&& (a.ino, a.kind, a.size, a.perm, a.uid, a.gid) == (ino, kind, size, perm, uid, gid)
            &&& a.blocks == 0
            &&& a.atime == FileTime::Now && a.mtime == FileTime::Now
            &&& a.ctime == FileTime::Now && a.crtime == FileTime::Now
            &&& a.nlink == 2 <==> kind == FileType::Directory
            &&& a.nlink == 1 || a.nlink == 2
            &&& a.rdev == 0 && a.flags == 0 && a.blksize == 512
        }),
{
}

} // verus!
