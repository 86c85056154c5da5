//! The attribute synthesizer: the metadata record a VFS reply carries for
//! the root directory and for each visible file.
//!
//! Only a file's size is live data (the caller queries the host file at
//! response time and hands the size in); every other field is a fixed,
//! synthetic value: read-only permissions for all, a constant timestamp,
//! and a short attribute-cache validity interval.

use vstd::prelude::*;
use crate::table::RegexFS;

verus! {

/// Cache validity interval, in seconds, returned with every entry and
/// attribute reply.
pub const TTL_SECS: i64 = 1;

/// The fixed timestamp carried by every entry; host timestamps are
/// deliberately not surfaced.
pub const CREATE_TIME_SECS: i64 = 1381237736;

/// Read-only-for-all permission bits, the only mode this filesystem exposes.
pub const PERM_READ_ONLY: u16 = 0o444;

/// The kind of a filesystem object: this tree holds only the root directory
/// and regular files.
#[derive(Clone, Copy, Debug, PartialEq, Eq, Structural)]
pub enum FileKind {
    Directory,
    RegularFile,
}

/// A per-request failure, surfaced to the caller as the standard
/// "no such entry" code; it never terminates the serving process.
#[derive(Clone, Copy, Debug, PartialEq, Eq, Structural)]
pub enum FsError {
    NoEnt,
}

/// The metadata record of one filesystem object.
#[derive(Clone, Copy, Debug, PartialEq, Eq, Structural)]
pub struct FileAttr {
    pub ino: u64,
    pub size: u64,
    pub blocks: u64,
    pub atime_secs: i64,
    pub mtime_secs: i64,
    pub ctime_secs: i64,
    pub crtime_secs: i64,
    pub kind: FileKind,
    pub perm: u16,
    pub nlink: u32,
    pub uid: u32,
    pub gid: u32,
    pub rdev: u32,
    pub flags: u32,
}

/// The one attribute record this filesystem synthesizes: everything fixed
/// but the inode, the size and the kind.
pub open spec fn attr_spec(ino: u64, size: u64, kind: FileKind) -> FileAttr {
    FileAttr {
        ino,
        size,
        blocks: 0,
        atime_secs: CREATE_TIME_SECS,
        mtime_secs: CREATE_TIME_SECS,
        ctime_secs: CREATE_TIME_SECS,
        crtime_secs: CREATE_TIME_SECS,
        kind,
        perm: PERM_READ_ONLY,
        nlink: 0,
        uid: 0,
        gid: 0,
        rdev: 0,
        flags: 0,
    }
}

/// The root directory's fixed attributes: a directory of size 0.
pub open spec fn root_attr_spec() -> FileAttr {
    attr_spec(1, 0, FileKind::Directory)
}

fn make_attr(ino: u64, size: u64, kind: FileKind) -> (r: FileAttr)
    ensures
        r == attr_spec(ino, size, kind),
{
    FileAttr {
        ino,
        size,
        blocks: 0,
        atime_secs: CREATE_TIME_SECS,
        mtime_secs: CREATE_TIME_SECS,
        ctime_secs: CREATE_TIME_SECS,
        crtime_secs: CREATE_TIME_SECS,
        kind,
        perm: PERM_READ_ONLY,
        nlink: 0,
        uid: 0,
        gid: 0,
        rdev: 0,
        flags: 0,
    }
}

impl RegexFS {
    /// The root directory's attributes: always kind directory.
    pub fn root_attr(&self) -> (r: FileAttr)
        ensures
            r == root_attr_spec(),
    {
        make_attr(1, 0, FileKind::Directory)
    }

    /// Synthesizes the attributes of the file entry at table position
    /// `entry`: kind regular-file, the host file's size as queried by the
    /// caller at response time, and the fixed synthetic fields.
    pub fn gen_attr_for_entry(&self, entry: usize, size: u64) -> (r: FileAttr)
        requires
            self.wf(),
            2 <= entry < self.entries@.len(),
        ensures
            r == attr_spec(self.entries@[entry as int].ino, size, FileKind::RegularFile),
            r.ino == entry,
    {
        make_attr(self.entries[entry].ino, size, FileKind::RegularFile)
    }

    /// Answers an attribute query. The root inode gets the fixed directory
    /// attributes; a file inode gets regular-file attributes carrying
    /// `size`, the host file's current size as queried by the caller; any
    /// other inode is unknown: "no such entry".
    pub fn getattr(&self, ino: u64, size: u64) -> (r: Result<FileAttr, FsError>)
        requires
            self.wf(),
        ensures
            ino == 1 ==> r == Ok::<FileAttr, FsError>(root_attr_spec()),
            self.is_file_ino(ino) ==> r == Ok::<FileAttr, FsError>(
                attr_spec(ino, size, FileKind::RegularFile),
            ),
            ino != 1 && !self.is_file_ino(ino) ==> r == Err::<FileAttr, FsError>(FsError::NoEnt),
    {
        if ino == 1 {
            Ok(self.root_attr())
        } else if 2 <= ino && ino < self.entries.len() as u64 {
            let a = self.gen_attr_for_entry(ino as usize, size);
            Ok(a)
        } else {
            Err(FsError::NoEnt)
        }
    }
}

} // verus!
