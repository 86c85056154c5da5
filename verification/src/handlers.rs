//! The request handlers: lookup, read and readdir.
//!
//! Each handler is a pure, read-only function of the inode table (and, for
//! read, of the host file bytes the caller fetched) to a reply. A failure is
//! always a returned error value, never a panic: per-request failures must
//! not terminate the serving process.

use vstd::prelude::*;
use crate::attr::FileKind;
use crate::attr::FsError;
use crate::names::str_eq;
use crate::names::str_lt;
use crate::names::lemma_name_lt_irreflexive;
use crate::names::lemma_name_lt_total;
use crate::names::lemma_name_lt_transitive;
use crate::table::RegexFS;

verus! {

/// One row of a directory listing reply: the entry's inode and name, its
/// kind, and the cursor a later call hands back to resume strictly after
/// this entry.
pub struct DirEntry {
    pub ino: u64,
    pub next_cursor: u64,
    pub kind: FileKind,
    pub name: String,
}

/// The byte range a read request yields: `[offset, offset + size)` clipped
/// to the data's length. An offset at or past the end yields the empty
/// range, not an error.
pub open spec fn read_range_spec(data: Seq<u8>, offset: int, size: int) -> Seq<u8> {
    let len = data.len() as int;
    let start = if offset < len {
        offset
    } else {
        len
    };
    let end = if offset + size < len {
        offset + size
    } else {
        len
    };
    data.subrange(start, end)
}

/// Copies the byte range `[offset, offset + size)` of `data`, clipped to
/// the data's length, reading nothing past end-of-file. An offset at or
/// beyond the end gives an empty result, never an error.
pub fn read_range(data: &Vec<u8>, offset: u64, size: u32) -> (r: Vec<u8>)
    ensures
        r@ == read_range_spec(data@, offset as int, size as int),
{
    let n = data.len();
    if offset >= n as u64 {
        let r: Vec<u8> = Vec::new();
        proof {
            assert(r@ =~= read_range_spec(data@, offset as int, size as int));
        }
        return r;
    }
    let start = offset as usize;
    let remaining = n - start;
    let take = if (size as usize) < remaining {
        size as usize
    } else {
        remaining
    };
    let mut r: Vec<u8> = Vec::new();
    let mut i: usize = 0;
    while i < take
        invariant
            start + take <= n,
            n == data@.len(),
            i <= take,
            r@.len() == i,
            forall|k: int| 0 <= k < i ==> r@[k] == data@[start + k],
        decreases take - i,
    {
        r.push(data[start + i]);
        i = i + 1;
    }
    proof {
        assert(r@ =~= read_range_spec(data@, offset as int, size as int));
    }
    r
}

impl RegexFS {
    /// The table position a directory enumeration resumes at for a given
    /// cursor: cursor 0 means the beginning, and the entry a cursor was
    /// returned with lies strictly before that position.
    pub open spec fn readdir_start(self, cursor: u64) -> int {
        if cursor as int <= self.table_len() {
            cursor as int
        } else {
            self.table_len()
        }
    }

    /// How many entries a readdir call returns: the room the caller has,
    /// clipped to the entries that remain.
    pub open spec fn readdir_count(self, cursor: u64, batch: usize) -> int {
        let avail = self.table_len() - self.readdir_start(cursor);
        if batch as int <= avail {
            batch as int
        } else {
            avail
        }
    }

    /// Whether the reply row `e` faithfully renders the table entry at
    /// position `pos`.
    pub open spec fn row_matches(self, e: DirEntry, pos: int) -> bool {
        &&& e.ino == self.entries@[pos].ino
        &&& e.name@ == self.entries@[pos].name@
        &&& e.next_cursor == pos + 1
        &&& e.kind == (if pos < 2 {
            FileKind::Directory
        } else {
            FileKind::RegularFile
        })
    }

    /// Resolves `name` against the root directory. Valid only when `parent`
    /// is the root inode; `.` and `..` resolve to the root itself; any other
    /// name resolves to the file entry carrying it, found by binary search
    /// over the sorted file entries; a miss is "no such entry".
    pub fn lookup(&self, parent: u64, name: &str) -> (r: Result<u64, FsError>)
        requires
            self.wf(),
        ensures
            match r {
                Ok(ino) => parent == 1 && (((name@ == seq!['.'] || name@ == seq!['.', '.']) && ino
                    == 1) || self.file_has_name(ino as int, name@)),
                Err(e) => e == FsError::NoEnt && (parent != 1 || (name@ != seq!['.'] && name@
                    != seq!['.', '.'] && !self.has_file_name(name@))),
            },
    {
        proof {
            reveal_strlit(".");
            reveal_strlit("..");
            assert("."@ =~= seq!['.']);
            assert(".."@ =~= seq!['.', '.']);
        }
        if parent != 1 {
            return Err(FsError::NoEnt);
        }
        if str_eq(name, ".") || str_eq(name, "..") {
            return Ok(1);
        }
        let mut lo: usize = 2;
        let mut hi: usize = self.entries.len();
        while lo < hi
            invariant
                self.wf(),
                parent == 1,
                2 <= lo <= hi <= self.entries@.len(),
                forall|j: int| 2 <= j < lo ==> self.entries@[j].name@ != name@,
                forall|j: int| hi <= j < self.table_len() ==> self.entries@[j].name@ != name@,
            decreases hi - lo,
        {
            let mid = lo + (hi - lo) / 2;
            if str_lt(self.entries[mid].name.as_str(), name) {
                proof {
                    assert forall|j: int|
                        2 <= j < mid + 1 implies self.entries@[j].name@ != name@ by {
                        if lo <= j {
                            if j < mid {
                                lemma_name_lt_transitive(
                                    self.entries@[j].name@,
                                    self.entries@[mid as int].name@,
                                    name@,
                                );
                            }
                            lemma_name_lt_irreflexive(name@);
                        }
                    }
                }
                lo = mid + 1;
            } else if str_lt(name, self.entries[mid].name.as_str()) {
                proof {
                    assert forall|j: int|
                        mid <= j < self.table_len() implies self.entries@[j].name@ != name@ by {
                        if mid < j {
                            lemma_name_lt_transitive(
                                name@,
                                self.entries@[mid as int].name@,
                                self.entries@[j].name@,
                            );
                        }
                        lemma_name_lt_irreflexive(name@);
                    }
                }
                hi = mid;
            } else {
                proof {
                    lemma_name_lt_total(self.entries@[mid as int].name@, name@);
                    assert(self.entries@[mid as int].name@ == name@);
                    assert(self.entries@[mid as int].ino == mid as u64);
                    assert(self.file_has_name(mid as int, name@));
                }
                return Ok(self.entries[mid].ino);
            }
        }
        proof {
            if self.has_file_name(name@) {
                let j = choose|j: int| self.file_has_name(j, name@);
                assert(self.entries@[j].name@ != name@);
            }
        }
        Err(FsError::NoEnt)
    }

    /// Enumerates the root directory starting strictly after the position
    /// the cursor identifies (cursor 0: from the beginning), in table order,
    /// up to `batch` entries. Each returned row carries the cursor with
    /// which a later call resumes right after it. Any inode but the root is
    /// "no such entry".
    pub fn readdir(&self, ino: u64, cursor: u64, batch: usize) -> (r: Result<Vec<DirEntry>, FsError>)
        requires
            self.wf(),
        ensures
            match r {
                Ok(rows) => {
                    &&& ino == 1
                    &&& rows@.len() == self.readdir_count(cursor, batch)
                    &&& forall|k: int|
                        0 <= k < rows@.len() ==> self.row_matches(
                            #[trigger] rows@[k],
                            self.readdir_start(cursor) + k,
                        )
                },
                Err(e) => e == FsError::NoEnt && ino != 1,
            },
    {
        if ino != 1 {
            return Err(FsError::NoEnt);
        }
        let n = self.entries.len();
        let start: usize = if cursor >= n as u64 {
            n
        } else {
            cursor as usize
        };
        let mut pos = start;
        let mut rows: Vec<DirEntry> = Vec::new();
        while pos < n && rows.len() < batch
            invariant
                self.wf(),
                n == self.entries@.len(),
                start <= pos <= n,
                start == self.readdir_start(cursor),
                rows@.len() == pos - start,
                rows@.len() <= batch,
                forall|k: int| 0 <= k < rows@.len() ==> self.row_matches(#[trigger] rows@[k], start + k),
            decreases n - pos,
        {
            let kind = if pos < 2 {
                FileKind::Directory
            } else {
                FileKind::RegularFile
            };
            let e = DirEntry {
                ino: self.entries[pos].ino,
                next_cursor: (pos as u64) + 1,
                kind,
                name: self.entries[pos].name.clone(),
            };
            rows.push(e);
            pos = pos + 1;
        }
        Ok(rows)
    }
}

} // verus!
