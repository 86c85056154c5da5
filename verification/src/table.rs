//! The inode table: an ordered, immutable collection of entries built once
//! from a host directory listing.
//!
//! The table reserves inode 1 for the root and stores the two synthetic
//! entries `.` and `..` at positions 0 and 1. Every visible regular file
//! whose name the filter accepts gets the next inode value, and file entries
//! are kept sorted by name so that inode values coincide with positions and
//! name lookup can binary-search. Both facts are stated by [`RegexFS::wf`]
//! and hold from the moment [`RegexFS::init`] returns; nothing mutates the
//! table afterwards.

use vstd::prelude::*;
use vstd::string::*;
use crate::filter::Filter;
use crate::filter::pattern_matches;
use crate::filter::pattern_ok;
use crate::names::name_lt;
use crate::names::str_lt;
use crate::names::lemma_name_lt_total;

verus! {

/// One visible filesystem object: a stable inode identifier, the object's
/// name in the root directory, and (through the name) its backing host file.
pub struct Entry {
    pub ino: u64,
    pub name: String,
}

/// One immediate child of the host directory, as the scanner saw it:
/// its name and whether it is a regular file.
pub struct DirItem {
    pub name: String,
    pub is_file: bool,
}

/// The filesystem driver: the host directory it mirrors, the inode table,
/// and the compiled inclusion filter.
pub struct RegexFS {
    pub host_dir: String,
    pub entries: Vec<Entry>,
    pub filter: Filter,
}

/// Whether `n` names a child of the host directory that should be visible:
/// some listed item has that name, is a regular file, and the filter
/// accepts the name.
pub open spec fn item_visible(filter: Filter, items: Seq<DirItem>, n: Seq<char>) -> bool {
    exists|k: int|
        0 <= k < items.len() && items[k].name@ == n && items[k].is_file && pattern_matches(
            filter.pattern(),
            n,
        )
}

/// Whether some name in `s` holds the characters `n`.
pub open spec fn seq_contains_name(s: Seq<String>, n: Seq<char>) -> bool {
    exists|j: int| 0 <= j < s.len() && s[j]@ == n
}

/// Whether the names in `s` are pairwise distinct.
pub open spec fn names_distinct(s: Seq<DirItem>) -> bool {
    forall|j: int, k: int| 0 <= j < k < s.len() ==> s[j].name@ != s[k].name@
}

impl RegexFS {
    /// Number of entries in the table, the two synthetic ones included.
    pub open spec fn table_len(self) -> int {
        self.entries@.len() as int
    }

    /// The structural invariant of a built table: the synthetic `.` and `..`
    /// entries stand first and carry the root inode 1; every other entry's
    /// inode value equals its position; file entries are strictly sorted by
    /// name.
    pub open spec fn wf(self) -> bool {
        &&& 2 <= self.table_len()
        &&& self.table_len() < u64::MAX
        &&& self.entries@[0].ino == 1
        &&& self.entries@[0].name@ == seq!['.']
        &&& self.entries@[1].ino == 1
        &&& self.entries@[1].name@ == seq!['.', '.']
        &&& forall|j: int|
            2 <= j < self.table_len() ==> (#[trigger] self.entries@[j]).ino == j as u64
        &&& forall|j: int, k: int|
            2 <= j < k < self.table_len() ==> name_lt(
                self.entries@[j].name@,
                self.entries@[k].name@,
            )
    }

    /// Whether `ino` identifies a visible regular file.
    pub open spec fn is_file_ino(self, ino: u64) -> bool {
        2 <= ino && (ino as int) < self.table_len()
    }

    /// Whether the file entry at position `j` carries the name `n`.
    pub open spec fn file_has_name(self, j: int, n: Seq<char>) -> bool {
        2 <= j < self.table_len() && self.entries@[j].name@ == n
    }

    /// Whether some visible file carries the name `n`.
    pub open spec fn has_file_name(self, n: Seq<char>) -> bool {
        exists|j: int| self.file_has_name(j, n)
    }

    /// Compiles the inclusion pattern and sets up the driver with an empty
    /// table: construction succeeds exactly when the pattern text is valid.
    /// The table itself is built by [`RegexFS::init`]; until then the driver
    /// is not ready to serve requests. An `Err` (an invalid pattern) is
    /// fatal at startup: the caller must not proceed to mount.
    pub fn new(host_dir: String, pattern: &str) -> (r: Result<RegexFS, String>)
        ensures
            r is Ok <==> pattern_ok(pattern@),
            r matches Ok(fs) ==> fs.host_dir@ == host_dir@ && fs.filter.pattern() == pattern@
                && fs.entries@.len() == 0,
    {
        let filter = match Filter::new(pattern) {
            Ok(f) => f,
            Err(e) => {
                return Err(e);
            },
        };
        Ok(RegexFS { host_dir, entries: Vec::new(), filter })
    }

    /// Builds the inode table from the host directory's immediate children:
    /// keeps exactly the regular files whose name the filter accepts, sorts
    /// them by name, and hands out inode values matching positions. Invoked
    /// exactly once, at mount time, before any request is served.
    ///
    /// A host directory never lists one name twice, so the listing handed in
    /// is required to carry distinct names.
    pub fn init(&mut self, items: Vec<DirItem>)
        requires
            names_distinct(items@),
            items@.len() + 2 < u64::MAX,
        ensures
            final(self).wf(),
            final(self).host_dir == old(self).host_dir,
            final(self).filter == old(self).filter,
            forall|n: Seq<char>|
                final(self).has_file_name(n) <==> item_visible(old(self).filter, items@, n),
    {
        let mut names: Vec<String> = Vec::new();
        let mut idx: usize = 0;
        while idx < items.len()
            invariant
                *self == *old(self),
                idx <= items@.len(),
                names_distinct(items@),
                names@.len() <= idx,
                forall|n: Seq<char>|
                    seq_contains_name(names@, n) <==> exists|k: int|
                        0 <= k < idx && items@[k].name@ == n && items@[k].is_file
                            && pattern_matches(self.filter.pattern(), n),
                forall|j: int, k: int| 0 <= j < k < names@.len() ==> names@[j]@ != names@[k]@,
            decreases items@.len() - idx,
        {
            let it_is_file = items[idx].is_file;
            let it_matches = if it_is_file {
                self.filter.matches(items[idx].name.as_str())
            } else {
                false
            };
            let ghost before = names@;
            if it_is_file && it_matches {
                names.push(items[idx].name.clone());
                proof {
                    assert forall|j: int, k: int|
                        0 <= j < k < names@.len() implies names@[j]@ != names@[k]@ by {
                        if k == names@.len() - 1 {
                            assert(names@[j] == before[j]);
                            assert(seq_contains_name(before, names@[j]@));
                            let m = choose|m: int|
                                0 <= m < idx && items@[m].name@ == names@[j]@ && items@[m].is_file
                                    && pattern_matches(self.filter.pattern(), names@[j]@);
                            assert(items@[m].name@ != items@[idx as int].name@);
                        }
                    }
                }
            }
            proof {
                assert forall|n: Seq<char>| seq_contains_name(names@, n) implies exists|k: int|
                    0 <= k < idx + 1 && items@[k].name@ == n && items@[k].is_file
                        && pattern_matches(self.filter.pattern(), n) by {
                    let j = choose|j: int| 0 <= j < names@.len() && names@[j]@ == n;
                    if j < before.len() {
                        assert(names@[j] == before[j]);
                        assert(seq_contains_name(before, n));
                        let k = choose|k: int|
                            0 <= k < idx && items@[k].name@ == n && items@[k].is_file
                                && pattern_matches(self.filter.pattern(), n);
                        assert(0 <= k < idx + 1 && items@[k].name@ == n && items@[k].is_file
                            && pattern_matches(self.filter.pattern(), n));
                    } else {
                        assert(items@[idx as int].name@ == n && items@[idx as int].is_file
                            && pattern_matches(self.filter.pattern(), n));
                    }
                }
                assert forall|n: Seq<char>|
                    (exists|k: int|
                        0 <= k < idx + 1 && items@[k].name@ == n && items@[k].is_file
                            && pattern_matches(self.filter.pattern(), n)) implies seq_contains_name(
                    names@,
                    n,
                ) by {
                    let k = choose|k: int|
                        0 <= k < idx + 1 && items@[k].name@ == n && items@[k].is_file
                            && pattern_matches(self.filter.pattern(), n);
                    if k < idx {
                        assert(seq_contains_name(before, n));
                        let j = choose|j: int| 0 <= j < before.len() && before[j]@ == n;
                        assert(names@[j]@ == n);
                    } else {
                        assert(names@[names@.len() - 1]@ == n);
                    }
                }
            }
            idx = idx + 1;
        }
        let sorted = sort_names(names);
        let mut entries: Vec<Entry> = Vec::new();
        let dot = String::from_str(".");
        let dotdot = String::from_str("..");
        proof {
            reveal_strlit(".");
            reveal_strlit("..");
            assert(dot@ =~= seq!['.']);
            assert(dotdot@ =~= seq!['.', '.']);
        }
        entries.push(Entry { ino: 1, name: dot });
        entries.push(Entry { ino: 1, name: dotdot });
        let mut j: usize = 0;
        while j < sorted.len()
            invariant
                *self == *old(self),
                j <= sorted@.len(),
                sorted@.len() + 2 < u64::MAX,
                entries@.len() == j + 2,
                entries@[0].ino == 1,
                entries@[0].name@ == seq!['.'],
                entries@[1].ino == 1,
                entries@[1].name@ == seq!['.', '.'],
                forall|k: int|
                    2 <= k < entries@.len() ==> (#[trigger] entries@[k]).ino == k as u64,
                forall|k: int| 2 <= k < entries@.len() ==> entries@[k].name@ == sorted@[k - 2]@,
            decreases sorted@.len() - j,
        {
            let ino = entries.len() as u64;
            entries.push(Entry { ino, name: sorted[j].clone() });
            j = j + 1;
        }
        self.entries = entries;
        proof {
            assert forall|jj: int, kk: int|
                2 <= jj < kk < self.table_len() implies name_lt(
                self.entries@[jj].name@,
                self.entries@[kk].name@,
            ) by {
                assert(self.entries@[jj].name@ == sorted@[jj - 2]@);
                assert(self.entries@[kk].name@ == sorted@[kk - 2]@);
            }
            assert forall|n: Seq<char>|
                self.has_file_name(n) <==> item_visible(old(self).filter, items@, n) by {
                if self.has_file_name(n) {
                    let j2 = choose|j2: int| self.file_has_name(j2, n);
                    assert(sorted@[j2 - 2]@ == n);
                    assert(seq_contains_name(sorted@, n));
                }
                if item_visible(old(self).filter, items@, n) {
                    assert(seq_contains_name(sorted@, n));
                    let j3 = choose|j3: int| 0 <= j3 < sorted@.len() && sorted@[j3]@ == n;
                    assert(self.entries@[j3 + 2].name@ == n);
                    assert(self.file_has_name(j3 + 2, n));
                }
            }
        }
    }

    /// Whether `ino` is one of the table's inode values: the root's
    /// reserved value 1 or a file entry's value.
    pub fn ino_exists(&self, ino: u64) -> (r: bool)
        ensures
            r == (ino == 1 || self.is_file_ino(ino)),
    {
        ino == 1 || (2 <= ino && ino < self.entries.len() as u64)
    }

    /// Whether `ino` resolves to a visible regular file.
    pub fn is_file(&self, ino: u64) -> (r: bool)
        ensures
            r == self.is_file_ino(ino),
    {
        2 <= ino && ino < self.entries.len() as u64
    }

    /// The backing host file of the file inode `ino`: the host directory's
    /// path, a separator, and the entry's name.
    pub fn real_path_for_ino(&self, ino: u64) -> (r: String)
        requires
            self.wf(),
            self.is_file_ino(ino),
        ensures
            r@ == self.host_dir@ + seq!['/'] + self.entries@[ino as int].name@,
    {
        let n = self.entries.len();
        proof {
            assert(ino < n);
        }
        let mut path = self.host_dir.clone();
        let sep = String::from_str("/");
        proof {
            reveal_strlit("/");
            assert(sep@ =~= seq!['/']);
        }
        path.append(sep.as_str());
        path.append(self.entries[ino as usize].name.as_str());
        proof {
            assert(path@ =~= self.host_dir@ + seq!['/'] + self.entries@[ino as int].name@);
        }
        path
    }
}

/// Sorts a list of pairwise distinct names into strictly ascending order,
/// keeping exactly the same set of names.
fn sort_names(names: Vec<String>) -> (r: Vec<String>)
    requires
        forall|j: int, k: int| 0 <= j < k < names@.len() ==> names@[j]@ != names@[k]@,
    ensures
        r@.len() == names@.len(),
        forall|j: int, k: int| 0 <= j < k < r@.len() ==> name_lt(r@[j]@, r@[k]@),
        forall|n: Seq<char>| seq_contains_name(r@, n) <==> seq_contains_name(names@, n),
{
    let mut r: Vec<String> = Vec::new();
    let mut i: usize = 0;
    while i < names.len()
        invariant
            i <= names@.len(),
            r@.len() == i,
            forall|j: int, k: int| 0 <= j < k < names@.len() ==> names@[j]@ != names@[k]@,
            forall|j: int, k: int| 0 <= j < k < r@.len() ==> name_lt(r@[j]@, r@[k]@),
            forall|n: Seq<char>|
                seq_contains_name(r@, n) <==> exists|k: int| 0 <= k < i && names@[k]@ == n,
        decreases names@.len() - i,
    {
        let x = names[i].clone();
        proof {
            if seq_contains_name(r@, x@) {
                let m = choose|m: int| 0 <= m < i && names@[m]@ == x@;
                assert(names@[m]@ != names@[i as int]@);
                assert(false);
            }
        }
        let mut p: usize = 0;
        while p < r.len() && str_lt(r[p].as_str(), x.as_str())
            invariant
                p <= r@.len(),
                forall|k: int| 0 <= k < p ==> name_lt(r@[k]@, x@),
                forall|j: int, k: int| 0 <= j < k < r@.len() ==> name_lt(r@[j]@, r@[k]@),
                !seq_contains_name(r@, x@),
            decreases r@.len() - p,
        {
            p = p + 1;
        }
        proof {
            if p < r@.len() {
                lemma_name_lt_total(r@[p as int]@, x@);
                assert(r@[p as int]@ != x@);
                assert(name_lt(x@, r@[p as int]@));
            }
        }
        let ghost before = r@;
        r.insert(p, x);
        proof {
            before.insert_ensures(p as int, x);
            assert forall|j: int, k: int| 0 <= j < k < r@.len() implies name_lt(r@[j]@, r@[k]@) by {
                if j < p && k < p {
                } else if j == p as int {
                    assert(r@[k] == before[k - 1]);
                    assert(name_lt(x@, before[k - 1]@)) by {
                        if p < before.len() {
                            if k - 1 > p {
                                crate::names::lemma_name_lt_transitive(
                                    x@,
                                    before[p as int]@,
                                    before[k - 1]@,
                                );
                            }
                        }
                    }
                } else if k == p as int {
                    assert(r@[j] == before[j]);
                } else if j < p && k > p {
                    assert(r@[j] == before[j]);
                    assert(r@[k] == before[k - 1]);
                    assert(j < p <= k - 1 && j != k - 1);
                } else {
                    assert(r@[j] == before[j - 1]);
                    assert(r@[k] == before[k - 1]);
                }
            }
            assert forall|n: Seq<char>|
                seq_contains_name(r@, n) <==> (seq_contains_name(before, n) || n == x@) by {
                if seq_contains_name(r@, n) {
                    let m = choose|m: int| 0 <= m < r@.len() && r@[m]@ == n;
                    if m < p {
                        assert(before[m]@ == n);
                    } else if m == p as int {
                        assert(n == x@);
                    } else {
                        assert(before[m - 1]@ == n);
                    }
                }
                if seq_contains_name(before, n) {
                    let m = choose|m: int| 0 <= m < before.len() && before[m]@ == n;
                    if m < p {
                        assert(r@[m]@ == n);
                    } else {
                        assert(r@[m + 1]@ == n);
                    }
                }
                if n == x@ {
                    assert(r@[p as int]@ == n);
                }
            }
            assert(x@ == names@[i as int]@);
            assert forall|n: Seq<char>| seq_contains_name(r@, n) implies exists|k: int|
                0 <= k < i + 1 && names@[k]@ == n by {
                if seq_contains_name(before, n) {
                    let k = choose|k: int| 0 <= k < i && names@[k]@ == n;
                    assert(0 <= k < i + 1 && names@[k]@ == n);
                } else {
                    assert(n == x@);
                    assert(names@[i as int]@ == n);
                }
            }
            assert forall|n: Seq<char>|
                (exists|k: int| 0 <= k < i + 1 && names@[k]@ == n) implies seq_contains_name(
                r@,
                n,
            ) by {
                let k = choose|k: int| 0 <= k < i + 1 && names@[k]@ == n;
                if k < i {
                    assert(seq_contains_name(before, n));
                } else {
                    assert(n == x@);
                }
            }
        }
        i = i + 1;
    }
    r
}

} // verus!
