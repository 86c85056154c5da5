//! Laws of the driver that relate several operations, each stated over the
//! spec functions the operations' own contracts use and proved here.

use vstd::prelude::*;
use crate::filter::Filter;
use crate::filter::pattern_matches;
use crate::handlers::DirEntry;
use crate::handlers::read_range_spec;
use crate::table::DirItem;
use crate::table::RegexFS;
use crate::table::item_visible;

verus! {

impl RegexFS {
    /// The table positions one readdir call covers when resumed at `cursor`
    /// with room for `batch` rows: exactly what a successful
    /// [`RegexFS::readdir`] call's rows render, by that call's contract.
    pub open spec fn readdir_covered(self, cursor: u64, batch: usize) -> Seq<int> {
        Seq::new(
            self.readdir_count(cursor, batch) as nat,
            |i: int| self.readdir_start(cursor) + i,
        )
    }

    /// The table positions covered by a whole sequence of readdir calls in
    /// which the first resumes at `cursor`, each later call resumes at the
    /// last row's cursor of the call before it, and the caller stops at the
    /// first empty reply.
    pub open spec fn readdir_enumeration(self, cursor: u64, batches: Seq<usize>) -> Seq<int>
        decreases batches.len(),
    {
        if batches.len() == 0 {
            Seq::empty()
        } else {
            let covered = self.readdir_covered(cursor, batches[0]);
            if covered.len() == 0 {
                Seq::empty()
            } else {
                covered + self.readdir_enumeration(
                    (self.readdir_start(cursor) + covered.len()) as u64,
                    batches.drop_first(),
                )
            }
        }
    }

    /// Law: readdir calls issued repeatedly, each resuming at the previous
    /// call's last returned cursor, enumerate every entry of the table
    /// exactly once, in table order, with no duplicates and no omissions,
    /// whatever positive batch sizes the transport chooses, provided it
    /// keeps calling until a reply comes back empty.
    pub proof fn lemma_readdir_enumerates_all(self, batches: Seq<usize>)
        requires
            self.wf(),
            forall|i: int| 0 <= i < batches.len() ==> batches[i] >= 1,
            batches.len() >= self.table_len(),
        ensures
            self.readdir_enumeration(0, batches) =~= Seq::new(
                self.table_len() as nat,
                |i: int| i,
            ),
    {
        self.lemma_readdir_enumeration_from(0, batches);
    }

    /// Helper for the enumeration law: resuming at any in-range cursor with
    /// enough positive batches yields exactly the positions from the cursor
    /// to the end of the table, in order.
    pub proof fn lemma_readdir_enumeration_from(self, cursor: u64, batches: Seq<usize>)
        requires
            self.wf(),
            0 <= cursor as int <= self.table_len(),
            forall|i: int| 0 <= i < batches.len() ==> batches[i] >= 1,
            batches.len() >= self.table_len() - cursor as int,
        ensures
            self.readdir_enumeration(cursor, batches) =~= Seq::new(
                (self.table_len() - cursor as int) as nat,
                |i: int| cursor as int + i,
            ),
        decreases batches.len(),
    {
        let start = self.readdir_start(cursor);
        assert(start == cursor as int);
        if cursor as int == self.table_len() {
            if batches.len() > 0 {
                assert(self.readdir_count(cursor, batches[0]) == 0);
            }
        } else {
            let covered = self.readdir_covered(cursor, batches[0]);
            assert(covered.len() > 0);
            let next = (start + covered.len()) as u64;
            self.lemma_readdir_enumeration_from(next, batches.drop_first());
        }
    }

    /// Law: a name stands in the file rows of a full directory listing if
    /// and only if the host directory lists a regular file of that name
    /// that the pattern accepts. The premises are [`RegexFS::readdir`]'s
    /// contract for a full listing (cursor 0, room for every entry) and
    /// what [`RegexFS::init`] ensures of the table it built from `items`.
    pub proof fn lemma_listing_shows_exactly_visible(
        self,
        filter: Filter,
        items: Seq<DirItem>,
        rows: Seq<DirEntry>,
        batch: usize,
    )
        requires
            self.wf(),
            forall|m: Seq<char>| self.has_file_name(m) <==> item_visible(filter, items, m),
            batch as int >= self.table_len(),
            rows.len() == self.readdir_count(0, batch),
            forall|k: int| 0 <= k < rows.len() ==> self.row_matches(#[trigger] rows[k], k),
        ensures
            forall|n: Seq<char>|
                (exists|k: int| 2 <= k < rows.len() && (#[trigger] rows[k]).name@ == n)
                    <==> item_visible(filter, items, n),
    {
        assert(rows.len() == self.table_len());
        assert forall|n: Seq<char>|
            (exists|k: int| 2 <= k < rows.len() && (#[trigger] rows[k]).name@ == n)
                <==> item_visible(filter, items, n) by {
            if exists|k: int| 2 <= k < rows.len() && (#[trigger] rows[k]).name@ == n {
                let k = choose|k: int| 2 <= k < rows.len() && (#[trigger] rows[k]).name@ == n;
                assert(self.row_matches(rows[k], k));
                assert(self.file_has_name(k, n));
                assert(self.has_file_name(n));
            }
            if item_visible(filter, items, n) {
                assert(self.has_file_name(n));
                let j = choose|j: int| self.file_has_name(j, n);
                assert(self.row_matches(rows[j], j));
                assert(rows[j].name@ == n);
            }
        }
    }

    /// Law: for any visible file, resolving its name and then reading from
    /// offset 0 with a requested length at least the file's size returns
    /// the file's bytes whole, exactly as the host holds them.
    pub proof fn lemma_lookup_then_full_read(self, n: Seq<char>, data: Seq<u8>, size: int)
        requires
            self.wf(),
            self.has_file_name(n),
            data.len() <= size,
        ensures
            read_range_spec(data, 0, size) =~= data,
    {
    }

    /// Law: if no listed child of the host directory matches the pattern,
    /// the built table holds nothing but the synthetic `.` and `..`
    /// entries. The premises are what [`RegexFS::init`] ensures of the
    /// table it builds.
    pub proof fn lemma_no_match_only_synthetic(
        self,
        filter: Filter,
        items: Seq<DirItem>,
    )
        requires
            self.wf(),
            forall|n: Seq<char>| self.has_file_name(n) <==> item_visible(filter, items, n),
            forall|k: int| 0 <= k < items.len() ==> !pattern_matches(
                filter.pattern(),
                (#[trigger] items[k]).name@,
            ),
        ensures
            self.table_len() == 2,
    {
        if self.table_len() > 2 {
            let n = self.entries@[2].name@;
            assert(self.file_has_name(2, n));
            assert(self.has_file_name(n));
            let k = choose|k: int|
                0 <= k < items.len() && items[k].name@ == n && items[k].is_file
                    && pattern_matches(filter.pattern(), n);
            assert(false);
        }
    }
}

/// Law: a read whose offset is at or past end-of-file yields the empty
/// byte range, never an error; [`crate::handlers::read_range`] returns a
/// byte vector on every input, so no failure is even expressible there.
pub proof fn lemma_read_past_end_is_empty(data: Seq<u8>, offset: int, size: int)
    requires
        offset >= data.len(),
        0 <= size,
    ensures
        read_range_spec(data, offset, size) =~= Seq::<u8>::empty(),
{
}

} // verus!
