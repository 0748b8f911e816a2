//! Staging records and the staging area that accepts them in ascending order.

use vstd::prelude::*;
use crate::bytes::copy_bytes;
use crate::errors::{Failure, StagingFault};
use crate::ids::ObjectId;
use crate::paths::{ascending, ascending_has_no_duplicates, compare, precedes, precedes_total, precedes_transitive, PathOrder};

verus! {

/// One blob of a flattened tree: its full path, its identifier, the file
/// mode of its tree entry and its size in bytes.
#[derive(Clone, Debug, PartialEq, Eq)]
pub struct StagingRecord {
    pub path: Vec<u8>,
    pub id: ObjectId,
    pub mode: u32,
    pub size: u64,
}

/// The mathematical value of a staging record.
pub struct RecordView {
    pub path: Seq<u8>,
    pub id: Seq<u8>,
    pub mode: u32,
    pub size: u64,
}

impl StagingRecord {
    /// A fresh record with the same value.
    pub fn duplicate(&self) -> (copy: StagingRecord)
        ensures
            copy@ == self@,
    {
        StagingRecord { path: copy_bytes(&self.path), id: self.id, mode: self.mode, size: self.size }
    }
}

impl View for StagingRecord {
    type V = RecordView;

    open spec fn view(&self) -> RecordView {
        RecordView { path: self.path@, id: self.id@, mode: self.mode, size: self.size }
    }
}

/// The values of a sequence of records, in the same order.
pub open spec fn records_view(records: Seq<StagingRecord>) -> Seq<RecordView> {
    records.map_values(|r: StagingRecord| r@)
}

/// The paths of a sequence of records, in the same order.
pub open spec fn paths_of(records: Seq<RecordView>) -> Seq<Seq<u8>> {
    records.map_values(|r: RecordView| r.path)
}

/// What a staging area accepts: no path is empty and the paths ascend.
pub open spec fn acceptable(records: Seq<RecordView>) -> bool {
    &&& forall|i: int| 0 <= i < records.len() ==> (#[trigger] records[i]).path.len() > 0
    &&& ascending(paths_of(records))
}

/// The reason for which `next` is refused after `staged`, if it is refused.
pub open spec fn fault_of(staged: Seq<RecordView>, next: RecordView) -> Option<StagingFault> {
    if next.path.len() == 0 {
        Some(StagingFault::EmptyPath)
    } else if staged.len() == 0 {
        None
    } else if staged.last().path == next.path {
        Some(StagingFault::Duplicate)
    } else if precedes(next.path, staged.last().path) {
        Some(StagingFault::OutOfOrder)
    } else {
        None
    }
}

/// What adding `next` after `staged` returns.
pub open spec fn add_outcome(staged: Seq<RecordView>, next: RecordView) -> Result<(), Failure> {
    match fault_of(staged, next) {
        Some(fault) => Err(Failure::StagingWrite(fault)),
        None => Ok(()),
    }
}

/// After an acceptable sequence, a record is accepted exactly when the
/// longer sequence is acceptable too.
pub proof fn accepted_iff_acceptable(staged: Seq<RecordView>, next: RecordView)
    requires
        acceptable(staged),
    ensures
        fault_of(staged, next) is None <==> acceptable(staged.push(next)),
{
    let longer = staged.push(next);
    let n = staged.len() as int;
    assert(longer[n] == next);
    assert(paths_of(longer)[n] == next.path);
    if fault_of(staged, next) is None {
        assert forall|i: int| 0 <= i < longer.len() implies (#[trigger] longer[i]).path.len() > 0 by {
            if i < n {
                assert(longer[i] == staged[i]);
            }
        }
        assert forall|i: int, j: int| 0 <= i < j < longer.len() implies precedes(
            paths_of(longer)[i],
            paths_of(longer)[j],
        ) by {
            if j < n {
                assert(precedes(paths_of(staged)[i], paths_of(staged)[j]));
            } else {
                precedes_total(staged.last().path, next.path);
                if i < n - 1 {
                    assert(precedes(paths_of(staged)[i], paths_of(staged)[n - 1]));
                    precedes_transitive(staged[i].path, staged.last().path, next.path);
                }
            }
        }
    } else {
        if acceptable(longer) {
            assert(longer[n].path.len() > 0);
            assert(n > 0);
            assert(precedes(paths_of(longer)[n - 1], paths_of(longer)[n]));
            assert(paths_of(longer)[n - 1] == staged.last().path);
            precedes_total(staged.last().path, next.path);
        }
    }
}

/// No two records of an acceptable sequence share a path.
pub proof fn acceptable_paths_are_unique(records: Seq<RecordView>)
    requires
        acceptable(records),
    ensures
        paths_of(records).no_duplicates(),
{
    ascending_has_no_duplicates(paths_of(records));
}

/// A staging area: records gathered one by one for a tree that is yet to be
/// written. It only ever holds an acceptable sequence.
pub struct StagingArea {
    records: Vec<StagingRecord>,
}

impl View for StagingArea {
    type V = Seq<RecordView>;

    closed spec fn view(&self) -> Seq<RecordView> {
        records_view(self.records@)
    }
}

impl StagingArea {
    #[verifier::type_invariant]
    spec fn holds_acceptable(&self) -> bool {
        acceptable(records_view(self.records@))
    }

    /// A fresh staging area with nothing in it.
    pub fn new() -> (area: StagingArea)
        ensures
            area@ == Seq::<RecordView>::empty(),
    {
        let area = StagingArea { records: Vec::new() };
        assert(records_view(area.records@) =~= Seq::<RecordView>::empty());
        area
    }

    /// The number of records staged so far. What is staged is acceptable,
    /// whatever was offered.
    pub fn len(&self) -> (n: usize)
        ensures
            n == self@.len(),
            acceptable(self@),
    {
        proof {
            use_type_invariant(self);
        }
        self.records.len()
    }

    /// Stages one more record, or refuses it and leaves the area as it was.
    pub fn add(&mut self, record: StagingRecord) -> (outcome: Result<(), Failure>)
        ensures
            outcome == add_outcome(old(self)@, record@),
            outcome is Ok ==> final(self)@ == old(self)@.push(record@),
            outcome is Err ==> final(self)@ == old(self)@,
    {
        proof {
            use_type_invariant(&*self);
            accepted_iff_acceptable(self@, record@);
        }
        if record.path.len() == 0 {
            return Err(Failure::StagingWrite(StagingFault::EmptyPath));
        }
        let n = self.records.len();
        if n > 0 {
            assert(records_view(self.records@).last() == self.records@[n - 1]@);
            match compare(&self.records[n - 1].path, &record.path) {
                PathOrder::Same => {
                    return Err(Failure::StagingWrite(StagingFault::Duplicate));
                },
                PathOrder::After => {
                    return Err(Failure::StagingWrite(StagingFault::OutOfOrder));
                },
                PathOrder::Before => {
                    proof {
                        precedes_total(self.records@[n - 1].path@, record.path@);
                    }
                },
            }
        }
        let ghost before = self.records@;
        let mut records: Vec<StagingRecord> = Vec::new();
        assert(records_view(records@) =~= Seq::<RecordView>::empty());
        std::mem::swap(&mut self.records, &mut records);
        records.push(record);
        assert(records_view(records@) =~= records_view(before).push(record@));
        std::mem::swap(&mut self.records, &mut records);
        Ok(())
    }

    /// Hands out what was staged, in the order in which it was added.
    pub fn into_records(self) -> (records: Vec<StagingRecord>)
        ensures
            records_view(records@) == self@,
            acceptable(self@),
    {
        proof {
            use_type_invariant(&self);
        }
        self.records
    }
}

/// The fault of the first record that is refused when the records are
/// staged in order, if any is refused.
pub open spec fn first_fault(records: Seq<RecordView>) -> Option<StagingFault>
    decreases records.len(),
{
    if records.len() == 0 {
        None
    } else {
        match first_fault(records.drop_last()) {
            Some(fault) => Some(fault),
            None => fault_of(records.drop_last(), records.last()),
        }
    }
}

/// What staging all the records in order returns.
pub open spec fn staging_outcome(records: Seq<RecordView>) -> Result<Seq<RecordView>, Failure> {
    match first_fault(records) {
        Some(fault) => Err(Failure::StagingWrite(fault)),
        None => Ok(records),
    }
}

/// No record is refused exactly when the sequence is acceptable.
pub proof fn no_fault_iff_acceptable(records: Seq<RecordView>)
    ensures
        first_fault(records) is None <==> acceptable(records),
    decreases records.len(),
{
    if records.len() == 0 {
        assert(paths_of(records) =~= Seq::<Seq<u8>>::empty());
    } else {
        let init = records.drop_last();
        no_fault_iff_acceptable(init);
        assert(init.push(records.last()) =~= records);
        if acceptable(init) {
            accepted_iff_acceptable(init, records.last());
        } else if acceptable(records) {
            prefix_acceptable(records, records.len() - 1);
        }
    }
}

/// Stages a copy of every record in turn and stops at the first one that is
/// refused.
pub fn stage_all(records: &Vec<StagingRecord>) -> (outcome: Result<StagingArea, Failure>)
    ensures
        outcome matches Ok(area) ==> Ok::<Seq<RecordView>, Failure>(area@) == staging_outcome(
            records_view(records@),
        ),
        outcome matches Err(e) ==> Err::<Seq<RecordView>, Failure>(e) == staging_outcome(records_view(records@)),
{
    let ghost all = records_view(records@);
    let mut area = StagingArea::new();
    let mut i: usize = 0;
    assert(all.take(0) =~= Seq::<RecordView>::empty());
    while i < records.len()
        invariant
            i <= records.len(),
            all == records_view(records@),
            area@ == all.take(i as int),
            first_fault(all.take(i as int)) is None,
        decreases records.len() - i,
    {
        let record = records[i].duplicate();
        proof {
            assert(all.take(i + 1).drop_last() =~= all.take(i as int));
            assert(all.take(i + 1).last() == all[i as int]);
        }
        match area.add(record) {
            Ok(()) => {
                assert(all.take(i as int).push(all[i as int]) =~= all.take(i + 1));
            },
            Err(e) => {
                proof {
                    fault_stays(all, i + 1);
                }
                return Err(e);
            },
        }
        i = i + 1;
    }
    assert(all.take(records.len() as int) =~= all);
    Ok(area)
}

/// The first fault of a prefix is the first fault of the whole sequence.
pub proof fn fault_stays(records: Seq<RecordView>, k: int)
    requires
        0 <= k <= records.len(),
        first_fault(records.take(k)) is Some,
    ensures
        first_fault(records) == first_fault(records.take(k)),
    decreases records.len() - k,
{
    if k < records.len() {
        assert(records.take(k + 1).drop_last() =~= records.take(k));
        fault_stays(records, k + 1);
    } else {
        assert(records.take(k) =~= records);
    }
}

/// Every prefix of an acceptable sequence is acceptable.
pub proof fn prefix_acceptable(records: Seq<RecordView>, k: int)
    requires
        acceptable(records),
        0 <= k <= records.len(),
    ensures
        acceptable(records.take(k)),
{
    let prefix = records.take(k);
    assert forall|i: int, j: int| 0 <= i < j < prefix.len() implies precedes(
        paths_of(prefix)[i],
        paths_of(prefix)[j],
    ) by {
        assert(precedes(paths_of(records)[i], paths_of(records)[j]));
    }
}

} // verus!
