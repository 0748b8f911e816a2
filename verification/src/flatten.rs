//! The tree flattener: a depth-first walk that lists every blob of a tree
//! under its full path.

use vstd::prelude::*;
use crate::errors::Failure;
use vstd::seq_lib::{lemma_no_dup_in_concat, lemma_seq_concat_contains_all_elements};
use crate::paths::{base_view, join, join_spec, SEPARATOR};
use crate::staging::{paths_of, records_view, RecordView, StagingRecord};
use crate::tree::{entry_supported, entry_well_formed, level_well_formed, supported, well_formed, Entry, Target};

verus! {

/// The records of every blob below `entries`, in pre-order: the entries in
/// their own order, and the content of a subtree before the entry that
/// follows it.
pub open spec fn flat(entries: Seq<Entry>, base: Option<Seq<u8>>) -> Seq<RecordView>
    decreases entries,
{
    if entries.len() == 0 {
        Seq::empty()
    } else {
        flat(entries.drop_last(), base) + flat_entry(entries.last(), base)
    }
}

/// The records of one entry: itself if it is a blob, those below it if it is
/// a tree. The mode is that of the entry, as it stands.
pub open spec fn flat_entry(entry: Entry, base: Option<Seq<u8>>) -> Seq<RecordView>
    decreases entry,
{
    let path = join_spec(base, entry.name@);
    match entry.target {
        Target::Blob { size } => seq![RecordView { path, id: entry.id@, mode: entry.mode, size }],
        Target::Tree { entries } => flat(entries@, Some(path)),
        Target::Other => Seq::empty(),
    }
}

/// Flattening the first `k + 1` entries is flattening the first `k` and then
/// the next one.
pub proof fn flat_step(entries: Seq<Entry>, base: Option<Seq<u8>>, k: int)
    requires
        0 <= k < entries.len(),
    ensures
        flat(entries.take(k + 1), base) == flat(entries.take(k), base) + flat_entry(entries[k], base),
{
    assert(entries.take(k + 1).drop_last() =~= entries.take(k));
    assert(entries.take(k + 1).last() == entries[k]);
}

fn flatten_into(entries: &Vec<Entry>, base: Option<&Vec<u8>>, out: &mut Vec<StagingRecord>) -> (outcome:
    Result<(), Failure>)
    ensures
        outcome is Ok <==> supported(entries@),
        outcome is Ok ==> records_view(final(out)@) == records_view(old(out)@) + flat(
            entries@,
            base_view(base),
        ),
        outcome matches Err(e) ==> e == Failure::UnsupportedObjectKind,
    decreases entries,
{
    let mut i: usize = 0;
    assert(entries@.take(0) =~= Seq::<Entry>::empty());
    assert(records_view(out@) + Seq::<RecordView>::empty() =~= records_view(out@));
    while i < entries.len()
        invariant
            i <= entries.len(),
            forall|j: int| 0 <= j < i ==> entry_supported(#[trigger] entries@[j]),
            records_view(out@) == records_view(old(out)@) + flat(entries@.take(i as int), base_view(base)),
        decreases entries.len() - i,
    {
        let entry = &entries[i];
        let path = join(base, &entry.name);
        let ghost before = out@;
        proof {
            flat_step(entries@, base_view(base), i as int);
        }
        match &entry.target {
            Target::Blob { size } => {
                let record = StagingRecord { path, id: entry.id, mode: entry.mode, size: *size };
                out.push(record);
                assert(records_view(out@) =~= records_view(before) + flat_entry(*entry, base_view(base)));
            },
            Target::Tree { entries: children } => {
                match flatten_into(children, Some(&path), out) {
                    Ok(()) => {},
                    Err(e) => {
                        return Err(e);
                    },
                }
            },
            Target::Other => {
                return Err(Failure::UnsupportedObjectKind);
            },
        }
        i = i + 1;
    }
    assert(entries@.take(entries.len() as int) =~= entries@);
    Ok(())
}

/// Flattens a resolved tree into staging records, one per blob, each under
/// the base path joined with the names that lead to it.
///
/// Fails as a whole when any entry, at any depth, is neither blob nor tree.
pub fn flatten(entries: &Vec<Entry>, base: Option<&Vec<u8>>) -> (outcome: Result<Vec<StagingRecord>, Failure>)
    ensures
        outcome is Ok <==> supported(entries@),
        outcome matches Ok(records) ==> records_view(records@) == flat(entries@, base_view(base)),
        outcome matches Err(e) ==> e == Failure::UnsupportedObjectKind,
{
    let mut out: Vec<StagingRecord> = Vec::new();
    assert(records_view(out@) =~= Seq::<RecordView>::empty());
    match flatten_into(entries, base, &mut out) {
        Ok(()) => {
            assert(Seq::<RecordView>::empty() + flat(entries@, base_view(base)) =~= flat(entries@, base_view(base)));
            Ok(out)
        },
        Err(e) => Err(e),
    }
}

/// `path` is the path of a blob that is reached from `entries` by going
/// down through subtrees, each name joined to the path of the tree above it.
pub open spec fn reaches(entries: Seq<Entry>, base: Option<Seq<u8>>, path: Seq<u8>) -> bool
    decreases entries,
{
    exists|i: int| 0 <= i < entries.len() && entry_reaches(#[trigger] entries[i], base, path)
}

/// `path` is the path of `entry` if it is a blob, or of a blob reached below
/// it if it is a tree.
pub open spec fn entry_reaches(entry: Entry, base: Option<Seq<u8>>, path: Seq<u8>) -> bool
    decreases entry,
{
    let here = join_spec(base, entry.name@);
    match entry.target {
        Target::Blob { .. } => path == here,
        Target::Tree { entries } => reaches(entries@, Some(here), path),
        Target::Other => false,
    }
}

/// `path` lies at `prefix` or below it: it is the prefix itself, or goes on
/// after it with a separator.
pub open spec fn at_or_below(prefix: Seq<u8>, path: Seq<u8>) -> bool {
    path == prefix || strictly_below(prefix, path)
}

/// `path` starts with `prefix` and a separator.
pub open spec fn strictly_below(prefix: Seq<u8>, path: Seq<u8>) -> bool {
    &&& path.len() > prefix.len()
    &&& path.take(prefix.len() as int) == prefix
    &&& path[prefix.len() as int] == SEPARATOR
}

proof fn paths_of_concat(a: Seq<RecordView>, b: Seq<RecordView>)
    ensures
        paths_of(a + b) == paths_of(a) + paths_of(b),
{
    assert(paths_of(a + b) =~= paths_of(a) + paths_of(b));
}

/// Flatten completeness, for one path: the flattener lists `path` exactly
/// when a blob with that path is reachable from the tree.
pub proof fn flatten_lists_reachable(entries: Seq<Entry>, base: Option<Seq<u8>>, path: Seq<u8>)
    ensures
        paths_of(flat(entries, base)).contains(path) <==> reaches(entries, base, path),
    decreases entries,
{
    if entries.len() == 0 {
        assert(paths_of(flat(entries, base)) =~= Seq::<Seq<u8>>::empty());
    } else {
        let init = entries.drop_last();
        let last = entries.last();
        flatten_lists_reachable(init, base, path);
        entry_lists_reachable(last, base, path);
        paths_of_concat(flat(init, base), flat_entry(last, base));
        lemma_seq_concat_contains_all_elements(
            paths_of(flat(init, base)),
            paths_of(flat_entry(last, base)),
            path,
        );
        if reaches(init, base, path) {
            let i = choose|i: int| 0 <= i < init.len() && entry_reaches(#[trigger] init[i], base, path);
            assert(entries[i] == init[i]);
        }
        if entry_reaches(last, base, path) {
            assert(entries[entries.len() - 1] == last);
        }
        if reaches(entries, base, path) {
            let i = choose|i: int| 0 <= i < entries.len() && entry_reaches(#[trigger] entries[i], base, path);
            if i < init.len() {
                assert(init[i] == entries[i]);
            }
        }
    }
}

proof fn entry_lists_reachable(entry: Entry, base: Option<Seq<u8>>, path: Seq<u8>)
    ensures
        paths_of(flat_entry(entry, base)).contains(path) <==> entry_reaches(entry, base, path),
    decreases entry,
{
    let here = join_spec(base, entry.name@);
    match entry.target {
        Target::Blob { size } => {
            let only = RecordView { path: here, id: entry.id@, mode: entry.mode, size };
            assert(paths_of(seq![only]) =~= seq![here]);
            assert(seq![here][0] == here);
        },
        Target::Tree { entries } => {
            flatten_lists_reachable(entries@, Some(here), path);
        },
        Target::Other => {
            assert(paths_of(Seq::<RecordView>::empty()) =~= Seq::<Seq<u8>>::empty());
        },
    }
}

/// Flatten completeness: the set of listed paths is the set of reachable
/// blob paths.
pub proof fn flatten_complete(entries: Seq<Entry>, base: Option<Seq<u8>>)
    ensures
        paths_of(flat(entries, base)).to_set() == Set::new(|path: Seq<u8>| reaches(entries, base, path)),
{
    assert forall|path: Seq<u8>|
        paths_of(flat(entries, base)).to_set().contains(path) <==> reaches(entries, base, path) by {
        flatten_lists_reachable(entries, base, path);
    }
    assert(paths_of(flat(entries, base)).to_set() =~= Set::new(|path: Seq<u8>| reaches(entries, base, path)));
}

proof fn listed_below_entry(entry: Entry, base: Option<Seq<u8>>, k: int)
    requires
        0 <= k < flat_entry(entry, base).len(),
    ensures
        at_or_below(join_spec(base, entry.name@), flat_entry(entry, base)[k].path),
    decreases entry,
{
    let here = join_spec(base, entry.name@);
    match entry.target {
        Target::Tree { entries } => {
            listed_below_base(entries@, here, k);
        },
        _ => {},
    }
}

proof fn listed_below_base(entries: Seq<Entry>, base: Seq<u8>, k: int)
    requires
        0 <= k < flat(entries, Some(base)).len(),
    ensures
        strictly_below(base, flat(entries, Some(base))[k].path),
    decreases entries,
{
    let init = entries.drop_last();
    let last = entries.last();
    let head = flat(init, Some(base));
    if k < head.len() {
        listed_below_base(init, base, k);
    } else {
        let path = flat_entry(last, Some(base))[k - head.len()].path;
        listed_below_entry(last, Some(base), k - head.len());
        let here = base + seq![SEPARATOR] + last.name@;
        assert(here.take(base.len() as int) =~= base);
        assert(here[base.len() as int] == SEPARATOR);
        if path != here {
            assert(path.take(here.len() as int) == here);
            assert(path.take(base.len() as int) =~= here.take(base.len() as int));
            assert(path[base.len() as int] == path.take(here.len() as int)[base.len() as int]);
        }
    }
}

/// Every listed record of `entries` lies at or below the path of one entry.
proof fn listed_has_owner(entries: Seq<Entry>, base: Option<Seq<u8>>, k: int) -> (i: int)
    requires
        0 <= k < flat(entries, base).len(),
    ensures
        0 <= i < entries.len(),
        at_or_below(join_spec(base, entries[i].name@), flat(entries, base)[k].path),
    decreases entries,
{
    let init = entries.drop_last();
    let head = flat(init, base);
    if k < head.len() {
        let i = listed_has_owner(init, base, k);
        assert(init[i] == entries[i]);
        i
    } else {
        listed_below_entry(entries.last(), base, k - head.len());
        entries.len() - 1
    }
}

/// Two distinct segments never lead to the same path.
proof fn segments_part_ways(base: Option<Seq<u8>>, first: Seq<u8>, second: Seq<u8>, path: Seq<u8>)
    requires
        first != second,
        !first.contains(SEPARATOR),
        !second.contains(SEPARATOR),
        at_or_below(join_spec(base, first), path),
    ensures
        !at_or_below(join_spec(base, second), path),
{
    let a = join_spec(base, first);
    let b = join_spec(base, second);
    let lead: Seq<u8> = match base {
        Some(b) => b + seq![SEPARATOR],
        None => Seq::empty(),
    };
    assert(a =~= lead + first);
    assert(b =~= lead + second);
    if at_or_below(b, path) {
        assert(path.len() >= a.len() && path.take(a.len() as int) =~= a);
        assert(path.len() >= b.len() && path.take(b.len() as int) =~= b);
        assert forall|j: int| 0 <= j < first.len() implies path[lead.len() + j] == first[j] by {
            assert(path.take(a.len() as int)[lead.len() + j] == a[lead.len() + j]);
        }
        assert forall|j: int| 0 <= j < second.len() implies path[lead.len() + j] == second[j] by {
            assert(path.take(b.len() as int)[lead.len() + j] == b[lead.len() + j]);
        }
        if first.len() == second.len() {
            assert(first =~= second);
        } else if first.len() < second.len() {
            assert(path[a.len() as int] == SEPARATOR);
            assert(second[first.len() as int] == SEPARATOR);
            assert(second.contains(SEPARATOR));
        } else {
            assert(path[b.len() as int] == SEPARATOR);
            assert(first[second.len() as int] == SEPARATOR);
            assert(first.contains(SEPARATOR));
        }
    }
}

/// No duplicates: in a well-formed tree the flattener lists no path twice.
pub proof fn flatten_has_no_duplicates(entries: Seq<Entry>, base: Option<Seq<u8>>)
    requires
        well_formed(entries),
    ensures
        paths_of(flat(entries, base)).no_duplicates(),
    decreases entries,
{
    if entries.len() > 0 {
        let init = entries.drop_last();
        let last = entries.last();
        let head = flat(init, base);
        let tail = flat_entry(last, base);
        assert forall|i: int| 0 <= i < init.len() implies entry_well_formed(#[trigger] init[i]) by {
            assert(init[i] == entries[i]);
        }
        assert(level_well_formed(init)) by {
            assert forall|i: int| 0 <= i < init.len() implies !(#[trigger] init[i]).name@.contains(SEPARATOR) by {
                assert(init[i] == entries[i]);
            }
            assert forall|i: int, j: int| 0 <= i < j < init.len() implies (#[trigger] init[i]).name@ != (
            #[trigger] init[j]).name@ by {
                assert(init[i] == entries[i] && init[j] == entries[j]);
            }
        }
        flatten_has_no_duplicates(init, base);
        assert(entry_well_formed(entries[entries.len() - 1]));
        entry_has_no_duplicates(last, base);
        paths_of_concat(head, tail);
        assert forall|i: int, j: int| 0 <= i < paths_of(head).len() && 0 <= j < paths_of(tail).len() implies paths_of(
            head,
        )[i] != paths_of(tail)[j] by {
            let owner = listed_has_owner(init, base, i);
            listed_below_entry(last, base, j);
            assert(init[owner] == entries[owner]);
            assert(entries[owner].name@ != entries[entries.len() - 1].name@);
            assert(!entries[owner].name@.contains(SEPARATOR));
            assert(!entries[entries.len() - 1].name@.contains(SEPARATOR));
            segments_part_ways(base, init[owner].name@, last.name@, head[i].path);
        }
        lemma_no_dup_in_concat(paths_of(head), paths_of(tail));
    } else {
        assert(paths_of(flat(entries, base)) =~= Seq::<Seq<u8>>::empty());
    }
}

proof fn entry_has_no_duplicates(entry: Entry, base: Option<Seq<u8>>)
    requires
        entry_well_formed(entry),
    ensures
        paths_of(flat_entry(entry, base)).no_duplicates(),
    decreases entry,
{
    match entry.target {
        Target::Tree { entries } => {
            flatten_has_no_duplicates(entries@, Some(join_spec(base, entry.name@)));
        },
        _ => {},
    }
}

/// No two of the records have paths of which one lies at or below the
/// other: they can all be held as files side by side.
pub open spec fn free_of_collisions(records: Seq<RecordView>) -> bool {
    forall|i: int, j: int|
        0 <= i < records.len() && 0 <= j < records.len() && i != j ==> !at_or_below(
            (#[trigger] records[i]).path,
            (#[trigger] records[j]).path,
        )
}

/// What lies below a path that lies at or below a prefix lies below the prefix.
proof fn below_goes_on(prefix: Seq<u8>, path: Seq<u8>, deeper: Seq<u8>)
    requires
        at_or_below(prefix, path),
        strictly_below(path, deeper),
    ensures
        strictly_below(prefix, deeper),
{
    if path != prefix {
        assert(deeper.take(prefix.len() as int) =~= deeper.take(path.len() as int).take(prefix.len() as int));
        assert(deeper[prefix.len() as int] == deeper.take(path.len() as int)[prefix.len() as int]);
    }
}

/// In a well-formed tree no listed path lies at or below another: no blob
/// stands where a directory is needed for another.
pub proof fn flatten_is_free_of_collisions(entries: Seq<Entry>, base: Option<Seq<u8>>)
    requires
        well_formed(entries),
    ensures
        free_of_collisions(flat(entries, base)),
    decreases entries,
{
    if entries.len() > 0 {
        let init = entries.drop_last();
        let last = entries.last();
        let head = flat(init, base);
        let tail = flat_entry(last, base);
        assert forall|i: int| 0 <= i < init.len() implies entry_well_formed(#[trigger] init[i]) by {
            assert(init[i] == entries[i]);
        }
        assert(level_well_formed(init)) by {
            assert forall|i: int| 0 <= i < init.len() implies !(#[trigger] init[i]).name@.contains(SEPARATOR) by {
                assert(init[i] == entries[i]);
            }
            assert forall|i: int, j: int| 0 <= i < j < init.len() implies (#[trigger] init[i]).name@ != (
            #[trigger] init[j]).name@ by {
                assert(init[i] == entries[i] && init[j] == entries[j]);
            }
        }
        flatten_is_free_of_collisions(init, base);
        assert(entry_well_formed(entries[entries.len() - 1]));
        entry_is_free_of_collisions(last, base);
        let all = head + tail;
        assert forall|i: int, j: int| 0 <= i < all.len() && 0 <= j < all.len() && i != j implies !at_or_below(
            (#[trigger] all[i]).path,
            (#[trigger] all[j]).path,
        ) by {
            if i < head.len() && j < head.len() {
                assert(!at_or_below(head[i].path, head[j].path));
            } else if i >= head.len() && j >= head.len() {
                assert(!at_or_below(tail[i - head.len()].path, tail[j - head.len()].path));
            } else {
                let (h, t) = if i < head.len() {
                    (i, j - head.len())
                } else {
                    (j, i - head.len())
                };
                let owner = listed_has_owner(init, base, h);
                listed_below_entry(last, base, t);
                assert(init[owner] == entries[owner]);
                assert(entries[owner].name@ != entries[entries.len() - 1].name@);
                assert(!entries[owner].name@.contains(SEPARATOR));
                assert(!entries[entries.len() - 1].name@.contains(SEPARATOR));
                let first = join_spec(base, init[owner].name@);
                let second = join_spec(base, last.name@);
                if at_or_below(all[i].path, all[j].path) {
                    if all[i].path == all[j].path {
                        segments_part_ways(base, init[owner].name@, last.name@, head[h].path);
                    } else if i < head.len() {
                        below_goes_on(first, head[h].path, tail[t].path);
                        segments_part_ways(base, init[owner].name@, last.name@, tail[t].path);
                    } else {
                        below_goes_on(second, tail[t].path, head[h].path);
                        segments_part_ways(base, init[owner].name@, last.name@, head[h].path);
                    }
                }
            }
        }
    }
}

proof fn entry_is_free_of_collisions(entry: Entry, base: Option<Seq<u8>>)
    requires
        entry_well_formed(entry),
    ensures
        free_of_collisions(flat_entry(entry, base)),
    decreases entry,
{
    match entry.target {
        Target::Tree { entries } => {
            flatten_is_free_of_collisions(entries@, Some(join_spec(base, entry.name@)));
        },
        _ => {},
    }
}

} // verus!
