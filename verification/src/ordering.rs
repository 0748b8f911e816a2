//! The order in which the store lists the entries of a tree, and why a tree
//! in that order flattens to ascending paths.

use vstd::prelude::*;
use crate::flatten::{flat, flat_entry};
use crate::paths::{agree_upto, ascending, decided_at, join_spec, precedes, SEPARATOR};
use crate::staging::{acceptable, paths_of, RecordView};
use crate::tree::{Entry, Target};

verus! {

/// The key by which the store orders an entry within its tree: the name,
/// followed by a separator where the entry is a tree.
pub open spec fn sort_key(entry: Entry) -> Seq<u8> {
    if entry.target is Tree {
        entry.name@.push(SEPARATOR)
    } else {
        entry.name@
    }
}

/// The entries of one level are named by non-empty segments and stand in
/// the store's order: their keys ascend.
pub open spec fn level_in_store_order(entries: Seq<Entry>) -> bool {
    &&& forall|i: int|
        0 <= i < entries.len() ==> (#[trigger] entries[i]).name@.len() > 0 && !entries[i].name@.contains(SEPARATOR)
    &&& forall|i: int, j: int|
        0 <= i < j < entries.len() ==> precedes(sort_key(#[trigger] entries[i]), sort_key(#[trigger] entries[j]))
}

/// Every level of the tree is in the store's order.
pub open spec fn in_store_order(entries: Seq<Entry>) -> bool
    decreases entries,
{
    &&& level_in_store_order(entries)
    &&& forall|i: int| 0 <= i < entries.len() ==> entry_in_store_order(#[trigger] entries[i])
}

/// Every level below the entry is in the store's order.
pub open spec fn entry_in_store_order(entry: Entry) -> bool
    decreases entry,
{
    match entry.target {
        Target::Tree { entries } => in_store_order(entries@),
        _ => true,
    }
}

/// What every path below `base` starts with: the base and a separator, or
/// nothing where there is no base.
pub open spec fn lead(base: Option<Seq<u8>>) -> Seq<u8> {
    match base {
        Some(b) => b.push(SEPARATOR),
        None => Seq::empty(),
    }
}

/// `path` starts with `prefix`.
pub open spec fn begins_with(path: Seq<u8>, prefix: Seq<u8>) -> bool {
    path.len() >= prefix.len() && path.take(prefix.len() as int) == prefix
}

/// `path` belongs to `entry` below `base`: it starts with the lead and the
/// entry's key, and is just that where the entry is no tree.
pub open spec fn owned(entry: Entry, base: Option<Seq<u8>>, path: Seq<u8>) -> bool {
    &&& begins_with(path, lead(base) + sort_key(entry))
    &&& !(entry.target is Tree) ==> path == lead(base) + sort_key(entry)
}

proof fn listed_is_owned(entry: Entry, base: Option<Seq<u8>>, k: int)
    requires
        0 <= k < flat_entry(entry, base).len(),
    ensures
        owned(entry, base, flat_entry(entry, base)[k].path),
    decreases entry,
{
    let here = join_spec(base, entry.name@);
    assert(here =~= lead(base) + entry.name@);
    match entry.target {
        Target::Blob { .. } => {
            assert(here.take(here.len() as int) =~= here);
        },
        Target::Tree { entries } => {
            let i = listed_owner(entries@, Some(here), k);
            let path = flat(entries@, Some(here))[k].path;
            let mine = lead(base) + sort_key(entry);
            let theirs = lead(Some(here)) + sort_key(entries@[i]);
            assert(lead(Some(here)) =~= mine);
            assert(theirs.take(mine.len() as int) =~= mine);
            assert(path.take(mine.len() as int) =~= path.take(theirs.len() as int).take(mine.len() as int));
        },
        Target::Other => {},
    }
}

proof fn listed_owner(entries: Seq<Entry>, base: Option<Seq<u8>>, k: int) -> (i: int)
    requires
        0 <= k < flat(entries, base).len(),
    ensures
        0 <= i < entries.len(),
        owned(entries[i], base, flat(entries, base)[k].path),
    decreases entries,
{
    let init = entries.drop_last();
    let head = flat(init, base);
    if k < head.len() {
        let i = listed_owner(init, base, k);
        assert(init[i] == entries[i]);
        i
    } else {
        listed_is_owned(entries.last(), base, k - head.len());
        entries.len() - 1
    }
}

/// Paths that belong to two entries of one level stand in the order of the
/// entries' keys.
proof fn owners_order_paths(first: Entry, second: Entry, base: Option<Seq<u8>>, p: Seq<u8>, q: Seq<u8>)
    requires
        precedes(sort_key(first), sort_key(second)),
        !first.name@.contains(SEPARATOR),
        !second.name@.contains(SEPARATOR),
        owned(first, base, p),
        owned(second, base, q),
    ensures
        precedes(p, q),
{
    let l = lead(base);
    let k1 = sort_key(first);
    let k2 = sort_key(second);
    let d = choose|d: int| decided_at(k1, k2, d);
    let n = l.len() as int;
    assert forall|j: int| 0 <= j < n + k1.len() implies p[j] == (l + k1)[j] by {
        assert(p.take((l + k1).len() as int)[j] == p[j]);
    }
    assert forall|j: int| 0 <= j < n + k2.len() implies q[j] == (l + k2)[j] by {
        assert(q.take((l + k2).len() as int)[j] == q[j]);
    }
    assert(agree_upto(p, q, n + d)) by {
        assert forall|j: int| 0 <= j < n + d implies p[j] == q[j] by {
            if j >= n {
                assert(k1[j - n] == k2[j - n]);
            }
        }
    }
    if d < k1.len() {
        assert(p[n + d] == k1[d]);
        assert(q[n + d] == k2[d]);
        assert(decided_at(p, q, n + d));
    } else {
        if first.target is Tree {
            let m = first.name@.len() as int;
            assert(k1[m] == SEPARATOR);
            assert(k2[m] == SEPARATOR);
            if m < second.name@.len() {
                assert(second.name@[m] == SEPARATOR);
                assert(second.name@.contains(SEPARATOR));
            }
            assert(false);
        } else {
            assert(p.len() == n + d);
            assert(decided_at(p, q, n + d));
        }
    }
}

proof fn ascending_concat(a: Seq<Seq<u8>>, b: Seq<Seq<u8>>)
    requires
        ascending(a),
        ascending(b),
        forall|i: int, j: int| 0 <= i < a.len() && 0 <= j < b.len() ==> precedes(a[i], b[j]),
    ensures
        ascending(a + b),
{
    assert forall|i: int, j: int| 0 <= i < j < (a + b).len() implies precedes((a + b)[i], (a + b)[j]) by {
        if j < a.len() {
            assert(precedes(a[i], a[j]));
        } else if i < a.len() {
            assert(precedes(a[i], b[j - a.len()]));
        } else {
            assert(precedes(b[i - a.len()], b[j - a.len()]));
        }
    }
}

/// A tree in the store's order flattens to ascending paths.
pub proof fn store_order_flattens_ascending(entries: Seq<Entry>, base: Option<Seq<u8>>)
    requires
        in_store_order(entries),
    ensures
        ascending(paths_of(flat(entries, base))),
    decreases entries,
{
    if entries.len() > 0 {
        let init = entries.drop_last();
        let last = entries.last();
        let head = flat(init, base);
        let tail = flat_entry(last, base);
        assert(in_store_order(init)) by {
            assert forall|i: int| 0 <= i < init.len() implies (#[trigger] init[i]).name@.len() > 0 && !init[i].name@.contains(
                SEPARATOR,
            ) && entry_in_store_order(init[i]) by {
                assert(init[i] == entries[i]);
            }
            assert forall|i: int, j: int| 0 <= i < j < init.len() implies precedes(
                sort_key(#[trigger] init[i]),
                sort_key(#[trigger] init[j]),
            ) by {
                assert(init[i] == entries[i] && init[j] == entries[j]);
            }
        }
        store_order_flattens_ascending(init, base);
        assert(entry_in_store_order(entries[entries.len() - 1]));
        entry_flattens_ascending(last, base);
        assert(paths_of(head + tail) =~= paths_of(head) + paths_of(tail));
        assert forall|i: int, j: int| 0 <= i < paths_of(head).len() && 0 <= j < paths_of(tail).len() implies precedes(
            paths_of(head)[i],
            paths_of(tail)[j],
        ) by {
            let owner = listed_owner(init, base, i);
            listed_is_owned(last, base, j);
            assert(init[owner] == entries[owner]);
            assert(precedes(sort_key(entries[owner]), sort_key(entries[entries.len() - 1])));
            assert(!entries[owner].name@.contains(SEPARATOR));
            assert(!entries[entries.len() - 1].name@.contains(SEPARATOR));
            owners_order_paths(init[owner], last, base, head[i].path, tail[j].path);
        }
        ascending_concat(paths_of(head), paths_of(tail));
    } else {
        assert(paths_of(flat(entries, base)) =~= Seq::<Seq<u8>>::empty());
    }
}

proof fn entry_flattens_ascending(entry: Entry, base: Option<Seq<u8>>)
    requires
        entry_in_store_order(entry),
    ensures
        ascending(paths_of(flat_entry(entry, base))),
    decreases entry,
{
    match entry.target {
        Target::Tree { entries } => {
            store_order_flattens_ascending(entries@, Some(join_spec(base, entry.name@)));
        },
        _ => {},
    }
}

/// A tree in the store's order flattens to records that a staging area
/// accepts: no path is empty, and the paths ascend.
pub proof fn store_order_is_acceptable(entries: Seq<Entry>, base: Option<Seq<u8>>)
    requires
        in_store_order(entries),
    ensures
        acceptable(flat(entries, base)),
{
    store_order_flattens_ascending(entries, base);
    let records = flat(entries, base);
    assert forall|k: int| 0 <= k < records.len() implies (#[trigger] records[k]).path.len() > 0 by {
        let i = listed_owner(entries, base, k);
        assert(entries[i].name@.len() > 0);
        assert(sort_key(entries[i]).len() > 0);
    }
}

} // verus!
