//! Slash-joined relative paths and their byte-wise order.

use vstd::prelude::*;
use crate::bytes::{append_bytes, copy_bytes};

verus! {

/// The byte that separates the segments of a path.
pub const SEPARATOR: u8 = 47;

/// Result of comparing two paths byte by byte.
#[derive(Clone, Copy, Debug, PartialEq, Eq, Structural)]
pub enum PathOrder {
    Before,
    Same,
    After,
}

/// The path of an entry called `name` below `base`: the base, a separator and
/// the name, or the name alone where there is no base.
pub open spec fn join_spec(base: Option<Seq<u8>>, name: Seq<u8>) -> Seq<u8> {
    match base {
        Some(b) => b + seq![SEPARATOR] + name,
        None => name,
    }
}

/// The view of an optional base path.
pub open spec fn base_view(base: Option<&Vec<u8>>) -> Option<Seq<u8>> {
    match base {
        Some(b) => Some(b@),
        None => None,
    }
}

/// `a` and `b` agree on their first `k` bytes.
pub open spec fn agree_upto(a: Seq<u8>, b: Seq<u8>, k: int) -> bool {
    &&& 0 <= k <= a.len()
    &&& k <= b.len()
    &&& forall|j: int| 0 <= j < k ==> a[j] == b[j]
}

/// `a` comes before `b` and position `k` decides it: both agree up to `k`,
/// and there `a` ends while `b` goes on, or `a` holds the smaller byte.
pub open spec fn decided_at(a: Seq<u8>, b: Seq<u8>, k: int) -> bool {
    &&& agree_upto(a, b, k)
    &&& k < b.len()
    &&& (k == a.len() || a[k] < b[k])
}

/// Strict lexicographic order on paths, byte by byte.
pub open spec fn precedes(a: Seq<u8>, b: Seq<u8>) -> bool {
    exists|k: int| decided_at(a, b, k)
}

/// Every path comes strictly before each later one.
pub open spec fn ascending(paths: Seq<Seq<u8>>) -> bool {
    forall|i: int, j: int| 0 <= i < j < paths.len() ==> precedes(paths[i], paths[j])
}

/// No path comes before itself.
pub proof fn precedes_irreflexive(a: Seq<u8>)
    ensures
        !precedes(a, a),
{
    if precedes(a, a) {
        let k = choose|k: int| decided_at(a, a, k);
        assert(decided_at(a, a, k));
    }
}

/// The order is transitive.
pub proof fn precedes_transitive(a: Seq<u8>, b: Seq<u8>, c: Seq<u8>)
    requires
        precedes(a, b),
        precedes(b, c),
    ensures
        precedes(a, c),
{
    let k1 = choose|k: int| decided_at(a, b, k);
    let k2 = choose|k: int| decided_at(b, c, k);
    let k = if k1 <= k2 { k1 } else { k2 };
    assert(decided_at(a, c, k));
}

/// Of two distinct paths one comes before the other, and never both.
pub proof fn precedes_total(a: Seq<u8>, b: Seq<u8>)
    ensures
        a == b || precedes(a, b) || precedes(b, a),
        !(precedes(a, b) && precedes(b, a)),
        a == b ==> !precedes(a, b),
{
    precedes_irreflexive(a);
    if precedes(a, b) && precedes(b, a) {
        precedes_transitive(a, b, a);
    }
    if a != b {
        let k = first_difference(a, b, 0);
        if k == a.len() {
            assert(decided_at(a, b, k));
        } else if k == b.len() {
            assert(decided_at(b, a, k));
        } else if a[k] < b[k] {
            assert(decided_at(a, b, k));
        } else {
            assert(decided_at(b, a, k));
        }
    }
}

/// The first position at or after `from` where `a` and `b` stop agreeing.
proof fn first_difference(a: Seq<u8>, b: Seq<u8>, from: int) -> (k: int)
    requires
        a != b,
        agree_upto(a, b, from),
    ensures
        agree_upto(a, b, k),
        agree_upto(b, a, k),
        k == a.len() || k == b.len() || a[k] != b[k],
        !(k == a.len() && k == b.len()),
    decreases a.len() - from,
{
    if from == a.len() || from == b.len() {
        if from == a.len() && from == b.len() {
            assert(a =~= b);
        }
        from
    } else if a[from] != b[from] {
        from
    } else {
        first_difference(a, b, from + 1)
    }
}

/// An ascending sequence of paths holds no path twice.
pub proof fn ascending_has_no_duplicates(paths: Seq<Seq<u8>>)
    requires
        ascending(paths),
    ensures
        paths.no_duplicates(),
{
    assert forall|i: int, j: int| 0 <= i < paths.len() && 0 <= j < paths.len() && i != j implies paths[i] != paths[j] by {
        precedes_irreflexive(paths[i]);
        if i < j {
            assert(precedes(paths[i], paths[j]));
        } else {
            assert(precedes(paths[j], paths[i]));
        }
    }
}

/// Compares two paths byte by byte.
pub fn compare(a: &Vec<u8>, b: &Vec<u8>) -> (order: PathOrder)
    ensures
        order == PathOrder::Before <==> precedes(a@, b@),
        order == PathOrder::Same <==> a@ == b@,
        order == PathOrder::After <==> precedes(b@, a@),
{
    let mut i: usize = 0;
    while i < a.len() && i < b.len()
        invariant
            agree_upto(a@, b@, i as int),
            agree_upto(b@, a@, i as int),
        decreases a.len() - i,
    {
        if a[i] < b[i] {
            proof {
                assert(decided_at(a@, b@, i as int));
                precedes_total(a@, b@);
            }
            return PathOrder::Before;
        }
        if a[i] > b[i] {
            proof {
                assert(decided_at(b@, a@, i as int));
                precedes_total(a@, b@);
            }
            return PathOrder::After;
        }
        i = i + 1;
    }
    proof {
        precedes_total(a@, b@);
    }
    if i < b.len() {
        assert(decided_at(a@, b@, i as int));
        PathOrder::Before
    } else if i < a.len() {
        assert(decided_at(b@, a@, i as int));
        PathOrder::After
    } else {
        assert(a@ =~= b@);
        PathOrder::Same
    }
}

/// Joins an entry's name to the path of the tree that lists it.
pub fn join(base: Option<&Vec<u8>>, name: &Vec<u8>) -> (path: Vec<u8>)
    ensures
        path@ == join_spec(base_view(base), name@),
{
    match base {
        Some(b) => {
            let mut path = copy_bytes(b);
            path.push(SEPARATOR);
            append_bytes(&mut path, name);
            path
        },
        None => copy_bytes(name),
    }
}

/// Tells whether a name is a single path segment: it holds no separator.
pub fn is_segment(name: &Vec<u8>) -> (ok: bool)
    ensures
        ok == !name@.contains(SEPARATOR),
{
    let mut i: usize = 0;
    while i < name.len()
        invariant
            i <= name.len(),
            forall|j: int| 0 <= j < i ==> name@[j] != SEPARATOR,
        decreases name.len() - i,
    {
        if name[i] == SEPARATOR {
            assert(name@[i as int] == SEPARATOR);
            return false;
        }
        i = i + 1;
    }
    true
}

} // verus!
