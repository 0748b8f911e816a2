//! Object identifiers: fixed-width content hashes.

use vstd::prelude::*;

verus! {

/// Width of an object identifier in bytes.
pub const ID_LEN: usize = 20;

/// The content hash that names a blob, a tree or a commit in the object store.
///
/// Two identifiers are the same exactly when their bytes are the same.
#[derive(Clone, Copy, Debug, PartialEq, Eq, Hash)]
pub struct ObjectId {
    pub bytes: [u8; 20],
}

impl View for ObjectId {
    type V = Seq<u8>;

    open spec fn view(&self) -> Seq<u8> {
        self.bytes@
    }
}

/// The lower-case hexadecimal digit that stands for `nibble`.
pub open spec fn hex_digit(nibble: int) -> u8 {
    if nibble < 10 {
        (48 + nibble) as u8
    } else {
        (87 + nibble) as u8
    }
}

/// The hexadecimal text of a byte sequence: two digits per byte, high nibble first.
pub open spec fn hex_of(bytes: Seq<u8>) -> Seq<u8> {
    Seq::new(2 * bytes.len(), |i: int| hex_digit(if i % 2 == 0 { bytes[i / 2] as int / 16 } else { bytes[i / 2] as int % 16 }))
}

fn hex_digit_of(nibble: u8) -> (d: u8)
    requires
        nibble < 16,
    ensures
        d == hex_digit(nibble as int),
{
    if nibble < 10 {
        48 + nibble
    } else {
        87 + nibble
    }
}

impl ObjectId {
    /// Builds an identifier from its bytes.
    pub fn from_bytes(bytes: [u8; 20]) -> (id: ObjectId)
        ensures
            id@ == bytes@,
            id.bytes == bytes,
    {
        ObjectId { bytes }
    }

    /// Tells whether `self` and `other` are the same identifier.
    pub fn same_as(&self, other: &ObjectId) -> (same: bool)
        ensures
            same == (self@ == other@),
            same == (*self == *other),
    {
        let mut i: usize = 0;
        while i < 20
            invariant
                i <= 20,
                forall|j: int| 0 <= j < i ==> self.bytes@[j] == other.bytes@[j],
            decreases 20 - i,
        {
            if self.bytes[i] != other.bytes[i] {
                return false;
            }
            i = i + 1;
        }
        assert(self.bytes@ =~= other.bytes@);
        assert(self.bytes == other.bytes);
        true
    }

    /// Tells whether every byte of the identifier is zero.
    pub fn is_zero(&self) -> (zero: bool)
        ensures
            zero == (forall|j: int| 0 <= j < 20 ==> self@[j] == 0),
    {
        let mut i: usize = 0;
        while i < 20
            invariant
                i <= 20,
                forall|j: int| 0 <= j < i ==> self.bytes@[j] == 0,
            decreases 20 - i,
        {
            if self.bytes[i] != 0 {
                assert(self@[i as int] != 0);
                return false;
            }
            i = i + 1;
        }
        true
    }

    /// The identifier as forty lower-case hexadecimal digits.
    pub fn to_hex(&self) -> (text: Vec<u8>)
        ensures
            text@ == hex_of(self@),
            text@.len() == 40,
    {
        let mut text: Vec<u8> = Vec::new();
        let mut i: usize = 0;
        while i < 20
            invariant
                i <= 20,
                text@.len() == 2 * i,
                forall|k: int| 0 <= k < 2 * i ==> text@[k] == hex_of(self@)[k],
            decreases 20 - i,
        {
            let b: u8 = self.bytes[i];
            text.push(hex_digit_of(b / 16));
            text.push(hex_digit_of(b % 16));
            i = i + 1;
        }
        assert(text@ =~= hex_of(self@));
        text
    }
}

} // verus!
