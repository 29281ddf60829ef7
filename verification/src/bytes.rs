//! Byte strings and 32-byte hashes.
use vstd::prelude::*;

verus! {

/// The byte strings in a list.
pub open spec fn views(list: Vec<Vec<u8>>) -> Seq<Seq<u8>> {
    list@.map_values(|bytes: Vec<u8>| bytes@)
}

/// Whether two byte strings are equal.
pub fn same_bytes(a: &[u8], b: &[u8]) -> (same: bool)
    ensures
        same == (a@ == b@),
{
    if a.len() != b.len() {
        return false;
    }
    let mut i: usize = 0;
    while i < a.len()
        invariant
            a@.len() == b@.len(),
            i <= a@.len(),
            forall|k: int| 0 <= k < i ==> a@[k] == b@[k],
        decreases a@.len() - i,
    {
        if a[i] != b[i] {
            return false;
        }
        i += 1;
    }
    assert(a@ =~= b@);
    true
}

/// Whether two hashes are equal.
pub fn same_hash(a: &[u8; 32], b: &[u8; 32]) -> (same: bool)
    ensures
        same == (a@ == b@),
{
    let mut i: usize = 0;
    while i < 32
        invariant
            i <= 32,
            forall|k: int| 0 <= k < i ==> a@[k] == b@[k],
        decreases 32 - i,
    {
        if a[i] != b[i] {
            return false;
        }
        i += 1;
    }
    assert(a@ =~= b@);
    true
}

/// Whether a byte string spells a hash.
pub fn is_hash(bytes: &[u8], hash: &[u8; 32]) -> (same: bool)
    ensures
        same == (bytes@ == hash@),
{
    if bytes.len() != 32 {
        return false;
    }
    let mut i: usize = 0;
    while i < 32
        invariant
            bytes@.len() == 32,
            i <= 32,
            forall|k: int| 0 <= k < i ==> bytes@[k] == hash@[k],
        decreases 32 - i,
    {
        if bytes[i] != hash[i] {
            return false;
        }
        i += 1;
    }
    assert(bytes@ =~= hash@);
    true
}

/// The hash that a byte string spells, if it has the length of one.
pub fn to_hash(bytes: &[u8]) -> (hash: Option<[u8; 32]>)
    ensures
        match hash {
            Some(hash) => hash@ == bytes@,
            None => bytes@.len() != 32,
        },
{
    if bytes.len() != 32 {
        return None;
    }
    let mut hash: [u8; 32] = [0u8;32];
    let mut i: usize = 0;
    while i < 32
        invariant
            bytes@.len() == 32,
            i <= 32,
            forall|k: int| 0 <= k < i ==> hash@[k] == bytes@[k],
        decreases 32 - i,
    {
        hash[i] = bytes[i];
        i += 1;
    }
    assert(hash@ =~= bytes@);
    Some(hash)
}

/// Copies a byte string.
pub fn copy_bytes(bytes: &[u8]) -> (copy: Vec<u8>)
    ensures
        copy@ == bytes@,
{
    let mut copy: Vec<u8> = Vec::new();
    copy.extend_from_slice(bytes);
    assert(copy@ =~= bytes@);
    copy
}

} // verus!
