//! Names as Vulkan passes them: strings of bytes that end before the first
//! zero byte.

use vstd::prelude::*;

verus! {

/// `index` is where the first zero byte of `bytes` stands.
pub open spec fn is_first_nul(bytes: Seq<u8>, index: int) -> bool {
    &&& 0 <= index < bytes.len()
    &&& bytes[index] == 0
    &&& forall|j: int| 0 <= j < index ==> bytes[j] != 0
}

/// Some byte of `bytes` is zero.
pub open spec fn has_nul(bytes: Seq<u8>) -> bool {
    exists|i: int| 0 <= i < bytes.len() && bytes[i] == 0
}

/// Where the first zero byte of `bytes` stands, if it has one.
pub open spec fn nul_position(bytes: Seq<u8>) -> Option<int> {
    if has_nul(bytes) {
        Some(choose|i: int| is_first_nul(bytes, i))
    } else {
        None
    }
}

/// The first zero byte is the one that `nul_position` names.
pub proof fn lemma_first_nul_is_position(bytes: Seq<u8>, index: int)
    requires
        is_first_nul(bytes, index),
    ensures
        nul_position(bytes) == Some(index),
{
    let chosen = choose|i: int| is_first_nul(bytes, i);
    assert(is_first_nul(bytes, chosen));
    if chosen < index {
        assert(bytes[chosen] != 0);
    } else if index < chosen {
        assert(bytes[index] != 0);
    }
}

/// Finds the first zero byte of a string of bytes.
pub fn find_nul(bytes: &[u8]) -> (found: Option<usize>)
    ensures
        found is Some <==> has_nul(bytes@),
        found is Some ==> is_first_nul(bytes@, found->0 as int),
        nul_position(bytes@) == (match found {
            Some(index) => Some(index as int),
            None => None,
        }),
{
    let mut at: usize = 0;
    while at < bytes.len()
        invariant
            at <= bytes.len(),
            forall|j: int| 0 <= j < at ==> bytes@[j] != 0,
        decreases bytes.len() - at,
    {
        if bytes[at] == 0 {
            proof {
                lemma_first_nul_is_position(bytes@, at as int);
            }
            return Some(at);
        }
        at += 1;
    }
    None
}

/// Whether two names hold the same bytes.
pub fn same_bytes(left: &[u8], right: &[u8]) -> (same: bool)
    ensures
        same == (left@ == right@),
{
    if left.len() != right.len() {
        return false;
    }
    let mut at: usize = 0;
    while at < left.len()
        invariant
            at <= left.len(),
            left.len() == right.len(),
            forall|j: int| 0 <= j < at ==> left@[j] == right@[j],
        decreases left.len() - at,
    {
        if left[at] != right[at] {
            return false;
        }
        at += 1;
    }
    assert(left@ =~= right@);
    true
}

/// A copy of the bytes of a name.
pub fn copy_bytes(bytes: &[u8]) -> (copy: Vec<u8>)
    ensures
        copy@ == bytes@,
{
    let mut copy: Vec<u8> = Vec::with_capacity(bytes.len());
    let mut at: usize = 0;
    while at < bytes.len()
        invariant
            at <= bytes.len(),
            copy@ == bytes@.take(at as int),
        decreases bytes.len() - at,
    {
        copy.push(bytes[at]);
        assert(bytes@.take(at + 1) =~= bytes@.take(at as int).push(bytes@[at as int]));
        at += 1;
    }
    assert(bytes@.take(bytes.len() as int) =~= bytes@);
    copy
}

} // verus!
