//! ## Keys
//!
//! An account address is 32 raw bytes. The program only ever compares keys,
//! copies them, or reads them out of account data, so the plain array is the
//! whole model.

use vstd::prelude::*;

verus! {

/// A 32-byte account address.
pub type Key = [u8; 32];

/// Byte-wise key comparison.
pub fn key_eq(a: &Key, b: &Key) -> (r: bool)
    ensures
        r == (a@ == b@),
        r == (*a == *b),
{
    let mut i: usize = 0;
    while i < 32
        invariant
            0 <= i <= 32,
            a@.len() == 32,
            b@.len() == 32,
            forall|j: int| 0 <= j < i ==> a@[j] == b@[j],
        decreases 32 - i,
    {
        if a[i] != b[i] {
            assert(a@[i as int] != b@[i as int]);
            assert(a@ != b@);
            return false;
        }
        i = i + 1;
    }
    assert(a@ =~= b@);
    assert(*a =~= *b);
    true
}

/// Is `k` one of the keys in `list`?
pub fn keys_contain(list: &Vec<Key>, k: &Key) -> (r: bool)
    ensures
        r == list@.contains(*k),
{
    let mut i: usize = 0;
    while i < list.len()
        invariant
            0 <= i <= list.len(),
            forall|j: int| 0 <= j < i ==> list@[j] != *k,
        decreases list.len() - i,
    {
        if key_eq(&list[i], k) {
            assert(list@[i as int] == *k);
            return true;
        }
        i = i + 1;
    }
    assert(!list@.contains(*k)) by {
        if list@.contains(*k) {
            let j = choose|j: int| 0 <= j < list@.len() && list@[j] == *k;
            assert(list@[j] != *k);
        }
    }
    false
}

/// Copies 32 bytes starting at `start` out of `data` into a key.
pub fn key_from_slice(data: &Vec<u8>, start: usize) -> (k: Key)
    requires
        start + 32 <= data.len(),
    ensures
        k@ == data@.subrange(start as int, start + 32),
{
    let mut k: Key = [0u8; 32];
    let mut i: usize = 0;
    while i < 32
        invariant
            0 <= i <= 32,
            start + 32 <= data.len(),
            k@.len() == 32,
            forall|j: int| 0 <= j < i ==> k@[j] == data@[start + j],
        decreases 32 - i,
    {
        k[i] = data[start + i];
        i = i + 1;
    }
    assert(k@ =~= data@.subrange(start as int, start + 32));
    k
}

} // verus!
