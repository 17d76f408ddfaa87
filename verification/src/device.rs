//! Recognising the Bluetooth peer that the BLE client looks for by the name
//! it advertises.

use vstd::prelude::*;
use crate::number::text_bytes;

verus! {

/// `a` and `b` hold the same bytes.
pub fn same_bytes(a: &[u8], b: &[u8]) -> (r: bool)
    ensures
        r == (a@ == b@),
{
    if a.len() != b.len() {
        return false;
    }
    let mut i: usize = 0;
    while i < a.len()
        invariant
            a@.len() == b@.len(),
            i <= a@.len(),
            forall|k: int| 0 <= k < i ==> a@[k] == b@[k],
        decreases a@.len() - i,
    {
        if a[i] != b[i] {
            return false;
        }
        i = i + 1;
    }
    assert(a@ =~= b@);
    true
}

/// Whether an advertised device name is `target`.
pub fn is_device_named(name: &str, target: &str) -> (r: bool)
    ensures
        r == (text_bytes(name) == text_bytes(target)),
{
    same_bytes(name.as_bytes(), target.as_bytes())
}

} // verus!
