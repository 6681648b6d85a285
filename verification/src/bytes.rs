//! Small executable helpers on byte vectors.

use vstd::prelude::*;

verus! {

/// Byte-for-byte equality of two byte vectors.
pub fn bytes_eq(a: &Vec<u8>, b: &Vec<u8>) -> (r: bool)
    ensures
        r == (a@ == b@),
{
    if a.len() != b.len() {
        assert(a@ != b@) by {
            assert(a@.len() != b@.len());
        }
        return false;
    }
    let mut i: usize = 0;
    while i < a.len()
        invariant
            i <= a@.len(),
            a@.len() == b@.len(),
            forall|j: int| 0 <= j < i ==> a@[j] == b@[j],
        decreases a@.len() - i,
    {
        if a[i] != b[i] {
            return false;
        }
        i += 1;
    }
    assert(a@ =~= b@);
    true
}

/// Whether the last byte of `s` is an ASCII `/`, the path separator.
pub open spec fn sp_ends_in_slash(s: Seq<u8>) -> bool {
    s.len() > 0 && s[s.len() - 1] == 47u8
}

/// Executable check for a trailing path separator.
pub fn ends_in_slash(s: &Vec<u8>) -> (r: bool)
    ensures
        r == sp_ends_in_slash(s@),
{
    s.len() > 0 && s[s.len() - 1] == 47u8
}

} // verus!
