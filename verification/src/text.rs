//! Small verified text helpers: exact and ASCII-case-insensitive comparison.

use vstd::prelude::*;
use vstd::string::StringSliceAdditionalSpecFns;

verus! {

/// Decides whether two strings hold the same characters.
pub fn string_eq(a: &String, b: &String) -> (r: bool)
    ensures
        r == (a@ == b@),
{
    a.eq(b)
}

/// ASCII lower-casing of one byte: `A`..`Z` map to `a`..`z`, all else is kept.
pub open spec fn lower_byte(b: u8) -> u8 {
    if 65 <= b <= 90 {
        (b + 32) as u8
    } else {
        b
    }
}

/// Two byte strings are equal up to ASCII case.
pub open spec fn eq_ignore_ascii_case(a: Seq<u8>, b: Seq<u8>) -> bool {
    a.len() == b.len() && forall|k: int|
        0 <= k < a.len() ==> lower_byte(#[trigger] a[k]) == lower_byte(b[k])
}

fn lower_byte_exec(b: u8) -> (r: u8)
    ensures
        r == lower_byte(b),
{
    if 65 <= b && b <= 90 {
        b + 32
    } else {
        b
    }
}

/// Decides whether two strings are equal up to ASCII case, by their bytes.
pub fn str_eq_ignore_ascii_case(a: &str, b: &str) -> (r: bool)
    ensures
        r == eq_ignore_ascii_case(a.spec_bytes(), b.spec_bytes()),
{
    let ab = a.as_bytes();
    let bb = b.as_bytes();
    if ab.len() != bb.len() {
        return false;
    }
    let n = ab.len();
    let mut i: usize = 0;
    while i < n
        invariant
            i <= n,
            n == ab@.len() == bb@.len(),
            ab@ == a.spec_bytes(),
            bb@ == b.spec_bytes(),
            forall|k: int| 0 <= k < i ==> lower_byte(#[trigger] ab@[k]) == lower_byte(bb@[k]),
        decreases n - i,
    {
        if lower_byte_exec(ab[i]) != lower_byte_exec(bb[i]) {
            proof {
                assert(lower_byte(ab@[i as int]) != lower_byte(bb@[i as int]));
            }
            return false;
        }
        i += 1;
    }
    true
}

} // verus!
