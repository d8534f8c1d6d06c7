//! Small string helpers: character-exact equality, appending one character,
//! and UTF-8 decoding of entry bytes.

use vstd::prelude::*;
use vstd::utf8::{decode_utf8, valid_utf8};

verus! {

/// Character-by-character string equality.
pub fn str_eq(a: &str, b: &str) -> (r: bool)
    ensures
        r <==> a@ == b@,
{
    let alen = a.unicode_len();
    let blen = b.unicode_len();
    if alen != blen {
        return false;
    }
    let mut i: usize = 0;
    while i < alen
        invariant
            0 <= i <= alen,
            alen == a@.len(),
            alen == b@.len(),
            forall|j: int| 0 <= j < i ==> a@[j] == b@[j],
        decreases alen - i,
    {
        let ca = a.get_char(i);
        let cb = b.get_char(i);
        if ca != cb {
            assert(a@[i as int] != b@[i as int]);
            return false;
        }
        i += 1;
    }
    proof {
        assert(a@ =~= b@);
    }
    true
}

/// Relies on `String::push`: appends exactly one character.
#[verifier::external_body]
pub fn push_char(s: &mut String, c: char)
    ensures
        final(s)@ == old(s)@.push(c),
{
    s.push(c);
}

/// Relies on `String::from_utf8`: succeeds exactly on valid UTF-8 input and
/// decodes it, byte for byte, without transcoding.
#[verifier::external_body]
pub fn string_from_utf8(v: Vec<u8>) -> (r: Option<String>)
    ensures
        r is Some <==> valid_utf8(v@),
        r matches Some(s) ==> s@ == decode_utf8(v@),
{
    match String::from_utf8(v) {
        Ok(s) => Option::Some(s),
        Err(_) => Option::None,
    }
}

} // verus!
