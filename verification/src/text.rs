//! Byte and string helpers shared by the monitor modules.

use vstd::prelude::*;
use vstd::string::StringSliceAdditionalSpecFns;
use crate::line::all_ascii;

verus! {

pub(crate) proof fn lemma_ascii_is_utf8(t: Seq<u8>)
    requires
        all_ascii(t),
    ensures
        vstd::utf8::valid_utf8(t),
    decreases t.len(),
{
    if t.len() != 0 {
        let rest = t.subrange(1, t.len() as int);
        assert(all_ascii(rest));
        lemma_ascii_is_utf8(rest);
        assert(vstd::utf8::pop_first_scalar(t) =~= rest);
    }
}

/// `std::str::from_utf8`: the text of the bytes when they are valid UTF-8.
#[verifier::external_body]
pub(crate) fn str_from_utf8(v: &[u8]) -> (r: Option<&str>)
    ensures
        r is Some <==> vstd::utf8::valid_utf8(v@),
        r matches Some(s) ==> s.spec_bytes() == v@,
{
    core::str::from_utf8(v).ok()
}

/// `a@ == b@`, decided byte by byte.
pub fn bytes_equal(a: &[u8], b: &[u8]) -> (r: bool)
    ensures
        r == (a@ == b@),
{
    if a.len() != b.len() {
        return false;
    }
    let mut i: usize = 0;
    while i < a.len()
        invariant
            i <= a@.len(),
            a@.len() == b@.len(),
            forall|j: int| 0 <= j < i ==> a@[j] == b@[j],
        decreases a@.len() - i,
    {
        if a[i] != b[i] {
            return false;
        }
        i += 1;
    }
    assert(a@ =~= b@);
    true
}

/// `a == b` on string slices, decided on their bytes.
pub fn str_eq(a: &str, b: &str) -> (r: bool)
    ensures
        r == (a@ == b@),
{
    let r = bytes_equal(a.as_bytes(), b.as_bytes());
    proof {
        vstd::utf8::encode_utf8_decode_utf8(a@);
        vstd::utf8::encode_utf8_decode_utf8(b@);
    }
    r
}

} // verus!
