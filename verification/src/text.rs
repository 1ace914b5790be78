//! Tests on texts that the registry's rules need.

use vstd::prelude::*;
use vstd::utf8::{encode_utf8, encode_utf8_decode_utf8};

verus! {

/// Whether `text` holds the character that marks an email address.
pub fn contains_at(text: &str) -> (found: bool)
    ensures
        found == text@.contains('@'),
{
    let mut found = false;
    for c in it: text.chars()
        invariant
            it.seq() == text@,
            found <==> exists|j: int| 0 <= j < it.index() && text@[j] == '@',
    {
        if c == '@' {
            found = true;
        }
    }
    found
}

/// Whether two texts have the same characters.
pub fn text_eq(a: &str, b: &str) -> (same: bool)
    ensures
        same == (a@ == b@),
{
    let x = a.as_bytes();
    let y = b.as_bytes();
    proof {
        lemma_same_bytes_same_text(a@, b@);
    }
    if x.len() != y.len() {
        return false;
    }
    for i in 0..x.len()
        invariant
            x@.len() == y@.len(),
            (x@ == y@) <==> (a@ == b@),
            forall|j: int| 0 <= j < i ==> x@[j] == y@[j],
    {
        if x[i] != y[i] {
            return false;
        }
    }
    assert(x@ =~= y@);
    true
}

/// The lower-case form of `text`, as `str::to_lowercase` of the standard
/// library gives it.
pub uninterp spec fn lowercase(text: Seq<char>) -> Seq<char>;

/// Calls `str::to_lowercase`: the result is the lower-case form of the
/// text, a function of its characters alone.
#[verifier::external_body]
pub(crate) fn to_lowercase(text: &str) -> (lower: String)
    ensures
        lower@ == lowercase(text@),
{
    text.to_lowercase()
}

/// Two email addresses are the same address: they differ at most in the
/// case of their letters.
pub open spec fn same_email(a: Seq<char>, b: Seq<char>) -> bool {
    lowercase(a) == lowercase(b)
}

/// Two texts have the same characters exactly where they have the same
/// UTF-8 bytes.
pub proof fn lemma_same_bytes_same_text(a: Seq<char>, b: Seq<char>)
    ensures
        (encode_utf8(a) == encode_utf8(b)) <==> (a == b),
{
    encode_utf8_decode_utf8(a);
    encode_utf8_decode_utf8(b);
}

/// Whether two texts are equal, found without stopping at the first
/// difference: for texts of one length the time taken does not depend on
/// where they differ.
pub fn constant_time_eq(a: &str, b: &str) -> (same: bool)
    ensures
        same == (a@ == b@),
{
    let x = a.as_bytes();
    let y = b.as_bytes();
    proof {
        lemma_same_bytes_same_text(a@, b@);
    }
    if x.len() != y.len() {
        return false;
    }
    let mut diff: u8 = 0;
    for i in 0..x.len()
        invariant
            x@.len() == y@.len(),
            diff == 0 <==> forall|j: int| 0 <= j < i ==> x@[j] == y@[j],
    {
        let xb: u8 = x[i];
        let yb: u8 = y[i];
        let d: u8 = xb ^ yb;
        assert((d == 0) <==> (xb == yb)) by (bit_vector)
            requires
                d == xb ^ yb,
        ;
        let old_diff = diff;
        diff = diff | d;
        assert((diff == 0) <==> (old_diff == 0 && d == 0)) by (bit_vector)
            requires
                diff == old_diff | d,
        ;
    }
    assert((diff == 0) <==> (x@ =~= y@));
    diff == 0
}

} // verus!
