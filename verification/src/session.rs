//! Session tokens: opaque bearer credentials drawn at random.

use rand::Rng;
use vstd::prelude::*;
use vstd::string::StringExecFns;
use vstd::utf8::is_ascii_chars;

verus! {

/// The number of characters of a session token.
pub const SESSION_KEY_LENGTH: usize = 32;

/// The characters that a session token is made of: the capital letters, the
/// small letters and the digits.
pub open spec fn alphabet() -> Seq<char> {
    "ABCDEFGHIJKLMNOPQRSTUVWXYZabcdefghijklmnopqrstuvwxyz0123456789"@
}

/// `c` is a letter or a digit of ASCII.
pub open spec fn is_token_char(c: char) -> bool {
    ('A' <= c && c <= 'Z') || ('a' <= c && c <= 'z') || ('0' <= c && c <= '9')
}

/// `key` has the shape of a session token: 32 letters and digits.
pub open spec fn is_session_key(key: Seq<char>) -> bool {
    key.len() == SESSION_KEY_LENGTH && forall|i: int|
        0 <= i < key.len() ==> is_token_char(#[trigger] key[i])
}

/// The text whose characters are those of the alphabet at the positions
/// `indices`, in order.
pub open spec fn key_of_indices(indices: Seq<usize>) -> Seq<char> {
    Seq::new(indices.len(), |i: int| alphabet()[indices[i] as int])
}

/// The alphabet has 62 characters, each a letter or a digit of ASCII.
pub proof fn lemma_alphabet()
    ensures
        alphabet().len() == 62,
        forall|i: int| 0 <= i < 62 ==> is_token_char(#[trigger] alphabet()[i]),
        is_ascii_chars(alphabet()),
{
    reveal_strlit("ABCDEFGHIJKLMNOPQRSTUVWXYZabcdefghijklmnopqrstuvwxyz0123456789");
}

/// Draws a number below `bound` with `Rng::gen_range` on the thread's
/// generator, which the operating system seeds. Of the number only the
/// range is known.
#[verifier::external_body]
fn random_index(bound: usize) -> (index: usize)
    requires
        bound > 0,
    ensures
        index < bound,
{
    rand::thread_rng().gen_range(0..bound)
}

/// The token that a draw of `indices` stands for.
pub fn session_key_from_indices(indices: &Vec<usize>) -> (key: String)
    requires
        forall|i: int| 0 <= i < indices@.len() ==> (#[trigger] indices@[i]) < 62,
    ensures
        key@ == key_of_indices(indices@),
{
    let characters = "ABCDEFGHIJKLMNOPQRSTUVWXYZabcdefghijklmnopqrstuvwxyz0123456789";
    proof {
        lemma_alphabet();
    }
    let mut key = String::new();
    for i in 0..indices.len()
        invariant
            characters@ == alphabet(),
            alphabet().len() == 62,
            characters.is_ascii(),
            forall|j: int| 0 <= j < indices@.len() ==> (#[trigger] indices@[j]) < 62,
            key@ == key_of_indices(indices@.take(i as int)),
    {
        let at = indices[i];
        key.append(characters.substring_ascii(at, at + 1));
    }
    key
}

/// A fresh session token: 32 characters, each drawn from the 62 letters and
/// digits.
pub fn generate_session_key() -> (key: String)
    ensures
        is_session_key(key@),
{
    let mut indices: Vec<usize> = Vec::new();
    for i in 0..SESSION_KEY_LENGTH
        invariant
            indices@.len() == i,
            forall|j: int| 0 <= j < indices@.len() ==> (#[trigger] indices@[j]) < 62,
    {
        indices.push(random_index(62));
    }
    let key = session_key_from_indices(&indices);
    proof {
        lemma_alphabet();
        assert forall|i: int| 0 <= i < key@.len() implies is_token_char(#[trigger] key@[i]) by {
            assert(key@[i] == alphabet()[indices@[i] as int]);
        }
    }
    key
}

} // verus!
