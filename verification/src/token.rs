//! Session-token generation: opaque identifiers drawn from a
//! cryptographically suitable random source.

use rand::distributions::DistString;

use vstd::prelude::*;

verus! {

/// The alphabet a session token is drawn from: ASCII letters and digits.
pub open spec fn is_token_char(c: char) -> bool {
    ('a' <= c && c <= 'z') || ('A' <= c && c <= 'Z') || ('0' <= c && c <= '9')
}

/// Whether a character sequence is a well-formed token body: every character
/// taken from the alphanumeric alphabet.
pub open spec fn all_token_chars(s: Seq<char>) -> bool {
    forall|i: int| 0 <= i < s.len() ==> is_token_char(#[trigger] s[i])
}

/// Relies on rand's `Alphanumeric` distribution: `sample_string` appends
/// exactly `len` characters, each drawn uniformly from the 62 ASCII letters
/// and digits, consuming entropy from the thread-local generator. Nothing is
/// assumed about which characters come back beyond that alphabet.
#[verifier::external_body]
pub(crate) fn random_key(len: usize) -> (r: String)
    ensures
        r@.len() == len as int,
        all_token_chars(r@),
{
    let mut rng = rand::thread_rng();
    rand::distributions::Alphanumeric.sample_string(&mut rng, len)
}

} // verus!
