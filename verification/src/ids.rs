//! Generation of the two random identifiers: the human-memorable public id
//! and the opaque storage token.

use vstd::prelude::*;

verus! {

/// A character a storage token is made of: an ASCII letter or digit.
pub open spec fn is_token_char(c: char) -> bool {
    ('0' <= c && c <= '9') || ('a' <= c && c <= 'z') || ('A' <= c && c <= 'Z')
}

/// The shape of a storage token: sixteen ASCII alphanumeric characters.
pub open spec fn valid_storage_token(s: Seq<char>) -> bool {
    s.len() == 16 && forall|i: int| 0 <= i < s.len() ==> is_token_char(#[trigger] s[i])
}

/// Relies on `memorable_wordlist::snake_case`: a phrase of memorable words
/// joined by underscores, drawn at random with forty bits of entropy. The
/// words themselves are random, so only nonemptiness is promised; the
/// metadata index alone enforces uniqueness.
#[verifier::external_body]
pub(crate) fn fresh_memo_id() -> (r: String)
    ensures
        r@.len() > 0,
{
    memorable_wordlist::snake_case(40)
}

/// Relies on rand's `Alphanumeric` distribution through `SampleString`: a
/// string of exactly sixteen characters, each drawn at random from the
/// ASCII letters and digits.
#[verifier::external_body]
pub(crate) fn random_storage_token() -> (r: String)
    ensures
        valid_storage_token(r@),
{
    rand::distr::SampleString::sample_string(&rand::distr::Alphanumeric, &mut rand::rng(), 16)
}

} // verus!
