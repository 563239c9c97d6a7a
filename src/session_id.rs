//! Fresh session ids: random strings of ASCII letters and digits.
use vstd::prelude::*;

verus! {

/// How many characters a session id has.
pub const SESSION_ID_LEN: usize = 16;

pub open spec fn is_ascii_alphanumeric(c: char) -> bool {
    ('a' <= c && c <= 'z') || ('A' <= c && c <= 'Z') || ('0' <= c && c <= '9')
}

/// The shape of the ids this registry draws: `SESSION_ID_LEN` ASCII letters
/// and digits.
pub open spec fn is_session_id(s: Seq<char>) -> bool {
    &&& s.len() == SESSION_ID_LEN
    &&& forall|i: int| 0 <= i < s.len() ==> is_ascii_alphanumeric(#[trigger] s[i])
}

/// Relies on rand's `thread_rng` sampled through
/// `rand::distributions::Alphanumeric`, which yields bytes drawn from the 62
/// ASCII letters and digits, `len` of them taken.
#[verifier::external_body]
pub(crate) fn random_alphanumeric(len: usize) -> (r: String)
    ensures
        r@.len() == len,
        forall|i: int| 0 <= i < r@.len() ==> is_ascii_alphanumeric(#[trigger] r@[i]),
{
    rand::Rng::sample_iter(rand::thread_rng(), &rand::distributions::Alphanumeric)
        .take(len)
        .map(char::from)
        .collect::<String>()
}

} // verus!
