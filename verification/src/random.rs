//! Random alphanumeric strings.

use vstd::prelude::*;

verus! {

/// An ASCII letter or digit.
pub open spec fn is_ascii_alphanumeric(c: char) -> bool {
    ||| 'a' <= c <= 'z'
    ||| 'A' <= c <= 'Z'
    ||| '0' <= c <= '9'
}

/// `length` ASCII letters and digits.
pub open spec fn is_alphanumeric_of_length(s: Seq<char>, length: nat) -> bool {
    &&& s.len() == length
    &&& forall|i: int| 0 <= i < s.len() ==> is_ascii_alphanumeric(#[trigger] s[i])
}

/// Calls `SampleString::sample_string` of the `rand` crate for the
/// distribution `Alphanumeric`, with the thread-local generator `rand::rng()`.
/// Claimed of every outcome, as the crate's source shows: `length` characters,
/// each drawn from the ASCII letters and digits. Which ones is left open.
#[verifier::external_body]
fn sample_alphanumeric(length: usize) -> (res: String)
    ensures
        is_alphanumeric_of_length(res@, length as nat),
{
    rand::distr::SampleString::sample_string(&rand::distr::Alphanumeric, &mut rand::rng(), length)
}

/// A random string of `length` ASCII letters and digits.
pub fn random_string(length: usize) -> (res: String)
    ensures
        is_alphanumeric_of_length(res@, length as nat),
{
    sample_alphanumeric(length)
}

} // verus!
