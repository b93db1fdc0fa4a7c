//! The API key that guards the endpoints which change containers.

use vstd::prelude::*;

use crate::random::{is_alphanumeric_of_length, random_string};

verus! {

/// How many characters a generated key has.
pub const API_KEY_LENGTH: usize = 30;

/// The key to use, and whether it was generated just now (and so has to be
/// stored for later starts).
pub struct ApiKey {
    pub key: String,
    pub generated: bool,
}

/// What `api_key` gives for the stored key: the stored key itself, unchanged;
/// where none is stored, a freshly generated one.
pub open spec fn api_key_outcome(stored: Option<Seq<char>>, res: ApiKey) -> bool {
    match stored {
        Some(k) => res.key@ == k && !res.generated,
        None => res.generated && is_alphanumeric_of_length(res.key@, API_KEY_LENGTH as nat),
    }
}

/// A new random key of `API_KEY_LENGTH` letters and digits.
pub fn generate_api_key() -> (res: String)
    ensures
        is_alphanumeric_of_length(res@, API_KEY_LENGTH as nat),
{
    random_string(API_KEY_LENGTH)
}

/// The API key, given the key stored by an earlier start (the contents of
/// `data/api_key`, where it could be read): that key, or else a new one.
pub fn api_key(stored: Option<String>) -> (res: ApiKey)
    ensures
        api_key_outcome(
            match stored {
                Some(k) => Some(k@),
                None => None,
            },
            res,
        ),
{
    match stored {
        Some(key) => ApiKey { key, generated: false },
        None => ApiKey { key: generate_api_key(), generated: true },
    }
}

/// A key that was generated and then stored is the key of every later start.
pub proof fn lemma_stored_key_is_kept(first: ApiKey, later: ApiKey)
    requires
        api_key_outcome(None, first),
        api_key_outcome(Some(first.key@), later),
    ensures
        later.key@ == first.key@,
        !later.generated,
        is_alphanumeric_of_length(later.key@, API_KEY_LENGTH as nat),
{
}

} // verus!
