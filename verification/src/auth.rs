//! Authorising requests by their `Authorization` header.

use vstd::prelude::*;

verus! {

/// The status a refused request is answered with: 401 (unauthorized).
pub open spec fn unauthorized() -> u16 {
    401
}

/// Lets a request through exactly when its `Authorization` header (where it
/// has one that is visible ASCII text) is the API key; refuses it with 401
/// otherwise.
pub fn authorize(header: Option<&str>, api_key: &str) -> (res: Result<(), u16>)
    ensures
        res is Ok <==> (header matches Some(h) && h@ == api_key@),
        res matches Err(code) ==> code == unauthorized(),
{
    match header {
        Some(h) => {
            if String::from_str(h) == String::from_str(api_key) {
                Ok(())
            } else {
                Err(401)
            }
        },
        None => Err(401),
    }
}

} // verus!
