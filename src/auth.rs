use vstd::prelude::*;
use vstd::string::*;

verus! {

/// The header that carries the API key.
pub const API_KEY_HEADER: &'static str = "X-API-KEY";

/// Why a request's API key is refused, if it is: no header, an empty key,
/// or a key that differs from the configured one (an empty configured key
/// admits nobody).
pub open spec fn api_key_refusal(provided: Option<Seq<char>>, expected: Seq<char>) -> Option<
    Seq<char>,
> {
    match provided {
        None => Some("Missing X-API-KEY header"@),
        Some(k) => if k.len() == 0 {
            Some("Empty API Key"@)
        } else if expected.len() == 0 || k != expected {
            Some("Invalid API Key"@)
        } else {
            None
        },
    }
}

/// Checks a request's API key against the configured one; the error is the
/// message answered with status 401.
pub fn check_api_key(provided: Option<&str>, expected: &str) -> (r: Result<(), String>)
    ensures
        r is Ok <==> api_key_refusal(
            match provided {
                Some(k) => Some(k@),
                None => None,
            },
            expected@,
        ) is None,
        r matches Err(m) ==> Some(m@) == api_key_refusal(
            match provided {
                Some(k) => Some(k@),
                None => None,
            },
            expected@,
        ),
{
    match provided {
        None => Err(String::from_str("Missing X-API-KEY header")),
        Some(k) => {
            if k.unicode_len() == 0 {
                Err(String::from_str("Empty API Key"))
            } else {
                let key = String::from_str(k);
                let exp = String::from_str(expected);
                if expected.unicode_len() == 0 || !(key == exp) {
                    Err(String::from_str("Invalid API Key"))
                } else {
                    Ok(())
                }
            }
        },
    }
}

} // verus!
