//! The Mistral API: key checks and the reading of its HTTP status.
use vstd::prelude::*;

use super::AiError;

verus! {

/// An HTTP status in the 2xx range.
pub open spec fn is_success_status(code: u16) -> bool {
    200 <= code < 300
}

/// The request needs a key: an empty key fails before any network call.
pub fn check_api_key(api_key: &str) -> (r: Result<(), AiError>)
    ensures
        api_key@.len() == 0 ==> r == Err::<(), AiError>(AiError::MissingMistralKey),
        api_key@.len() > 0 ==> r == Ok::<(), AiError>(()),
{
    if api_key.is_empty() {
        Err(AiError::MissingMistralKey)
    } else {
        Ok(())
    }
}

/// The availability probe is sent only when a key is set; without one the
/// probe answers `false` at once.
pub fn ping_allowed(api_key: &str) -> (r: bool)
    ensures
        r == (api_key@.len() > 0),
{
    !api_key.is_empty()
}

/// The body of the answer is read for the message only when the status is an
/// error other than 401 and 429.
pub fn needs_error_detail(status: u16) -> (r: bool)
    ensures
        r == (status != 401 && status != 429 && !is_success_status(status)),
{
    status != 401 && status != 429 && !(200 <= status && status < 300)
}

/// What the HTTP status of a chat completion means: 401 a refused key, 429 an
/// exhausted quota, any other non-2xx status an error with `detail`.
pub fn check_status(status: u16, detail: String) -> (r: Result<(), AiError>)
    ensures
        status == 401 ==> r == Err::<(), AiError>(AiError::MistralUnauthorized),
        status == 429 ==> r == Err::<(), AiError>(AiError::MistralRateLimited),
        status != 401 && status != 429 && !is_success_status(status) ==> r == Err::<(), AiError>(
            AiError::MistralHttp { status, detail },
        ),
        status != 401 && status != 429 && is_success_status(status) ==> r == Ok::<(), AiError>(()),
{
    if status == 401 {
        Err(AiError::MistralUnauthorized)
    } else if status == 429 {
        Err(AiError::MistralRateLimited)
    } else if !(200 <= status && status < 300) {
        Err(AiError::MistralHttp { status, detail })
    } else {
        Ok(())
    }
}

} // verus!
