//! The build notifier, as far as it decides: what the request carries and
//! which answer counts as success. Sending the request is the caller's.

use vstd::prelude::*;
use vstd::string::*;

verus! {

/// Whether an HTTP status says that the build request was accepted: the
/// statuses from 200 to 299 do.
pub open spec fn is_accepted(status: u16) -> bool {
    200 <= status < 300
}

/// Whether the front end accepted the build request.
pub fn build_accepted(status: u16) -> (r: bool)
    ensures
        r == is_accepted(status),
{
    200 <= status && status < 300
}

/// The value of the `Authorization` header of a build request: the word
/// `Bearer`, a space and the secret.
pub fn authorization_header(secret: &str) -> (r: String)
    ensures
        r@ == "Bearer "@ + secret@,
{
    let mut header = "Bearer ".to_owned();
    header.append(secret);
    header
}

} // verus!
