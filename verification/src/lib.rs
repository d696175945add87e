//! Translation layer between a host runtime's HTTP request/response objects
//! and a generic HTTP framework's request/response values, together with a
//! one-shot execution shim that hands a handler's result across execution
//! contexts.

use vstd::prelude::*;

pub mod error;
pub mod framework;
pub mod host;
pub mod request;
pub mod response;
pub mod shim;
pub mod validate;

verus! {

/// True exactly for status codes the framework's response model allows.
pub open spec fn valid_status(s: u16) -> bool {
    100 <= s <= 599
}

/// Checks that a numeric status code lies in the framework's allowed range.
pub fn status_in_range(s: u16) -> (r: bool)
    ensures
        r == valid_status(s),
{
    100 <= s && s <= 599
}

} // verus!
