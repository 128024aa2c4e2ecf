//! How the server refuses a request.
use vstd::prelude::*;

use crate::text::{i32_to_string, signed_decimal};

verus! {

/// A refused request: the status it is answered with, and the text of the body.
#[derive(Debug, Clone)]
pub enum ServiceError {
    /// 400: the request itself is malformed.
    BadRequest(String),
    /// 404: what the request names does not exist.
    NotFound(String),
    /// 500: the store failed, or holds something it should not.
    Internal(String),
}

/// `"<what> <id> not found"`.
pub open spec fn not_found_text(what: Seq<char>, id: int) -> Seq<char> {
    what + " "@ + signed_decimal(id) + " not found"@
}

/// The 404 answer for the `what` numbered `id`: `"<what> <id> not found"`.
pub fn not_found(what: &str, id: i32) -> (r: ServiceError)
    ensures
        r matches ServiceError::NotFound(m) && m@ == not_found_text(what@, id as int),
{
    let mut m = String::from_str(what);
    m.append(" ");
    let n = i32_to_string(id);
    m.append(n.as_str());
    m.append(" not found");
    ServiceError::NotFound(m)
}

} // verus!
