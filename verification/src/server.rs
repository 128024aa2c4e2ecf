//! What the server does for each of its routes, between the requests it makes
//! of the store.
pub mod routine;
pub mod task;
pub mod tasklist;

use vstd::prelude::*;

use crate::error::ServiceError;
use crate::text::{decimal, lemma_parse_i32_of_natural, parse_i32, parse_i32_spec, IntError};

verus! {

/// Reads the id in a request's path; a path segment that is no `i32` is a 400
/// answer carrying the text of the parse error.
pub fn parse_path_id(segment: &str) -> (r: Result<i32, ServiceError>)
    ensures
        match parse_i32_spec(segment@) {
            Ok(v) => r matches Ok(w) && w == v,
            Err(k) => r matches Err(ServiceError::BadRequest(m)) && m@ == k.text(),
        },
{
    match parse_i32(segment) {
        Ok(v) => Ok(v),
        Err(k) => Err(ServiceError::BadRequest(k.message())),
    }
}

/// An id that the command line writes into a path, in decimal, is read back by
/// the server as the same id when it fits in an `i32`, and refused as too large
/// otherwise.
pub proof fn lemma_path_id_round_trip(id: u64)
    ensures
        id <= i32::MAX ==> parse_i32_spec(decimal(id as nat)) == Ok::<i32, IntError>(id as i32),
        id > i32::MAX ==> parse_i32_spec(decimal(id as nat)) == Err::<i32, IntError>(
            IntError::PosOverflow,
        ),
{
    lemma_parse_i32_of_natural(id as nat);
}

} // verus!
