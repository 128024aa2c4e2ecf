//! The routes under `/tasklists`.
use vstd::prelude::*;

use crate::db::tasklists::{tasklist_by_id, TasklistById, TasklistByIdPhase};
use crate::error::ServiceError;
use crate::server::parse_path_id;
use crate::text::parse_i32_spec;

verus! {

/// `GET /tasklists/{id}`: reads the task list's id from the path (a malformed id
/// is a 400 answer) and starts reading that task list.
pub fn get(path: &str) -> (r: Result<TasklistById, ServiceError>)
    ensures
        match parse_i32_spec(path@) {
            Ok(id) => r matches Ok(m) && m.wf() && m.phase == (TasklistByIdPhase::Find { id }),
            Err(k) => r matches Err(ServiceError::BadRequest(msg)) && msg@ == k.text(),
        },
{
    let id = parse_path_id(path)?;
    Ok(tasklist_by_id(id))
}

} // verus!
