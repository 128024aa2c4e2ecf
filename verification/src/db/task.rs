//! What the server makes of the store's answers about tasks.
use vstd::prelude::*;

use crate::db;
use crate::db::request::{DbReply, DbRequest};
use crate::db::store::{count_tasks, lemma_find_task, with_task_state, Store};
use crate::error::{not_found, not_found_text, ServiceError};
use crate::model;
use crate::model::{unknown_state_prefix, State};
use crate::text::debug_text;

verus! {

/// `Ok` when `a == b`, else `err`.
pub fn eq_or<E>(a: usize, b: usize, err: E) -> (r: Result<(), E>)
    ensures
        a == b ==> r is Ok,
        a != b ==> r == Err::<(), E>(err),
{
    if a == b {
        Ok(())
    } else {
        Err(err)
    }
}

/// What the model task made of the stored `row` is, as an answer of the server:
/// the task when the stored state is a state's text, else a 500 answer.
pub open spec fn task_outcome(row: db::model::Task, r: Result<model::Task, ServiceError>) -> bool {
    match r {
        Ok(t) => State::from_name(row.state@) == Some(t.state) && t.name == row.name,
        Err(err) => State::from_name(row.state@).is_none() && (err matches ServiceError::Internal(
            m,
        ) && m@ == unknown_state_prefix() + debug_text(row.state@)),
    }
}

/// The answer for the task `id`, from what the store found for it (`Err` when
/// the store failed).
pub fn task_by_id(id: i32, found: Result<Option<db::model::Task>, String>) -> (r: Result<
    model::Task,
    ServiceError,
>)
    ensures
        match found {
            Err(e) => r matches Err(ServiceError::Internal(m)) && m == e,
            Ok(None) => r matches Err(ServiceError::NotFound(m)) && m@ == not_found_text(
                "Task"@,
                id as int,
            ),
            Ok(Some(row)) => task_outcome(row, r),
        },
        forall|s: Store|
            found == Ok::<Option<db::model::Task>, String>(#[trigger] s.find_task(id))
                ==> task_by_id_result(s, id, r),
{
    match found {
        Err(e) => Err(ServiceError::Internal(e)),
        Ok(None) => Err(not_found("Task", id)),
        Ok(Some(row)) => match row.to_model() {
            Ok(t) => Ok(t),
            Err(msg) => Err(ServiceError::Internal(msg)),
        },
    }
}

fn copy_task_row(row: &db::model::Task) -> (r: db::model::Task)
    ensures
        r == *row,
{
    db::model::Task { id: row.id, name: row.name.clone(), state: row.state.clone() }
}

/// The rows `rows` all hold a state's text, and `tasks` are the model tasks made
/// of them, in order.
pub open spec fn tasks_of_rows(rows: Seq<db::model::Task>, tasks: Seq<model::Task>) -> bool {
    &&& tasks.len() == rows.len()
    &&& forall|i: int|
        0 <= i < rows.len() ==> State::from_name(#[trigger] rows[i].state@) == Some(tasks[i].state)
            && tasks[i].name == rows[i].name
}

/// Row `k` is the first of `rows` whose state is no state's text.
pub open spec fn first_bad_state(rows: Seq<db::model::Task>, k: int) -> bool {
    &&& 0 <= k < rows.len()
    &&& State::from_name(rows[k].state@).is_none()
    &&& forall|j: int| 0 <= j < k ==> State::from_name(#[trigger] rows[j].state@).is_some()
}

/// The model tasks of the stored `rows`, or a 500 answer for the first row
/// whose state is no state's text.
fn tasks_from_rows(rows: Vec<db::model::Task>) -> (r: Result<Vec<model::Task>, ServiceError>)
    ensures
        match r {
            Ok(tasks) => tasks_of_rows(rows@, tasks@),
            Err(err) => exists|k: int|
                first_bad_state(rows@, k) && (err matches ServiceError::Internal(m) && m@
                    == unknown_state_prefix() + debug_text(#[trigger] rows@[k].state@)),
        },
{
    let mut tasks: Vec<model::Task> = Vec::new();
    let mut i: usize = 0;
    while i < rows.len()
        invariant
            i <= rows.len(),
            tasks_of_rows(rows@.take(i as int), tasks@),
        decreases rows.len() - i,
    {
        let row = copy_task_row(&rows[i]);
        match row.to_model() {
            Ok(t) => {
                tasks.push(t);
                assert(rows@.take(i as int + 1) =~= rows@.take(i as int).push(rows@[i as int]));
                i = i + 1;
            },
            Err(msg) => {
                assert(first_bad_state(rows@, i as int)) by {
                    assert forall|j: int| 0 <= j < i implies State::from_name(
                        #[trigger] rows@[j].state@,
                    ).is_some() by {
                        assert(rows@.take(i as int)[j] == rows@[j]);
                    }
                }
                return Err(ServiceError::Internal(msg));
            },
        }
    }
    assert(rows@.take(i as int) =~= rows@);
    Ok(tasks)
}

/// The answer for all tasks, from what the store loaded (`Err` when it failed):
/// the model tasks, or a 500 answer for the first row whose state is no state's
/// text.
pub fn all_tasks(loaded: Result<Vec<db::model::Task>, String>) -> (r: Result<
    Vec<model::Task>,
    ServiceError,
>)
    ensures
        match loaded {
            Err(e) => r matches Err(ServiceError::Internal(m)) && m == e,
            Ok(rows) => match r {
                Ok(tasks) => tasks_of_rows(rows@, tasks@),
                Err(err) => exists|k: int|
                    first_bad_state(rows@, k) && (err matches ServiceError::Internal(m) && m@
                        == unknown_state_prefix() + debug_text(#[trigger] rows@[k].state@)),
            },
        },
{
    match loaded {
        Err(e) => Err(ServiceError::Internal(e)),
        Ok(rows) => tasks_from_rows(rows),
    }
}

/// The answer to setting the state of the task `id`, from the number of rows
/// the store changed (`Err` when it failed): a 404 answer unless exactly one.
pub fn set_task_state(id: i32, updated: Result<usize, String>) -> (r: Result<(), ServiceError>)
    ensures
        match updated {
            Err(e) => r matches Err(ServiceError::Internal(m)) && m == e,
            Ok(n) => (n == 1 ==> r is Ok) && (n != 1 ==> (r matches Err(ServiceError::NotFound(m))
                && m@ == not_found_text("Task"@, id as int))),
        },
{
    match updated {
        Err(e) => Err(ServiceError::Internal(e)),
        Ok(n) => eq_or(n, 1, not_found("Task", id)),
    }
}

/// The answer to renaming the task `id`, from the number of rows the store
/// changed (`Err` when it failed): a 404 answer unless exactly one.
pub fn set_task_name(id: i32, updated: Result<usize, String>) -> (r: Result<(), ServiceError>)
    ensures
        match updated {
            Err(e) => r matches Err(ServiceError::Internal(m)) && m == e,
            Ok(n) => (n == 1 ==> r is Ok) && (n != 1 ==> (r matches Err(ServiceError::NotFound(m))
                && m@ == not_found_text("Task"@, id as int))),
        },
{
    match updated {
        Err(e) => Err(ServiceError::Internal(e)),
        Ok(n) => eq_or(n, 1, not_found("Task", id)),
    }
}

/// `r` is what `task_by_id` gives for the task `id` against the store `s`.
pub open spec fn task_by_id_result(s: Store, id: i32, r: Result<model::Task, ServiceError>) -> bool {
    match s.find_task(id) {
        None => r matches Err(ServiceError::NotFound(m)) && m@ == not_found_text("Task"@, id as int),
        Some(row) => task_outcome(row, r),
    }
}

/// Some row of `tasks` holds an id that `tasks` counts at least once.
pub proof fn lemma_counted_task_exists(tasks: Seq<db::model::Task>, id: i32)
    requires
        count_tasks(tasks, id) > 0,
    ensures
        exists|k: int| 0 <= k < tasks.len() && #[trigger] tasks[k].id == id,
    decreases tasks.len(),
{
    if tasks.last().id == id {
        assert(tasks[tasks.len() - 1].id == id);
    } else {
        lemma_counted_task_exists(tasks.drop_last(), id);
        let k = choose|k: int| 0 <= k < tasks.drop_last().len() && #[trigger] tasks.drop_last()[k].id == id;
        assert(tasks[k] == tasks.drop_last()[k]);
    }
}

/// Once the state of the task `id` has been set to the text of `st`, changing
/// one row, reading the task `id` gives it with that state and its name as it
/// was.
pub proof fn lemma_set_state_then_task_by_id(
    s: Store,
    s2: Store,
    id: i32,
    state: String,
    st: State,
    r: Result<model::Task, ServiceError>,
)
    requires
        s.wf(),
        state@ == st.name(),
        s.answers(DbRequest::SetTaskState { id, state }, DbReply::Updated(1), s2),
        task_by_id_result(s2, id, r),
    ensures
        s.find_task(id) matches Some(old) && (r matches Ok(t) && t.state == st && t.name
            == old.name),
{
    lemma_counted_task_exists(s.tasks, id);
    let k = choose|k: int| 0 <= k < s.tasks.len() && #[trigger] s.tasks[k].id == id;
    lemma_find_task(s, k);
    assert(s2.tasks[k] == db::model::Task { id, name: s.tasks[k].name, state });
    assert(s2.wf()) by {
        assert forall|i: int, j: int| 0 <= i < j < s2.tasks.len() implies s2.tasks[i].id
            != s2.tasks[j].id by {
            assert(s2.tasks[i].id == s.tasks[i].id);
            assert(s2.tasks[j].id == s.tasks[j].id);
        }
    }
    lemma_find_task(s2, k);
    crate::model::lemma_state_name_round_trip(st);
}

} // verus!
