//! The routes under `/tasks`.
use vstd::prelude::*;

use crate::command::MarkTask;
use crate::db::model::Task;
use crate::db::request::{answers, DbReply, DbRequest, Progress};
use crate::db::store::{count_tasks, lemma_find_task, with_task_name, with_task_state, Store};
use crate::db::task::{
    lemma_counted_task_exists, set_task_name, set_task_state, task_by_id_result, task_outcome,
};
use crate::error::{not_found_text, ServiceError};
use crate::model;
use crate::server::parse_path_id;
use crate::text::parse_i32_spec;

verus! {

/// Where changing a task stands.
pub enum PutPhase {
    /// Waiting for the new state of the task `id` to be set; `name`, if any, is
    /// set next.
    State { id: i32, name: Option<String> },
    /// Waiting for the new name of the task `id` to be set.
    Name { id: i32 },
}

/// `PATCH /tasks/{id}`: sets the new state, if one is asked for, then the new
/// name, if one is asked for.
pub struct Put {
    pub phase: PutPhase,
    pub request: DbRequest,
}

/// `r` is the answer to a count `n` of changed rows of the task `id`: a 404
/// answer unless exactly one.
pub open spec fn one_row_changed(id: i32, n: usize, r: Result<(), ServiceError>) -> bool {
    &&& n == 1 ==> r is Ok
    &&& n != 1 ==> (r matches Err(ServiceError::NotFound(m)) && m@ == not_found_text(
        "Task"@,
        id as int,
    ))
}

/// `s` is `s0` with the task `id` holding the state whose text is `state`.
pub open spec fn state_set(s0: Store, s: Store, id: i32, state: Seq<char>) -> bool {
    exists|text: String|
        text@ == state && s == (Store { tasks: with_task_state(s0.tasks, id, text), ..s0 })
}

/// `s` is `s0` with the task `id` changed as `command` asks: the one row with
/// that id (there must be one, unless nothing is asked) takes the new state, if
/// one is asked for, and the new name, if one is asked for; nothing else changes.
pub open spec fn task_changed(s0: Store, s: Store, id: i32, command: MarkTask) -> bool {
    match (command.state, command.name) {
        (None, None) => s == s0,
        (Some(st), None) => count_tasks(s0.tasks, id) == 1 && state_set(s0, s, id, st.name()),
        (None, Some(nm)) => count_tasks(s0.tasks, id) == 1 && s == (Store {
            tasks: with_task_name(s0.tasks, id, nm),
            ..s0
        }),
        (Some(st), Some(nm)) => count_tasks(s0.tasks, id) == 1 && exists|text: String|
            text@ == st.name() && s == (Store {
                tasks: with_task_name(with_task_state(s0.tasks, id, text), id, nm),
                ..s0
            }),
    }
}

/// Setting a task's state keeps how many rows hold each id.
proof fn lemma_count_after_state(tasks: Seq<Task>, id: i32, text: String, x: i32)
    ensures
        count_tasks(with_task_state(tasks, id, text), x) == count_tasks(tasks, x),
    decreases tasks.len(),
{
    if tasks.len() > 0 {
        lemma_count_after_state(tasks.drop_last(), id, text, x);
        assert(with_task_state(tasks, id, text).drop_last() =~= with_task_state(
            tasks.drop_last(),
            id,
            text,
        ));
    }
}

/// Once the task `id` has been changed as `command` asks, asking for a change,
/// reading the task `id` gives it with the asked state, if one was asked for,
/// and the asked name, if one was asked for, else with what it held before.
pub proof fn lemma_put_then_task_by_id(
    s0: Store,
    s: Store,
    id: i32,
    command: MarkTask,
    r: Result<model::Task, ServiceError>,
)
    requires
        s0.wf(),
        command.state is Some || command.name is Some,
        task_changed(s0, s, id, command),
        task_by_id_result(s, id, r),
    ensures
        s0.find_task(id) matches Some(old) && {
            let name = match command.name {
                Some(nm) => nm,
                None => old.name,
            };
            match command.state {
                Some(st) => r matches Ok(t) && t.state == st && t.name == name,
                None => task_outcome(Task { id, name, state: old.state }, r),
            }
        },
{
    lemma_counted_task_exists(s0.tasks, id);
    let k = choose|k: int| 0 <= k < s0.tasks.len() && #[trigger] s0.tasks[k].id == id;
    lemma_find_task(s0, k);
    let old = s0.tasks[k];
    let name = match command.name {
        Some(nm) => nm,
        None => old.name,
    };
    let text = match command.state {
        Some(st) => choose|text: String|
            text@ == st.name() && match command.name {
                Some(nm) => s == (Store {
                    tasks: with_task_name(with_task_state(s0.tasks, id, text), id, nm),
                    ..s0
                }),
                None => s == (Store { tasks: with_task_state(s0.tasks, id, text), ..s0 }),
            },
        None => old.state,
    };
    assert(s.tasks.len() == s0.tasks.len());
    assert forall|i: int| 0 <= i < s.tasks.len() implies #[trigger] s.tasks[i].id == s0.tasks[i].id
        by {}
    assert(s.tasks[k] == Task { id, name, state: text });
    assert(s.wf()) by {
        assert forall|i: int, j: int| 0 <= i < j < s.tasks.len() implies s.tasks[i].id
            != s.tasks[j].id by {
            assert(s.tasks[i].id == s0.tasks[i].id);
            assert(s.tasks[j].id == s0.tasks[j].id);
        }
    }
    lemma_find_task(s, k);
    if let Some(st) = command.state {
        model::lemma_state_name_round_trip(st);
    }
}

impl Put {
    /// The task the run changes.
    pub open spec fn id(self) -> i32 {
        match self.phase {
            PutPhase::State { id, .. } => id,
            PutPhase::Name { id } => id,
        }
    }

    /// The run stands where changing a task as `command` asks stands, started on
    /// the store `s0`, the store now being `s`.
    pub open spec fn on(self, s0: Store, s: Store, command: MarkTask) -> bool {
        match self.phase {
            PutPhase::State { id, name } => {
                &&& s == s0
                &&& name == command.name
                &&& command.state matches Some(st) && (self.request matches DbRequest::SetTaskState {
                    state,
                    ..
                } && state@ == st.name())
            },
            PutPhase::Name { id } => {
                &&& command.name matches Some(nm) && self.request == (DbRequest::SetTaskName {
                    id,
                    name: nm,
                })
                &&& match command.state {
                    None => s == s0,
                    Some(st) => count_tasks(s0.tasks, id) == 1 && state_set(s0, s, id, st.name()),
                }
            },
        }
    }

    /// Reads the task's id from the path (a malformed id is a 400 answer) and
    /// starts on `command`: with the state to set, if any, else with the name to
    /// set, if any, else with nothing to do.
    pub fn start(path: &str, command: MarkTask) -> (r: Result<Progress<Put, ()>, ServiceError>)
        ensures
            match parse_i32_spec(path@) {
                Err(k) => r matches Err(ServiceError::BadRequest(msg)) && msg@ == k.text(),
                Ok(id) => r matches Ok(p) && match command.state {
                    Some(st) => p matches Progress::Next(m) && m.wf() && m.phase == (PutPhase::State {
                        id,
                        name: command.name,
                    }) && (m.request matches DbRequest::SetTaskState { id: i2, state } && i2 == id
                        && state@ == st.name()) && forall|s0: Store| #[trigger] m.on(s0, s0, command),
                    None => match command.name {
                        Some(nm) => p matches Progress::Next(m) && m.wf() && m.phase == (
                        PutPhase::Name { id }) && m.request == (DbRequest::SetTaskName {
                            id,
                            name: nm,
                        }) && forall|s0: Store| #[trigger] m.on(s0, s0, command),
                        None => p matches Progress::Finish(Ok(_)) && forall|s0: Store|
                            #[trigger] task_changed(s0, s0, id, command),
                    },
                },
            },
    {
        let id = parse_path_id(path)?;
        match command.state {
            Some(st) => Ok(
                Progress::Next(
                    Put {
                        phase: PutPhase::State { id, name: command.name },
                        request: DbRequest::SetTaskState { id, state: st.to_string() },
                    },
                ),
            ),
            None => match command.name {
                Some(name) => Ok(
                    Progress::Next(
                        Put { phase: PutPhase::Name { id }, request: DbRequest::SetTaskName { id, name } },
                    ),
                ),
                None => Ok(Progress::Finish(Ok(()))),
            },
        }
    }

    /// The request waited on is the one the phase calls for.
    pub open spec fn wf(self) -> bool {
        match self.phase {
            PutPhase::State { id, .. } => self.request matches DbRequest::SetTaskState {
                id: i2,
                ..
            } && i2 == id,
            PutPhase::Name { id } => self.request matches DbRequest::SetTaskName { id: i2, .. }
                && i2 == id,
        }
    }

    /// The request to make of the store next.
    pub fn request(&self) -> (r: &DbRequest)
        ensures
            *r == self.request,
    {
        &self.request
    }

    /// Takes the store's reply. A failure of the store is a 500 answer, a count of
    /// changed rows other than one a 404 answer; else the name is set next, if
    /// one is asked for, and the task is changed.
    pub fn step(self, reply: DbReply) -> (p: Progress<Put, ()>)
        requires
            self.wf(),
            answers(self.request, reply),
        ensures
            reply matches DbReply::Failed(e) ==> (p matches Progress::Finish(
                Err(ServiceError::Internal(m)),
            ) && m == e),
            self.phase matches PutPhase::State { id, name } ==> (reply matches DbReply::Updated(n)
                ==> {
                &&& n != 1 ==> (p matches Progress::Finish(r) && one_row_changed(id, n, r))
                &&& n == 1 && name is None ==> (p matches Progress::Finish(Ok(_)))
                &&& n == 1 && name is Some ==> (p matches Progress::Next(m) && m.wf() && m.phase
                    == (PutPhase::Name { id }) && m.request == (DbRequest::SetTaskName {
                    id,
                    name: name->Some_0,
                }))
            }),
            self.phase matches PutPhase::Name { id } ==> (reply matches DbReply::Updated(n) ==> (
            p matches Progress::Finish(r) && one_row_changed(id, n, r))),
            forall|s0: Store, s: Store, s2: Store, command: MarkTask|
                #[trigger] self.on(s0, s, command) && #[trigger] s.answers(self.request, reply, s2)
                    && !(reply is Failed) ==> {
                    &&& p matches Progress::Next(m) ==> m.on(s0, s2, command)
                    &&& p matches Progress::Finish(Ok(_)) ==> task_changed(
                        s0,
                        s2,
                        self.id(),
                        command,
                    )
                    &&& p matches Progress::Finish(Err(ServiceError::NotFound(_))) ==> count_tasks(
                        s0.tasks,
                        self.id(),
                    ) != 1
                },
    {
        let ghost this = self;
        let ghost rep = reply;
        match self.phase {
            PutPhase::State { id, name } => match reply {
                DbReply::Failed(e) => Progress::Finish(set_task_state(id, Err(e))),
                DbReply::Updated(n) => {
                    let p = match set_task_state(id, Ok(n)) {
                        Err(err) => Progress::Finish(Err(err)),
                        Ok(()) => match name {
                            Some(name) => Progress::Next(
                                Put {
                                    phase: PutPhase::Name { id },
                                    request: DbRequest::SetTaskName { id, name },
                                },
                            ),
                            None => Progress::Finish(Ok(())),
                        },
                    };
                    proof {
                        assert forall|s0: Store, s: Store, s2: Store, command: MarkTask|
                            #[trigger] this.on(s0, s, command) && #[trigger] s.answers(
                                this.request,
                                rep,
                                s2,
                            ) && !(rep is Failed) implies {
                            &&& p matches Progress::Next(m) ==> m.on(s0, s2, command)
                            &&& p matches Progress::Finish(Ok(_)) ==> task_changed(
                                s0,
                                s2,
                                id,
                                command,
                            )
                            &&& p matches Progress::Finish(Err(ServiceError::NotFound(_)))
                                ==> count_tasks(s0.tasks, id) != 1
                        } by {
                            if let DbRequest::SetTaskState { state, .. } = this.request {
                                assert(s2 == Store {
                                    tasks: with_task_state(s0.tasks, id, state),
                                    ..s0
                                });
                            }
                        }
                    }
                    p
                },
                _ => {
                    proof {
                        assert(false);
                    }
                    Progress::Finish(Err(ServiceError::Internal(String::new())))
                },
            },
            PutPhase::Name { id } => match reply {
                DbReply::Failed(e) => Progress::Finish(set_task_name(id, Err(e))),
                DbReply::Updated(n) => {
                    let p = Progress::Finish(set_task_name(id, Ok(n)));
                    proof {
                        assert forall|s0: Store, s: Store, s2: Store, command: MarkTask|
                            #[trigger] this.on(s0, s, command) && #[trigger] s.answers(
                                this.request,
                                rep,
                                s2,
                            ) && !(rep is Failed) implies {
                            &&& p matches Progress::Finish(Ok(_)) ==> task_changed(
                                s0,
                                s2,
                                id,
                                command,
                            )
                            &&& p matches Progress::Finish(Err(ServiceError::NotFound(_)))
                                ==> count_tasks(s0.tasks, id) != 1
                        } by {
                            let nm = command.name->Some_0;
                            assert(s2 == Store { tasks: with_task_name(s.tasks, id, nm), ..s });
                            if let Some(st) = command.state {
                                let text = choose|text: String|
                                    text@ == st.name() && s == (Store {
                                        tasks: with_task_state(s0.tasks, id, text),
                                        ..s0
                                    });
                                lemma_count_after_state(s0.tasks, id, text, id);
                                assert(s2 == Store {
                                    tasks: with_task_name(with_task_state(s0.tasks, id, text), id, nm),
                                    ..s0
                                });
                            }
                        }
                    }
                    p
                },
                _ => {
                    proof {
                        assert(false);
                    }
                    Progress::Finish(Err(ServiceError::Internal(String::new())))
                },
            },
        }
    }
}

} // verus!
