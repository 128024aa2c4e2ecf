use tasklist::db::model::{insert, RegularTasklist, Routine, Task};
use tasklist::db::request::{DbReply, DbRequest, Progress};
use tasklist::db::task::{all_tasks, eq_or, set_task_name, set_task_state, task_by_id};
use tasklist::db::tasklists::{all_tasklists, tasklist_by_id, AllTasklistsPhase, TasklistByIdPhase};
use tasklist::error::{not_found, ServiceError};
use tasklist::model::{self, Repetition, State};

fn task_row(id: i32, name: &str, state: &str) -> Task {
    Task { id, name: name.to_string(), state: state.to_string() }
}

fn tasklist_row(id: i32, name: &str, state: &str) -> RegularTasklist {
    RegularTasklist { id, name: name.to_string(), state: state.to_string(), routine_id: 1, archived: false }
}

#[test]
fn not_found_message() {
    match not_found("Task", 12) {
        ServiceError::NotFound(m) => assert_eq!(m, "Task 12 not found"),
        other => panic!("{:?}", other),
    }
    match not_found("Routine", -3) {
        ServiceError::NotFound(m) => assert_eq!(m, "Routine -3 not found"),
        other => panic!("{:?}", other),
    }
}

#[test]
fn routine_row_to_model() {
    let row = Routine { id: 4, name: "morning".to_string(), model: 9 };
    let r = row.to_model(vec![1, 2]).unwrap();
    assert_eq!(r.id, 4);
    assert_eq!(r.name, "morning");
    assert_eq!(r.model, 9);
    assert_eq!(r.repetition, Repetition::Manual);
    assert_eq!(r.tasklists, vec![1, 2]);
}

#[test]
fn tasklist_row_to_model() {
    let t = tasklist_row(3, "week", "paused").to_model(vec![5]).unwrap();
    assert_eq!((t.id, t.name.as_str(), t.state, t.tasks.clone()), (3, "week", State::Paused, vec![5]));
    let e = tasklist_row(3, "week", "later").to_model(vec![]).unwrap_err();
    assert_eq!(e, "unknown state \"later\"");
}

#[test]
fn task_row_to_model() {
    let t = task_row(1, "sweep", "not_started").to_model().unwrap();
    assert_eq!((t.name.as_str(), t.state), ("sweep", State::NotStarted));
    assert_eq!(task_row(1, "sweep", "x").to_model().unwrap_err(), "unknown state \"x\"");
}

#[test]
fn insert_row_from_task_reads_back() {
    for s in [State::NotStarted, State::Started, State::Paused, State::Aborted, State::Done] {
        let row = insert::Task::from(model::Task { name: "dust".to_string(), state: s });
        assert_eq!(row.name, "dust");
        assert_eq!(row.state, s.as_str());
        let stored = task_row(8, &row.name, row.state);
        let back = stored.to_model().unwrap();
        assert_eq!((back.name.as_str(), back.state), ("dust", s));
    }
}

#[test]
fn eq_or_cases() {
    assert_eq!(eq_or(1, 1, "no"), Ok(()));
    assert_eq!(eq_or(0, 1, "no"), Err("no"));
}

#[test]
fn task_by_id_cases() {
    assert!(matches!(task_by_id(2, Err("db down".to_string())), Err(ServiceError::Internal(m)) if m == "db down"));
    assert!(matches!(task_by_id(2, Ok(None)), Err(ServiceError::NotFound(m)) if m == "Task 2 not found"));
    let t = task_by_id(2, Ok(Some(task_row(2, "mop", "done")))).unwrap();
    assert_eq!((t.name.as_str(), t.state), ("mop", State::Done));
    assert!(matches!(task_by_id(2, Ok(Some(task_row(2, "mop", "??")))), Err(ServiceError::Internal(m)) if m == "unknown state \"??\""));
}

#[test]
fn all_tasks_cases() {
    assert!(matches!(all_tasks(Err("gone".to_string())), Err(ServiceError::Internal(m)) if m == "gone"));
    let ts = all_tasks(Ok(vec![task_row(1, "a", "started"), task_row(2, "b", "done")])).unwrap();
    assert_eq!(ts.len(), 2);
    assert_eq!((ts[0].name.as_str(), ts[0].state), ("a", State::Started));
    assert_eq!((ts[1].name.as_str(), ts[1].state), ("b", State::Done));
    assert!(all_tasks(Ok(vec![])).unwrap().is_empty());
    let bad = all_tasks(Ok(vec![task_row(1, "a", "started"), task_row(2, "b", "one"), task_row(3, "c", "two")]));
    assert!(matches!(bad, Err(ServiceError::Internal(m)) if m == "unknown state \"one\""));
}

#[test]
fn set_task_counts() {
    assert!(set_task_state(5, Ok(1)).is_ok());
    assert!(matches!(set_task_state(5, Ok(0)), Err(ServiceError::NotFound(m)) if m == "Task 5 not found"));
    assert!(matches!(set_task_state(5, Ok(2)), Err(ServiceError::NotFound(_))));
    assert!(matches!(set_task_state(5, Err("e".to_string())), Err(ServiceError::Internal(m)) if m == "e"));
    assert!(set_task_name(6, Ok(1)).is_ok());
    assert!(matches!(set_task_name(6, Ok(0)), Err(ServiceError::NotFound(m)) if m == "Task 6 not found"));
}

#[test]
fn reply_kinds() {
    let q = DbRequest::FindTasklist { id: 1 };
    assert!(q.expects(&DbReply::Tasklist(None)));
    assert!(q.expects(&DbReply::Failed("x".to_string())));
    assert!(!q.expects(&DbReply::Ids(vec![])));
    assert!(DbRequest::LoadTasklists.expects(&DbReply::Tasklists(vec![])));
    assert!(!DbRequest::LoadTasklists.expects(&DbReply::Stored));
}

#[test]
fn tasklist_by_id_run() {
    let m = tasklist_by_id(3);
    assert!(matches!(m.request(), DbRequest::FindTasklist { id: 3 }));
    let m = match m.step(DbReply::Tasklist(Some(tasklist_row(3, "week", "started")))) {
        Progress::Next(m) => m,
        Progress::Finish(_) => panic!("finished early"),
    };
    assert!(matches!(m.request(), DbRequest::TasklistTasks { tasklist: 3 }));
    assert!(matches!(m.phase, TasklistByIdPhase::Tasks { .. }));
    match m.step(DbReply::Ids(vec![7, 8])) {
        Progress::Finish(Ok(t)) => {
            assert_eq!((t.id, t.name.as_str(), t.state, t.tasks), (3, "week", State::Started, vec![7, 8]));
        }
        _ => panic!("expected the task list"),
    }
}

#[test]
fn tasklist_by_id_refusals() {
    assert!(matches!(tasklist_by_id(3).step(DbReply::Tasklist(None)), Progress::Finish(Err(ServiceError::NotFound(m))) if m == "Tasklist 3 not found"));
    assert!(matches!(tasklist_by_id(3).step(DbReply::Failed("f".to_string())), Progress::Finish(Err(ServiceError::Internal(m))) if m == "f"));
    let m = match tasklist_by_id(3).step(DbReply::Tasklist(Some(tasklist_row(3, "w", "nope")))) {
        Progress::Next(m) => m,
        _ => panic!(),
    };
    assert!(matches!(m.step(DbReply::Ids(vec![])), Progress::Finish(Err(ServiceError::Internal(m))) if m == "unknown state \"nope\""));
}

#[test]
fn all_tasklists_run() {
    let m = all_tasklists();
    assert!(matches!(m.request(), DbRequest::LoadTasklists));
    assert!(matches!(all_tasklists().step(DbReply::Tasklists(vec![])), Progress::Finish(Ok(v)) if v.is_empty()));
    let m = match m.step(DbReply::Tasklists(vec![tasklist_row(1, "a", "done"), tasklist_row(2, "b", "paused")])) {
        Progress::Next(m) => m,
        _ => panic!(),
    };
    assert!(matches!(m.request(), DbRequest::TasklistTasks { tasklist: 1 }));
    let m = match m.step(DbReply::Ids(vec![10])) {
        Progress::Next(m) => m,
        _ => panic!(),
    };
    assert!(matches!(m.request(), DbRequest::TasklistTasks { tasklist: 2 }));
    assert!(matches!(&m.phase, AllTasklistsPhase::Tasks { done, .. } if done.len() == 1));
    match m.step(DbReply::Ids(vec![11, 12])) {
        Progress::Finish(Ok(v)) => {
            assert_eq!(v.len(), 2);
            assert_eq!((v[0].id, v[0].state, v[0].tasks.clone()), (1, State::Done, vec![10]));
            assert_eq!((v[1].id, v[1].state, v[1].tasks.clone()), (2, State::Paused, vec![11, 12]));
        }
        _ => panic!(),
    }
}

#[test]
fn all_tasklists_stops_at_first_bad_state() {
    let m = match all_tasklists().step(DbReply::Tasklists(vec![tasklist_row(1, "a", "bad"), tasklist_row(2, "b", "done")])) {
        Progress::Next(m) => m,
        _ => panic!(),
    };
    assert!(matches!(m.step(DbReply::Ids(vec![])), Progress::Finish(Err(ServiceError::Internal(m))) if m == "unknown state \"bad\""));
}
