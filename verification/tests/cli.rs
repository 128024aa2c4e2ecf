use tasklist::cli::{follow_header, plan_request, task_urls, Body, Command, Create, Init, Mark, Method, Show, Shown};
use tasklist::model::State;

#[test]
fn create_routine_request() {
    let q = plan_request(Command::Create(Create::Routine { name: "r".to_string(), repetition: None })).unwrap();
    assert_eq!(q.method, Method::Post);
    assert_eq!(q.url, "http://localhost:8080/routines/new");
    assert!(matches!(q.body, Body::NewRoutine(ref n) if n.name == "r"));
    assert_eq!(q.shown, Shown::Nothing);
}

#[test]
fn init_request() {
    let q = plan_request(Command::Init(Init { routine: 12 })).unwrap();
    assert_eq!((q.method, q.url.as_str()), (Method::Post, "http://localhost:8080/routines/12/init"));
    assert!(matches!(q.body, Body::Empty));
}

#[test]
fn mark_requests() {
    let e = plan_request(Command::Mark(Mark { task: None, tasklist: None, state: State::Done })).unwrap_err();
    assert_eq!(e, "one of --task and --tasklist need to be passed");
    let e = plan_request(Command::Mark(Mark { task: Some(1), tasklist: Some(2), state: State::Done })).unwrap_err();
    assert_eq!(e, "only one of --task and --tasklist may be passed");
    let q = plan_request(Command::Mark(Mark { task: Some(5), tasklist: None, state: State::Paused })).unwrap();
    assert_eq!((q.method, q.url.as_str()), (Method::Patch, "http://localhost:8080/tasks/5"));
    assert!(matches!(q.body, Body::MarkTask(ref m) if m.state == Some(State::Paused) && m.name.is_none()));
    let q = plan_request(Command::Mark(Mark { task: None, tasklist: Some(6), state: State::Started })).unwrap();
    assert_eq!((q.method, q.url.as_str()), (Method::Patch, "http://localhost:8080/tasklists/6"));
    assert!(matches!(q.body, Body::MarkTasklist(ref m) if m.state == Some(State::Started)));
}

#[test]
fn show_requests() {
    let q = plan_request(Command::Show(Show::Routine { id: Some(3) })).unwrap();
    assert_eq!((q.method, q.url.as_str(), q.shown), (Method::Get, "http://localhost:8080/routines/3", Shown::Routine));
    let q = plan_request(Command::Show(Show::Routine { id: None })).unwrap();
    assert_eq!((q.url.as_str(), q.shown), ("http://localhost:8080/routines", Shown::Routines));
    let q = plan_request(Command::Show(Show::Task { id: 9 })).unwrap();
    assert_eq!((q.url.as_str(), q.shown), ("http://localhost:8080/tasks/9", Shown::Task));
    let q = plan_request(Command::Show(Show::Tasklist { id: Some(2), follow_tasks: false })).unwrap();
    assert_eq!((q.url.as_str(), q.shown), ("http://localhost:8080/tasklists/2", Shown::Tasklist));
    let q = plan_request(Command::Show(Show::Tasklist { id: Some(2), follow_tasks: true })).unwrap();
    assert_eq!(q.shown, Shown::TasklistWithTasks);
    let q = plan_request(Command::Show(Show::Tasklist { id: None, follow_tasks: false })).unwrap();
    assert_eq!((q.url.as_str(), q.shown), ("http://localhost:8080/tasklists", Shown::Tasklists));
    let e = plan_request(Command::Show(Show::Tasklist { id: None, follow_tasks: true })).unwrap_err();
    assert_eq!(e, "not following tasks when showing all tasklists");
}

#[test]
fn followed_task_urls() {
    assert_eq!(task_urls(&vec![4, -1]), vec!["http://localhost:8080/tasks/4".to_string(), "http://localhost:8080/tasks/-1".to_string()]);
    assert!(task_urls(&vec![]).is_empty());
}

#[test]
fn header_line() {
    assert_eq!(follow_header(3, "week", State::NotStarted), "[3] week (NotStarted)");
    assert_eq!(follow_header(-2, "x y", State::Done), "[-2] x y (Done)");
    assert_eq!(State::Aborted.debug_name(), format!("{:?}", State::Aborted));
}
