//! The command line: its commands, and the request to the server that each
//! command makes.
use vstd::prelude::*;

use crate::command::{MarkTask, MarkTasklist};
use crate::model::{NewRoutine, Repetition, State};
use crate::text::{debug_str, debug_text, decimal, i32_to_string, signed_decimal, str_eq, u64_to_string};

verus! {

/// The command line's arguments.
#[derive(Debug)]
pub struct Args {
    pub local: bool,
    pub command: Command,
}

/// What the command line is asked to do.
#[derive(Debug)]
pub enum Command {
    Create(Create),
    Init(Init),
    Mark(Mark),
    Remove(Remove),
    Show(Show),
}

/// Create a task in a routine, or a routine.
#[derive(Debug)]
pub enum Create {
    Task { name: String, routine: usize },
    Routine { name: String, repetition: Option<String> },
}

/// Start a task list from the routine `routine`.
#[derive(Debug)]
pub struct Init {
    pub routine: usize,
}

/// Set the state of a task or of a task list.
#[derive(Debug)]
pub struct Mark {
    pub task: Option<u64>,
    pub tasklist: Option<u64>,
    pub state: State,
}

/// Remove a task from a task list.
#[derive(Debug)]
pub enum Remove {
    Task { id: u64, from: u64 },
}

/// Show a task, a task list (or all), or a routine (or all).
#[derive(Debug)]
pub enum Show {
    Task { id: u64 },
    Tasklist { id: Option<u64>, follow_tasks: bool },
    Routine { id: Option<u64> },
}

/// The text `"unknown repetition "`.
pub open spec fn unknown_repetition_prefix() -> Seq<char> {
    "unknown repetition "@
}

/// Reads a repetition: only `manual` is one; any other text is refused with the
/// message `unknown repetition ` followed by the text as `{:?}` writes it.
pub fn parse_repetition(s: &str) -> (r: Result<Repetition, String>)
    ensures
        s@ == "manual"@ ==> r == Ok::<Repetition, String>(Repetition::Manual),
        s@ != "manual"@ ==> (r matches Err(msg) && msg@ == unknown_repetition_prefix()
            + debug_text(s@)),
{
    if str_eq(s, "manual") {
        Ok(Repetition::Manual)
    } else {
        let msg = String::from_str("unknown repetition ");
        let quoted = debug_str(s);
        Err(msg.concat(quoted.as_str()))
    }
}

/// The HTTP method of a request.
#[derive(Debug, Clone, Copy, PartialEq, Eq, Structural)]
pub enum Method {
    Get,
    Post,
    Patch,
}

/// What a request sends as its JSON body.
#[derive(Debug)]
pub enum Body {
    Empty,
    NewRoutine(NewRoutine),
    MarkTask(MarkTask),
    MarkTasklist(MarkTasklist),
}

/// What the reply to a request holds, and so how it is shown.
#[derive(Debug, Clone, Copy, PartialEq, Eq, Structural)]
pub enum Shown {
    /// Nothing beyond success.
    Nothing,
    Routine,
    Routines,
    Task,
    Tasklist,
    /// A task list, whose tasks are then fetched one by one and shown.
    TasklistWithTasks,
    Tasklists,
}

/// A request to the server.
#[derive(Debug)]
pub struct Request {
    pub method: Method,
    pub url: String,
    pub body: Body,
    pub shown: Shown,
}

/// The address of the server's `path`.
pub open spec fn url_of(path: Seq<char>) -> Seq<char> {
    "http://localhost:8080"@ + path
}

/// The command asks for what the command line does not do yet: creating a task,
/// or removing one.
pub open spec fn unsupported(command: Command) -> bool {
    ||| command matches Command::Create(Create::Task { .. })
    ||| command is Remove
}

/// The message for a mark naming neither a task nor a task list.
pub open spec fn mark_none_text() -> Seq<char> {
    "one of --task and --tasklist need to be passed"@
}

/// The message for a mark naming both a task and a task list.
pub open spec fn mark_both_text() -> Seq<char> {
    "only one of --task and --tasklist may be passed"@
}

/// The message for following the tasks of all task lists.
pub open spec fn follow_all_text() -> Seq<char> {
    "not following tasks when showing all tasklists"@
}

/// `r` is the request with method `method`, path `path`, and what is shown of
/// the reply `shown`.
pub open spec fn is_request(r: Request, method: Method, path: Seq<char>, shown: Shown) -> bool {
    r.method == method && r.url@ == url_of(path) && r.shown == shown
}

/// The request that `command` makes of the server, or why it makes none.
pub open spec fn request_ok(command: Command, r: Result<Request, String>) -> bool {
    match command {
        Command::Create(Create::Routine { name, .. }) => r matches Ok(q) && is_request(
            q,
            Method::Post,
            "/routines/new"@,
            Shown::Nothing,
        ) && (q.body matches Body::NewRoutine(nr) && nr.name == name),
        Command::Create(Create::Task { .. }) => true,
        Command::Init(Init { routine }) => r matches Ok(q) && is_request(
            q,
            Method::Post,
            "/routines/"@ + decimal(routine as nat) + "/init"@,
            Shown::Nothing,
        ) && q.body is Empty,
        Command::Mark(Mark { task, tasklist, state }) => match (task, tasklist) {
            (None, None) => r matches Err(msg) && msg@ == mark_none_text(),
            (Some(_), Some(_)) => r matches Err(msg) && msg@ == mark_both_text(),
            (Some(id), None) => r matches Ok(q) && is_request(
                q,
                Method::Patch,
                "/tasks/"@ + decimal(id as nat),
                Shown::Nothing,
            ) && (q.body matches Body::MarkTask(mt) && mt.state == Some(state) && mt.name is None),
            (None, Some(id)) => r matches Ok(q) && is_request(
                q,
                Method::Patch,
                "/tasklists/"@ + decimal(id as nat),
                Shown::Nothing,
            ) && (q.body matches Body::MarkTasklist(mt) && mt.state == Some(state)),
        },
        Command::Remove(_) => true,
        Command::Show(Show::Routine { id: Some(id) }) => r matches Ok(q) && is_request(
            q,
            Method::Get,
            "/routines/"@ + decimal(id as nat),
            Shown::Routine,
        ) && q.body is Empty,
        Command::Show(Show::Routine { id: None }) => r matches Ok(q) && is_request(
            q,
            Method::Get,
            "/routines"@,
            Shown::Routines,
        ) && q.body is Empty,
        Command::Show(Show::Task { id }) => r matches Ok(q) && is_request(
            q,
            Method::Get,
            "/tasks/"@ + decimal(id as nat),
            Shown::Task,
        ) && q.body is Empty,
        Command::Show(Show::Tasklist { id: Some(id), follow_tasks }) => r matches Ok(q)
            && is_request(
            q,
            Method::Get,
            "/tasklists/"@ + decimal(id as nat),
            if follow_tasks {
                Shown::TasklistWithTasks
            } else {
                Shown::Tasklist
            },
        ) && q.body is Empty,
        Command::Show(Show::Tasklist { id: None, follow_tasks }) => if follow_tasks {
            r matches Err(msg) && msg@ == follow_all_text()
        } else {
            r matches Ok(q) && is_request(q, Method::Get, "/tasklists"@, Shown::Tasklists)
                && q.body is Empty
        },
    }
}

/// The address of the server's `path`, followed by `id` in decimal and `suffix`.
fn url_with_id(path: &str, id: u64, suffix: &str) -> (r: String)
    ensures
        r@ == url_of(path@ + decimal(id as nat) + suffix@),
{
    let mut u = String::from_str("http://localhost:8080");
    u.append(path);
    let n = u64_to_string(id);
    u.append(n.as_str());
    u.append(suffix);
    assert(u@ =~= url_of(path@ + decimal(id as nat) + suffix@));
    u
}

/// The address of the server's `path`.
fn url(path: &str) -> (r: String)
    ensures
        r@ == url_of(path@),
{
    let mut u = String::from_str("http://localhost:8080");
    u.append(path);
    u
}

fn get(url: String, shown: Shown) -> (r: Request)
    ensures
        r.method == Method::Get,
        r.url == url,
        r.body is Empty,
        r.shown == shown,
{
    Request { method: Method::Get, url, body: Body::Empty, shown }
}

/// The request that `command` makes of the server; a mark must name exactly one
/// of a task and a task list, and the tasks of all task lists are not followed.
pub fn plan_request(command: Command) -> (r: Result<Request, String>)
    requires
        !unsupported(command),
    ensures
        request_ok(command, r),
        r matches Ok(q) ==> (command is Show <==> q.method == Method::Get),
        r matches Ok(q) ==> (command is Show <==> q.shown != Shown::Nothing),
{
    proof {
        reveal_strlit("");
    }
    match command {
        Command::Create(Create::Routine { name, .. }) => Ok(
            Request {
                method: Method::Post,
                url: url("/routines/new"),
                body: Body::NewRoutine(NewRoutine { name }),
                shown: Shown::Nothing,
            },
        ),
        Command::Init(Init { routine }) => Ok(
            Request {
                method: Method::Post,
                url: url_with_id("/routines/", routine as u64, "/init"),
                body: Body::Empty,
                shown: Shown::Nothing,
            },
        ),
        Command::Mark(Mark { task, tasklist, state }) => match (task, tasklist) {
            (None, None) => Err(String::from_str("one of --task and --tasklist need to be passed")),
            (Some(_), Some(_)) => Err(
                String::from_str("only one of --task and --tasklist may be passed"),
            ),
            (Some(id), None) => {
                let url = url_with_id("/tasks/", id, "");
                let mut mark = MarkTask::default();
                mark.state = Some(state);
                assert(url@ =~= url_of("/tasks/"@ + decimal(id as nat)));
                Ok(
                    Request {
                        method: Method::Patch,
                        url,
                        body: Body::MarkTask(mark),
                        shown: Shown::Nothing,
                    },
                )
            },
            (None, Some(id)) => {
                let url = url_with_id("/tasklists/", id, "");
                let mut mark = MarkTasklist::default();
                mark.state = Some(state);
                assert(url@ =~= url_of("/tasklists/"@ + decimal(id as nat)));
                Ok(
                    Request {
                        method: Method::Patch,
                        url,
                        body: Body::MarkTasklist(mark),
                        shown: Shown::Nothing,
                    },
                )
            },
        },
        Command::Show(Show::Routine { id: Some(id) }) => {
            let url = url_with_id("/routines/", id, "");
            assert(url@ =~= url_of("/routines/"@ + decimal(id as nat)));
            Ok(get(url, Shown::Routine))
        },
        Command::Show(Show::Routine { id: None }) => Ok(get(url("/routines"), Shown::Routines)),
        Command::Show(Show::Task { id }) => {
            let url = url_with_id("/tasks/", id, "");
            assert(url@ =~= url_of("/tasks/"@ + decimal(id as nat)));
            Ok(get(url, Shown::Task))
        },
        Command::Show(Show::Tasklist { id: Some(id), follow_tasks }) => {
            let url = url_with_id("/tasklists/", id, "");
            assert(url@ =~= url_of("/tasklists/"@ + decimal(id as nat)));
            let shown = if follow_tasks {
                Shown::TasklistWithTasks
            } else {
                Shown::Tasklist
            };
            Ok(get(url, shown))
        },
        Command::Show(Show::Tasklist { id: None, follow_tasks }) => {
            if follow_tasks {
                Err(String::from_str("not following tasks when showing all tasklists"))
            } else {
                Ok(get(url("/tasklists"), Shown::Tasklists))
            }
        },
        Command::Create(Create::Task { .. }) => {
            proof {
                assert(false);
            }
            Err(String::new())
        },
        Command::Remove(_) => {
            proof {
                assert(false);
            }
            Err(String::new())
        },
    }
}

/// A command that shows something reads it: its request is a GET with no body,
/// and the reply is shown. A command that changes the store sends a request
/// other than a GET, and reads nothing of the reply but its success.
pub proof fn lemma_reads_get_writes_not(command: Command, r: Result<Request, String>)
    requires
        !unsupported(command),
        request_ok(command, r),
        r is Ok,
    ensures
        command is Show ==> {
            &&& r->Ok_0.method == Method::Get
            &&& r->Ok_0.body is Empty
            &&& r->Ok_0.shown != Shown::Nothing
        },
        !(command is Show) ==> {
            &&& r->Ok_0.method != Method::Get
            &&& r->Ok_0.shown == Shown::Nothing
        },
{
}

/// A show command is always planned, but for following the tasks of every task
/// list; a mark is planned when it names exactly one of a task and a task list.
pub proof fn lemma_when_planned(command: Command, r: Result<Request, String>)
    requires
        !unsupported(command),
        request_ok(command, r),
    ensures
        r is Ok <==> match command {
            Command::Show(Show::Tasklist { id: None, follow_tasks }) => !follow_tasks,
            Command::Mark(Mark { task, tasklist, .. }) => task is Some != tasklist is Some,
            _ => true,
        },
{
}

/// The addresses of the tasks `tasks`, in order, to fetch when following the
/// tasks of a task list.
pub fn task_urls(tasks: &Vec<i32>) -> (r: Vec<String>)
    ensures
        r@.len() == tasks@.len(),
        forall|i: int|
            0 <= i < tasks@.len() ==> (#[trigger] r@[i])@ == url_of(
                "/tasks/"@ + signed_decimal(tasks@[i] as int),
            ),
{
    let mut urls: Vec<String> = Vec::new();
    let mut i: usize = 0;
    while i < tasks.len()
        invariant
            i <= tasks@.len(),
            urls@.len() == i,
            forall|j: int|
                0 <= j < i ==> (#[trigger] urls@[j])@ == url_of(
                    "/tasks/"@ + signed_decimal(tasks@[j] as int),
                ),
        decreases tasks@.len() - i,
    {
        let mut u = url("/tasks/");
        let n = i32_to_string(tasks[i]);
        u.append(n.as_str());
        assert(u@ =~= url_of("/tasks/"@ + signed_decimal(tasks@[i as int] as int)));
        urls.push(u);
        i = i + 1;
    }
    urls
}

impl State {
    /// The name of the variant, as `{:?}` writes it.
    pub open spec fn variant_name(self) -> Seq<char> {
        match self {
            State::NotStarted => "NotStarted"@,
            State::Started => "Started"@,
            State::Paused => "Paused"@,
            State::Aborted => "Aborted"@,
            State::Done => "Done"@,
        }
    }

    /// The name of the variant, as `{:?}` writes it.
    pub fn debug_name(&self) -> (r: &'static str)
        ensures
            r@ == self.variant_name(),
    {
        match self {
            State::NotStarted => "NotStarted",
            State::Started => "Started",
            State::Paused => "Paused",
            State::Aborted => "Aborted",
            State::Done => "Done",
        }
    }
}

/// The letter `c` in lower case, if it is an ASCII capital; else `c`.
pub open spec fn ascii_lower(c: char) -> char {
    if 'A' <= c <= 'Z' {
        ((c as u32) + 32) as char
    } else {
        c
    }
}

/// The text `s` with each ASCII capital put in lower case.
pub open spec fn ascii_lowercase(s: Seq<char>) -> Seq<char> {
    s.map_values(|c: char| ascii_lower(c))
}

/// The name `{:?}` writes for a state, put in lower case, is a text that names
/// that same state; so no two states share a name.
pub proof fn lemma_variant_name_names_state(st: State)
    ensures
        State::from_name(ascii_lowercase(st.variant_name())) == Some(st),
{
    reveal_strlit("NotStarted");
    reveal_strlit("Started");
    reveal_strlit("Paused");
    reveal_strlit("Aborted");
    reveal_strlit("Done");
    reveal_strlit("notstarted");
    reveal_strlit("not-started");
    reveal_strlit("not_started");
    reveal_strlit("started");
    reveal_strlit("paused");
    reveal_strlit("aborted");
    reveal_strlit("done");
    let low = ascii_lowercase(st.variant_name());
    match st {
        State::NotStarted => {
            assert(low =~= "notstarted"@);
            assert(State::from_name(low) == Some(State::NotStarted));
        },
        State::Started => {
            assert(low =~= "started"@);
            assert(State::from_name(low) == Some(State::Started));
        },
        State::Paused => {
            assert(low =~= "paused"@);
            assert(State::from_name(low) == Some(State::Paused));
        },
        State::Aborted => {
            assert(low =~= "aborted"@);
            assert(low[0] != "started"@[0]);
            assert(State::from_name(low) == Some(State::Aborted));
        },
        State::Done => {
            assert(low =~= "done"@);
            assert(State::from_name(low) == Some(State::Done));
        },
    }
}

/// Two task lists that differ only in their state get different header lines.
pub proof fn lemma_header_tells_states_apart(id: int, name: Seq<char>, a: State, b: State)
    requires
        header_text(id, name, a) == header_text(id, name, b),
    ensures
        a == b,
{
    let p = "["@ + signed_decimal(id) + "] "@ + name + " ("@;
    let ha = header_text(id, name, a);
    let hb = header_text(id, name, b);
    assert(ha =~= p + a.variant_name() + ")"@);
    assert(hb =~= p + b.variant_name() + ")"@);
    reveal_strlit(")");
    assert(a.variant_name().len() == b.variant_name().len());
    assert(a.variant_name() =~= ha.subrange(p.len() as int, (p.len() + a.variant_name().len()) as int));
    assert(b.variant_name() =~= hb.subrange(p.len() as int, (p.len() + b.variant_name().len()) as int));
    lemma_variant_name_names_state(a);
    lemma_variant_name_names_state(b);
}

/// `"[<id>] <name> (<state>)"`: the line heading a task list whose tasks are
/// followed.
pub open spec fn header_text(id: int, name: Seq<char>, state: State) -> Seq<char> {
    "["@ + signed_decimal(id) + "] "@ + name + " ("@ + state.variant_name() + ")"@
}

/// The line heading a task list whose tasks are followed.
pub fn follow_header(id: i32, name: &str, state: State) -> (r: String)
    ensures
        r@ == header_text(id as int, name@, state),
{
    let mut h = String::from_str("[");
    let n = i32_to_string(id);
    h.append(n.as_str());
    h.append("] ");
    h.append(name);
    h.append(" (");
    h.append(state.debug_name());
    h.append(")");
    h
}

} // verus!
