# tasklist

A task-list service. A routine holds a model list of tasks; starting the
routine stamps out a new task list whose tasks are fresh, not-started copies of
the model's tasks. A server keeps routines, task lists and tasks in SQLite and
answers HTTP requests; a command line sends those requests.

## Layout

- `src/` — the library, with its contracts and proofs.
  - `text.rs`: decimal writing and reading of integers (as `Display` and
    `str::parse::<i32>` do), string comparison, `{:?}` quoting.
  - `model.rs`, `command.rs`: the model (states, routines, task lists, tasks)
    and the changes a client may ask for.
  - `error.rs`: how the server refuses a request (400, 404, 500 and the body).
  - `db/`: the stored rows and how they become the model; the requests the
    server makes of its store (`request.rs`); reading tasks and task lists.
  - `server/`: each route as a sequence of store requests. A handler holds the
    request it waits on, takes the store's reply, and says what comes next.
  - `cli.rs`: the command line's commands and the HTTP request each one makes.
- `app/` — the program around it: `serve` as first argument runs the HTTP
  server (actix-web, diesel over SQLite); anything else is the command line
  (clap, reqwest). It performs the I/O the library plans and decides on.
- `tests/` — tests of the library.
