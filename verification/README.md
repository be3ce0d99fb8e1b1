# mini-ray

A small distributed task framework: clients put objects and submit tasks, a head node stores the
objects and schedules the tasks, and workers lease tasks, run them and report back. Actors are values
that live with a worker and change from call to call.

## Layout

- `src/` is the library. All of it is verified with Verus.
  - `ids`, `uuid_text`, `text`: identifiers and their text
  - `error`, `messages`: errors, requests and answers
  - `task`, `refs`: descriptions of tasks and actors, typed references
  - `codec`, `object_store`: values as bytes, and objects in memory
  - `scheduler`: task lifecycle, dependencies, leases, work stealing, silent workers
  - `runtime`, `actors`: what a worker can run
  - `worker`, `client`, `head`: the three parties, as far as they do not talk to the network
  - `laws`, `scheduler::laws`, `head::laws`: what holds of the whole
- `tests/` runs the library.
- `app/` is the program around it: the command line, gRPC, and the types as other crates want them.

## What is proved

Each function states what it returns and what it changes. A scheduler is described by
`SchedulerView`, a head node by `HeadView`; the functions `after_..` in `scheduler::model` and
`head::model` say what each operation does to them. Where the order in which a hash map is walked, a
random number or the clock decides, the contract says what holds of every outcome, and that the
number was drawn (`uuid_text::may_draw`) and the clock read (`clock::may_read`); a second function
takes the number or the reading as an argument (`submit_task_as`, `poll_task_at`).

## What is trusted

- `uuid_text`: that the `uuid` crate reads and writes identifiers in the usual forms
- `codec`: nothing is claimed of the bytes that `bincode` makes of a value or reads a value from;
  the contracts say which value or which bytes it is called with, and what becomes of the outcome
- `clock`: what `std::time` says of spans of time; of a reading of the clock nothing is claimed but
  that it was read
- `string_table`: that copying an `Arc` gives a pointer to the same value
