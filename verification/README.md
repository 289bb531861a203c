# jobq

A lightweight, in-memory job queue for asynchronous work inside a single process, whose decisions
are verified with [Verus](https://github.com/verus-lang/verus).

A job runs a task for one result, drives a stream of items, or runs the inputs of a batch
together. Jobs wait in a queue until a worker of a pool runs them.

## Layout

- `src/` is the verified library. It is made of state machines over plain values: each public
  function says in its contract what it returns and what it changes, and the promises that span
  several calls are public proof functions beside the types that they are about.
  - `queue/` holds the queues: first in first out, last in first out, and by priority. A higher
    priority goes first, and equal priorities keep the order of their arrival. A queue counts no
    more items than it has room for; whoever enqueues beyond that waits until one is dequeued.
  - `job`, `stream_job` and `batch/job` hold the jobs: when a task is run again, which result is
    handed over, and when a job is over.
  - `batch/window` holds the windows in which the inputs of a batch are gathered, and
    `batch/task` the batcher over them.
  - `batch/stream/` holds batches of streams: their members, the two ways of running them, and
    the job around them.
  - `future` and `lifecycle` hold the futures of results and the life of a stream.
  - `job_queue`, `worker` and `builder` hold the queue of jobs, the workers and what makes them.
  - `channel`, `signal` and `time` hold what is believed of the `futures` and `event-listener`
    crates and of `std::time`.
- `app/` is the asynchronous shell: it holds the locks, performs the awaits, catches panics and
  reports what happened to the library.
- `tests/` runs the library.

## Tasks

An ordinary task may be run several times: an error is followed by another run as long as one is
permitted, and a panic never is. Every task is run once at least. Each input of a batch has its
own number of permitted runs; only the inputs that failed are run again. Streams are never run
again.

A worker that runs jobs in batches collects each batch for a fixed time at most, counted from when
it begins to, and then runs what it has.
