//! A lightweight, in-memory job queue for asynchronous work inside a single process.
//!
//! The crate holds every decision that the queue makes as a state machine over plain
//! values: what a queue hands out next, when a job is tried again, which outcome a
//! stream ends with, which window a batch input joins, what a worker does with what it
//! dequeued. An asynchronous shell performs the awaits and reports what happened.

pub mod batch;
pub mod builder;
pub mod channel;
pub mod error;
pub mod executable;
pub mod future;
pub mod job;
pub mod job_queue;
pub mod lifecycle;
pub mod queue;
pub mod signal;
pub mod stream_job;
pub mod task;
pub mod text;
pub mod time;
pub mod worker;

pub use batch::job::{BatchJob, BatchStep, JobDelivery};
pub use batch::stream::batcher::{StreamBatchExecutor, StreamBatcher, StreamBatcherBuilder};
pub use batch::stream::independent::{Independent, IndependentRun, MemberStep};
pub use batch::stream::job::{BatchRun, StreamBatchJob};
pub use batch::stream::member::{
    MemberSendError, StreamBatchActivity, StreamBatchContext, StreamBatchMember, StreamDelivery,
};
pub use batch::stream::mode::StreamBatchMode;
pub use batch::stream::multiplexed::{
    Dispatch, MemberCommand, Multiplexed, MultiplexedAction, MultiplexedEvent, MultiplexedRun,
};
pub use batch::stream::traits::{
    BatchStreamEvent, IndependentBatchStreamTask, MultiplexedBatchStreamTask,
};
pub use batch::task::{BatchStreamTask, BatchTask, Batched, Batcher, BatcherBuilder};
pub use batch::window::{BatchPolicy, Joined, Readiness, Window, WindowAdmission, WindowSlot};
pub use builder::{
    BatchJobQueueSystemBuilder, JobQueueSystemBuilder, QueueSystem, QueueSystemBuilder,
};
pub use channel::{Sent, TrySendError};
pub use error::{Error, PanicPayload};
pub use executable::{AnyExecutable, Executable, Execute, ExecuteStream, Single};
pub use future::{
    Awaited, JobFuture, JobFutureSet, JobFutureSetter, JobStream, JobStreamHandle, JobStreamSetter,
};
pub use job::{panic_message, Job, JobStatus, JobStep};
pub use job_queue::{JobOptions, JobQueue, JobQueueBuilder, JobStreamOptions};
pub use lifecycle::StreamLifecycle;
pub use queue::fifo::FifoQueue;
pub use queue::lifo::LifoQueue;
pub use queue::priority::{PriorityOptions, PriorityQueue};
pub use queue::traits::{Dequeued, Enqueued, Queue};
pub use stream_job::{StreamJob, StreamStep};
pub use task::{Attempt, Driven, FnStreamTask, FnTask, StreamPoll, StreamTask, Task};
pub use worker::{
    Arrival, BatchJobWorker, BatchJobWorkerOptions, JobBatch, JobWorker, Worker, WorkerAction,
    WorkerEvent, WorkerPool, WorkerPoolBuilder,
};
