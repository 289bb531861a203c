//! Errors of jobs, futures and streams.

use std::sync::Arc;

use vstd::prelude::*;
use vstd::string::{to_string_from_display_ensures, StringExecFns};

use crate::job::panic_message;
use crate::queue::error::Error as QueueError;
use crate::text::{append_decimal, decimal, decimal_stands_for_its_number, joined, value_of};

verus! {

/// What a panicking task left behind.
#[derive(Debug)]
pub enum PanicPayload {
    /// A panic with a string literal.
    Literal(&'static str),
    /// A panic with a formatted message.
    Owned(String),
    /// A panic with any other payload.
    Opaque,
}

impl PanicPayload {
    /// The text that stands for the panic in an error.
    pub open spec fn text(self) -> Seq<char> {
        match self {
            PanicPayload::Literal(text) => text@,
            PanicPayload::Owned(text) => text@,
            PanicPayload::Opaque => "unknown panic"@,
        }
    }
}

/// What can go wrong with a job. `S` is the error type of the task that the job runs.
#[derive(Debug)]
pub enum Error<S> {
    /// The queue refused the operation.
    Queue(QueueError),
    /// The future was closed, or the job went away without a result.
    FutureClosed,
    /// The job took too long.
    JobTimeout,
    /// The task returned an error.
    TaskExecution {
        /// What the task's error says.
        message: String,
        /// The task's error itself.
        source: Arc<S>,
    },
    /// The task panicked.
    TaskPanic(String),
    /// A batch task returned the wrong number of results.
    BatchSizeMismatch {
        /// How many members the batch had.
        expected: usize,
        /// How many results came back.
        actual: usize,
    },
    /// A stream cannot have this capacity.
    InvalidStreamCapacity(usize),
    /// The consumer of a stream went away.
    ConsumerCancelled,
    /// The consumer of a stream did not keep up.
    ConsumerLag,
    /// A member of a stream batch was left without an outcome.
    IncompleteStreamBatch,
}

impl<S> Error<S> {
    /// Wraps an error of the queue.
    pub fn queue(error: QueueError) -> (wrapped: Self)
        ensures
            wrapped == Error::<S>::Queue(error),
    {
        Error::Queue(error)
    }

    /// The error of a closed future.
    pub fn future_closed() -> (error: Self)
        ensures
            error == Error::<S>::FutureClosed,
    {
        Error::FutureClosed
    }

    /// The error of a job that took too long.
    pub fn job_timeout() -> (error: Self)
        ensures
            error == Error::<S>::JobTimeout,
    {
        Error::JobTimeout
    }

    /// The error of a task that panicked with `message`.
    pub fn task_panic(message: String) -> (error: Self)
        ensures
            error == Error::<S>::TaskPanic(message),
    {
        Error::TaskPanic(message)
    }

    /// The error of a task that panicked with `panic`.
    pub fn from_panic(panic: PanicPayload) -> (error: Self)
        ensures
            error.is_panic_of(panic),
    {
        Error::task_panic(panic_message(panic))
    }

    /// The error of a batch of `expected` members that got `actual` results.
    pub fn batch_size_mismatch(expected: usize, actual: usize) -> (error: Self)
        ensures
            error == (Error::<S>::BatchSizeMismatch { expected, actual }),
    {
        Error::BatchSizeMismatch { expected, actual }
    }

    /// The error of a stream that cannot have `capacity`.
    pub fn invalid_stream_capacity(capacity: usize) -> (error: Self)
        ensures
            error == Error::<S>::InvalidStreamCapacity(capacity),
    {
        Error::InvalidStreamCapacity(capacity)
    }

    /// The error of a stream whose consumer went away.
    pub fn consumer_cancelled() -> (error: Self)
        ensures
            error == Error::<S>::ConsumerCancelled,
    {
        Error::ConsumerCancelled
    }

    /// The error of a stream whose consumer did not keep up.
    pub fn consumer_lag() -> (error: Self)
        ensures
            error == Error::<S>::ConsumerLag,
    {
        Error::ConsumerLag
    }

    /// The error of a stream batch member that was left without an outcome.
    pub fn incomplete_stream_batch() -> (error: Self)
        ensures
            error == Error::<S>::IncompleteStreamBatch,
    {
        Error::IncompleteStreamBatch
    }

    /// Whether this is the error of a task that panicked with `panic`.
    pub open spec fn is_panic_of(self, panic: PanicPayload) -> bool {
        self is TaskPanic && self->TaskPanic_0@ == panic.text()
    }

    /// Whether this is the error of a task that returned `source`.
    pub open spec fn is_execution_of(self, source: S) -> bool where S: std::fmt::Display {
        &&& self is TaskExecution
        &&& *self->source == source
        &&& to_string_from_display_ensures(&source, self->message)
    }
}

impl<S> Error<S> {
    /// What the error says.
    pub open spec fn says(self) -> Seq<char> {
        match self {
            Error::Queue(error) => "queue error: "@ + error.says(),
            Error::FutureClosed => "future closed"@,
            Error::JobTimeout => "job timeout"@,
            Error::TaskExecution { message, source: _ } => "task execution error: "@ + message@,
            Error::TaskPanic(message) => "task panicked: "@ + message@,
            Error::BatchSizeMismatch { expected, actual } => "batch returned "@ + decimal(
                actual as nat,
            ) + " results for "@ + decimal(expected as nat) + " members"@,
            Error::InvalidStreamCapacity(capacity) => "invalid stream capacity: "@ + decimal(
                capacity as nat,
            ),
            Error::ConsumerCancelled => "stream consumer cancelled"@,
            Error::ConsumerLag => "stream consumer lagged"@,
            Error::IncompleteStreamBatch => "stream batch member did not complete"@,
        }
    }

    /// The text of the error.
    pub fn text(&self) -> (text: String)
        ensures
            text@ == self.says(),
    {
        match self {
            Error::Queue(error) => joined("queue error: ", error.text().as_str()),
            Error::FutureClosed => String::from_str("future closed"),
            Error::JobTimeout => String::from_str("job timeout"),
            Error::TaskExecution { message, source: _ } => joined(
                "task execution error: ",
                message.as_str(),
            ),
            Error::TaskPanic(message) => joined("task panicked: ", message.as_str()),
            Error::BatchSizeMismatch { expected, actual } => {
                let mut text = String::from_str("batch returned ");
                append_decimal(&mut text, *actual);
                text.append(" results for ");
                append_decimal(&mut text, *expected);
                text.append(" members");
                text
            },
            Error::InvalidStreamCapacity(capacity) => {
                let mut text = String::from_str("invalid stream capacity: ");
                append_decimal(&mut text, *capacity);
                text
            },
            Error::ConsumerCancelled => String::from_str("stream consumer cancelled"),
            Error::ConsumerLag => String::from_str("stream consumer lagged"),
            Error::IncompleteStreamBatch => String::from_str(
                "stream batch member did not complete",
            ),
        }
    }
}

impl<S: std::fmt::Display> Error<S> {
    /// The error of a task that returned `error`. The task's error is kept as it is, and its
    /// text becomes the message.
    pub fn task_execution(error: S) -> (wrapped: Self)
        ensures
            wrapped.is_execution_of(error),
    {
        Error::TaskExecution { message: error.to_string(), source: Arc::new(error) }
    }
}

impl<S> Clone for Error<S> {
    /// A copy that shares the task's error.
    fn clone(&self) -> (copy: Self)
        ensures
            copy == *self,
    {
        match self {
            Error::Queue(error) => Error::Queue(error.clone()),
            Error::FutureClosed => Error::FutureClosed,
            Error::JobTimeout => Error::JobTimeout,
            Error::TaskExecution { message, source } => Error::TaskExecution {
                message: message.clone(),
                source: source.clone(),
            },
            Error::TaskPanic(message) => Error::TaskPanic(message.clone()),
            Error::BatchSizeMismatch { expected, actual } => Error::BatchSizeMismatch {
                expected: *expected,
                actual: *actual,
            },
            Error::InvalidStreamCapacity(capacity) => Error::InvalidStreamCapacity(*capacity),
            Error::ConsumerCancelled => Error::ConsumerCancelled,
            Error::ConsumerLag => Error::ConsumerLag,
            Error::IncompleteStreamBatch => Error::IncompleteStreamBatch,
        }
    }
}

/// The error of a task that failed holds the task's error itself and what that says, and the error
/// of a task that panicked holds the text of the panic, or that there was none to be had.
pub proof fn error_holds_what_went_wrong<S: std::fmt::Display>(
    error: Error<S>,
    failure: S,
    panic: PanicPayload,
)
    ensures
        error.is_execution_of(failure) <==> (error matches Error::TaskExecution { message, source }
            && *source == failure && to_string_from_display_ensures(&failure, message)),
        error.is_panic_of(panic) <==> (error matches Error::TaskPanic(message) && message@
            == match panic {
            PanicPayload::Literal(text) => text@,
            PanicPayload::Owned(text) => text@,
            PanicPayload::Opaque => "unknown panic"@,
        }),
{
}

/// The text of an error names what went wrong, and holds what the error holds: the text of what it
/// wraps at its end, or the numbers that it is about, in decimal digits.
pub proof fn error_text_names_what_went_wrong<S>(error: Error<S>)
    ensures
        match error {
            Error::Queue(wrapped) => {
                &&& "queue error: "@.is_prefix_of(error.says())
                &&& error.says().skip("queue error: "@.len() as int) == wrapped.says()
            },
            Error::FutureClosed => error.says() == "future closed"@,
            Error::JobTimeout => error.says() == "job timeout"@,
            Error::TaskExecution { message, source: _ } => {
                &&& "task execution error: "@.is_prefix_of(error.says())
                &&& error.says().skip("task execution error: "@.len() as int) == message@
            },
            Error::TaskPanic(message) => {
                &&& "task panicked: "@.is_prefix_of(error.says())
                &&& error.says().skip("task panicked: "@.len() as int) == message@
            },
            Error::BatchSizeMismatch { expected, actual } => exists|
                results: Seq<char>,
                members: Seq<char>,
            |
                {
                    &&& value_of(results) == actual
                    &&& value_of(members) == expected
                    &&& error.says() == #[trigger] ("batch returned "@ + results
                        + " results for "@ + members) + " members"@
                },
            Error::InvalidStreamCapacity(capacity) => {
                &&& "invalid stream capacity: "@.is_prefix_of(error.says())
                &&& value_of(error.says().skip("invalid stream capacity: "@.len() as int))
                    == capacity
            },
            Error::ConsumerCancelled => error.says() == "stream consumer cancelled"@,
            Error::ConsumerLag => error.says() == "stream consumer lagged"@,
            Error::IncompleteStreamBatch => error.says() == "stream batch member did not complete"@,
        },
{
    match error {
        Error::Queue(wrapped) => {
            assert(error.says().skip("queue error: "@.len() as int) =~= wrapped.says());
        },
        Error::TaskExecution { message, source: _ } => {
            assert(error.says().skip("task execution error: "@.len() as int) =~= message@);
        },
        Error::TaskPanic(message) => {
            assert(error.says().skip("task panicked: "@.len() as int) =~= message@);
        },
        Error::BatchSizeMismatch { expected, actual } => {
            decimal_stands_for_its_number(expected as nat);
            decimal_stands_for_its_number(actual as nat);
            let (results, members) = (decimal(actual as nat), decimal(expected as nat));
            let front = "batch returned "@ + results + " results for "@ + members;
            assert(error.says() == front + " members"@);
        },
        Error::InvalidStreamCapacity(capacity) => {
            decimal_stands_for_its_number(capacity as nat);
            assert(error.says().skip("invalid stream capacity: "@.len() as int) =~= decimal(
                capacity as nat,
            ));
        },
        _ => {},
    }
}

} // verus!
