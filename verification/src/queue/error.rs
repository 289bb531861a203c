//! Errors of the queue operations.

use vstd::prelude::*;
use vstd::string::StringExecFns;

use crate::text::joined;

verus! {

/// What can go wrong when a queue is used.
#[derive(Debug)]
pub enum Error {
    /// The queue is closed.
    Closed,
    /// An item could not be enqueued.
    EnqueueError(String),
    /// An item could not be dequeued.
    DequeueError(String),
    /// Anything else.
    UnexpectedError(String),
}

impl Error {
    /// The error of an operation on a closed queue.
    pub fn closed() -> (error: Self)
        ensures
            error == Error::Closed,
    {
        Error::Closed
    }

    /// The error of a failed enqueue.
    pub fn enqueue_error(message: String) -> (error: Self)
        ensures
            error == Error::EnqueueError(message),
    {
        Error::EnqueueError(message)
    }

    /// The error of a failed dequeue.
    pub fn dequeue_error(message: String) -> (error: Self)
        ensures
            error == Error::DequeueError(message),
    {
        Error::DequeueError(message)
    }

    /// An error that fits no other variant.
    pub fn unexpected_error(message: String) -> (error: Self)
        ensures
            error == Error::UnexpectedError(message),
    {
        Error::UnexpectedError(message)
    }

    /// What the error says.
    pub open spec fn says(self) -> Seq<char> {
        match self {
            Error::Closed => "queue is closed"@,
            Error::EnqueueError(message) => "failed to enqueue item to the queue: "@ + message@,
            Error::DequeueError(message) => "failed to dequeue item from the queue: "@ + message@,
            Error::UnexpectedError(message) => "unexpected error occurred: "@ + message@,
        }
    }

    /// The text of the error.
    pub fn text(&self) -> (text: String)
        ensures
            text@ == self.says(),
    {
        match self {
            Error::Closed => String::from_str("queue is closed"),
            Error::EnqueueError(message) => joined(
                "failed to enqueue item to the queue: ",
                message.as_str(),
            ),
            Error::DequeueError(message) => joined(
                "failed to dequeue item from the queue: ",
                message.as_str(),
            ),
            Error::UnexpectedError(message) => joined(
                "unexpected error occurred: ",
                message.as_str(),
            ),
        }
    }
}

impl Clone for Error {
    fn clone(&self) -> (copy: Self)
        ensures
            copy == *self,
    {
        match self {
            Error::Closed => Error::Closed,
            Error::EnqueueError(message) => Error::EnqueueError(message.clone()),
            Error::DequeueError(message) => Error::DequeueError(message.clone()),
            Error::UnexpectedError(message) => Error::UnexpectedError(message.clone()),
        }
    }
}

/// The text of an error names what went wrong, and ends with what the error was told.
pub proof fn queue_error_text_names_what_went_wrong(error: Error)
    ensures
        match error {
            Error::Closed => error.says() == "queue is closed"@,
            Error::EnqueueError(message) => {
                &&& "failed to enqueue item to the queue: "@.is_prefix_of(error.says())
                &&& error.says().skip("failed to enqueue item to the queue: "@.len() as int)
                    == message@
            },
            Error::DequeueError(message) => {
                &&& "failed to dequeue item from the queue: "@.is_prefix_of(error.says())
                &&& error.says().skip("failed to dequeue item from the queue: "@.len() as int)
                    == message@
            },
            Error::UnexpectedError(message) => {
                &&& "unexpected error occurred: "@.is_prefix_of(error.says())
                &&& error.says().skip("unexpected error occurred: "@.len() as int) == message@
            },
        },
{
    match error {
        Error::Closed => {},
        Error::EnqueueError(message) => {
            assert(error.says().skip("failed to enqueue item to the queue: "@.len() as int)
                =~= message@);
        },
        Error::DequeueError(message) => {
            assert(error.says().skip("failed to dequeue item from the queue: "@.len() as int)
                =~= message@);
        },
        Error::UnexpectedError(message) => {
            assert(error.says().skip("unexpected error occurred: "@.len() as int) =~= message@);
        },
    }
}

} // verus!
