use std::fmt;

use jobq::queue::error::Error as QueueError;
use jobq::{panic_message, Error, PanicPayload};

#[derive(Debug, PartialEq)]
struct Boom(u32);

impl fmt::Display for Boom {
    fn fmt(&self, f: &mut fmt::Formatter<'_>) -> fmt::Result {
        f.write_str(&format!("boom: {}", self.0))
    }
}

#[test]
fn task_errors_keep_their_text_and_identity() {
    let error = Error::task_execution(Boom(7));
    match error.clone() {
        Error::TaskExecution { message, source } => {
            assert_eq!(message, "boom: 7");
            assert_eq!(*source, Boom(7));
        }
        _ => panic!("an error of the task"),
    }
    match (error, Error::task_execution(Boom(7))) {
        (Error::TaskExecution { source: first, .. }, Error::TaskExecution { source: second, .. }) => {
            assert_eq!(first, second);
        }
        _ => panic!("an error of the task"),
    }
}

#[test]
fn panics_are_told_by_their_text() {
    assert_eq!(panic_message(PanicPayload::Literal("boom")), "boom");
    assert_eq!(panic_message(PanicPayload::Owned("boom 7".to_string())), "boom 7");
    assert_eq!(panic_message(PanicPayload::Opaque), "unknown panic");

    assert!(matches!(
        Error::<Boom>::from_panic(PanicPayload::Literal("boom")),
        Error::TaskPanic(text) if text == "boom"
    ));
    assert!(matches!(
        Error::<Boom>::from_panic(PanicPayload::Opaque),
        Error::TaskPanic(text) if text == "unknown panic"
    ));
}

#[test]
fn constructors_give_their_variants() {
    assert!(matches!(Error::<Boom>::queue(QueueError::closed()), Error::Queue(QueueError::Closed)));
    assert!(matches!(Error::<Boom>::future_closed(), Error::FutureClosed));
    assert!(matches!(Error::<Boom>::job_timeout(), Error::JobTimeout));
    assert!(matches!(
        Error::<Boom>::task_panic("oh".to_string()),
        Error::TaskPanic(text) if text == "oh"
    ));
    assert!(matches!(
        Error::<Boom>::batch_size_mismatch(3, 2),
        Error::BatchSizeMismatch { expected: 3, actual: 2 }
    ));
    assert!(matches!(
        Error::<Boom>::invalid_stream_capacity(0),
        Error::InvalidStreamCapacity(0)
    ));
    assert!(matches!(Error::<Boom>::consumer_cancelled(), Error::ConsumerCancelled));
    assert!(matches!(Error::<Boom>::consumer_lag(), Error::ConsumerLag));
    assert!(matches!(Error::<Boom>::incomplete_stream_batch(), Error::IncompleteStreamBatch));
}

#[test]
fn queue_errors_are_copied_with_their_text() {
    assert!(matches!(
        QueueError::enqueue_error("full".to_string()).clone(),
        QueueError::EnqueueError(text) if text == "full"
    ));
    assert!(matches!(
        QueueError::dequeue_error("gone".to_string()).clone(),
        QueueError::DequeueError(text) if text == "gone"
    ));
    assert!(matches!(
        QueueError::unexpected_error("odd".to_string()).clone(),
        QueueError::UnexpectedError(text) if text == "odd"
    ));
    assert!(matches!(QueueError::closed().clone(), QueueError::Closed));
}

#[test]
fn errors_say_what_went_wrong() {
    let text = |error: Error<Boom>| error.text();
    assert_eq!(
        text(Error::queue(QueueError::closed())),
        "queue error: queue is closed"
    );
    assert_eq!(text(Error::future_closed()), "future closed");
    assert_eq!(text(Error::job_timeout()), "job timeout");
    assert_eq!(text(Error::task_execution(Boom(7))), "task execution error: boom: 7");
    assert_eq!(text(Error::task_panic("oh".to_string())), "task panicked: oh");
    assert_eq!(
        text(Error::batch_size_mismatch(12, 0)),
        "batch returned 0 results for 12 members"
    );
    assert_eq!(
        text(Error::invalid_stream_capacity(1203)),
        "invalid stream capacity: 1203"
    );
    assert_eq!(
        text(Error::invalid_stream_capacity(usize::MAX)),
        format!("invalid stream capacity: {}", usize::MAX)
    );
    assert_eq!(text(Error::consumer_cancelled()), "stream consumer cancelled");
    assert_eq!(text(Error::consumer_lag()), "stream consumer lagged");
    assert_eq!(
        text(Error::incomplete_stream_batch()),
        "stream batch member did not complete"
    );
}

#[test]
fn queue_errors_say_what_went_wrong() {
    assert_eq!(QueueError::closed().text(), "queue is closed");
    assert_eq!(
        QueueError::enqueue_error("full".to_string()).text(),
        "failed to enqueue item to the queue: full"
    );
    assert_eq!(
        QueueError::dequeue_error("gone".to_string()).text(),
        "failed to dequeue item from the queue: gone"
    );
    assert_eq!(
        QueueError::unexpected_error("odd".to_string()).text(),
        "unexpected error occurred: odd"
    );
}
