use std::collections::VecDeque;
use std::convert::Infallible;
use std::io;

use futures::channel::mpsc;
use futures::executor::block_on;
use futures::StreamExt;
use jobq::{
    Attempt, Awaited, BatchRun, BatchStreamEvent, Driven, Error, Executable, Independent,
    IndependentRun, JobFuture, JobStatus, JobStreamHandle, MemberSendError, MemberStep, Multiplexed,
    MultiplexedAction, MultiplexedEvent, MultiplexedRun, PanicPayload, Sent, StreamBatchContext,
    StreamBatchJob, StreamBatchMember, StreamDelivery, StreamPoll,
};

/// The consumer's side of one member.
struct Consumer<T, S> {
    items: mpsc::Receiver<Result<T, Error<S>>>,
    result: JobFuture<(), S>,
}

impl<T, S> Consumer<T, S> {
    fn next(&mut self) -> Option<Result<T, Error<S>>> {
        block_on(self.items.next())
    }

    fn result(&mut self) -> Result<(), Error<S>> {
        match self.result.result() {
            Awaited::Ready(result) => result,
            Awaited::Wait(receiver) => JobFuture::received(block_on(receiver)),
        }
    }
}

/// A member whose consumer cancels it by leaving, and its consumer.
fn member<T, S>(capacity: usize) -> (Consumer<T, S>, StreamDelivery<T, S>) {
    let (handle, setter) =
        match JobStreamHandle::new(capacity, Some(Error::consumer_cancelled())) {
            Ok(made) => made,
            Err(_) => panic!("the capacity is supported"),
        };
    let (items, result) = handle.split();
    (Consumer { items: items.into_receiver(), result }, StreamDelivery::new(setter))
}

/// Whether a member that is over failed.
fn over<T, E>(driven: Driven<bool, T, E>) -> bool {
    match driven {
        Driven::Over(failed) => failed,
        _ => panic!("the member has an outcome"),
    }
}

fn item<T, E>(index: usize, item: Result<T, E>) -> MultiplexedEvent<T, E> {
    MultiplexedEvent::Produced(BatchStreamEvent::Item { index, item })
}

fn finished<T, E>(index: usize, outcome: Result<(), E>) -> MultiplexedEvent<T, E> {
    MultiplexedEvent::Produced(BatchStreamEvent::Finished { index, outcome })
}

#[test]
fn event_distinguishes_recoverable_item_from_terminal_outcome() {
    let item = BatchStreamEvent::<u32, Infallible>::Item { index: 2, item: Ok(3) };
    let terminal = BatchStreamEvent::<u32, Infallible>::Finished { index: 2, outcome: Ok(()) };

    assert!(matches!(item, BatchStreamEvent::Item { index: 2, .. }));
    assert!(matches!(terminal, BatchStreamEvent::Finished { index: 2, .. }));
}

#[test]
fn first_terminal_claim_preserves_items_and_result() {
    let (mut consumer, delivery) = member::<u8, Infallible>(2);
    let mut context = StreamBatchContext::new(vec![delivery]);

    assert!(context.members()[0].try_send(Ok(1)).is_ok());
    assert!(context.members()[0].try_send(Ok(2)).is_ok());
    context.members()[0].finish(Ok(()));
    context.fail_unfinished(Error::incomplete_stream_batch());

    assert!(!context.activity().is_open(0));
    assert!(!context.has_failure());
    assert!(consumer.result().is_ok());
    assert!(matches!(consumer.next(), Some(Ok(1))));
    assert!(matches!(consumer.next(), Some(Ok(2))));
    assert!(consumer.next().is_none());
}

#[test]
fn full_attempt_returns_undelivered_item() {
    let (consumer, delivery) = member::<u8, Infallible>(1);
    let mut member = StreamBatchContext::new(vec![delivery]).into_members().pop().unwrap();

    assert!(member.try_send(Ok(1)).is_ok());
    assert!(matches!(member.try_send(Ok(2)), Err(MemberSendError::Full(Ok(2)))));

    drop(consumer);
    member.receiver_dropped();
    assert!(matches!(member.try_send(Ok(3)), Err(MemberSendError::Closed(Ok(3)))));
}

#[test]
fn split_receiver_drop_closes_only_its_member() {
    let (mut first, first_delivery) = member::<u8, Infallible>(1);
    let (mut second, second_delivery) = member::<u8, Infallible>(1);
    let mut context = StreamBatchContext::new(vec![first_delivery, second_delivery]);
    let mut closures = context.activity().closures();

    first.items.close();
    context.members()[0].receiver_dropped();

    assert_eq!(context.activity().len(), 2);
    assert!(!context.activity().is_empty());
    block_on(closures[0].take().unwrap());
    assert!(context.activity().closed(0).is_none());
    assert!(context.activity().closed(1).is_some());
    assert!(context.activity().closed(2).is_none());
    assert!(!context.activity().is_open(0));
    assert!(context.activity().is_open(1));
    assert!(!context.activity().is_open(usize::MAX));
    assert!(matches!(first.result(), Err(Error::ConsumerCancelled)));

    context.members()[1].finish(Ok(()));
    context.fail_unfinished(Error::incomplete_stream_batch());
    assert!(second.result().is_ok());
}

#[test]
fn tracker_settles_unfinished_member() {
    let (mut consumer, delivery) = member::<u8, Infallible>(1);
    let mut context = StreamBatchContext::new(vec![delivery]);

    context.fail_unfinished(Error::incomplete_stream_batch());

    assert!(context.has_failure());
    assert!(matches!(consumer.result(), Err(Error::IncompleteStreamBatch)));
}

#[test]
fn hot_producer_yields_after_bounded_work_and_prioritizes_departure() {
    let (consumer, delivery) = member::<u8, Infallible>(1);
    let mut members = StreamBatchContext::new(vec![delivery]).into_members();
    let mut run = MultiplexedRun::new(members.len());
    let mut count = 0;

    loop {
        match run.next() {
            MultiplexedAction::Wait => {
                run.step(&mut members, item(usize::MAX, Ok(1)));
                count += 1;
            }
            action => {
                assert_eq!(action, MultiplexedAction::Yield);
                break;
            }
        }
    }
    assert_eq!(count, 64);

    drop(consumer);
    members[0].receiver_dropped();
    assert_eq!(run.next(), MultiplexedAction::Wait);
    run.step(&mut members, MultiplexedEvent::Departed(0));

    assert_eq!(run.next(), MultiplexedAction::Conclude);
    assert!(matches!(Multiplexed::conclude(&members), JobStatus::Failed));
    assert_eq!(count, 64);
}

#[test]
fn multiplexed_item_error_is_recoverable_and_finished_is_terminal() {
    let (mut first, first_delivery) = member::<u8, io::Error>(4);
    let (mut second, second_delivery) = member::<u8, io::Error>(4);
    let mut members =
        StreamBatchContext::new(vec![first_delivery, second_delivery]).into_members();

    let status = Multiplexed::run(
        &mut members,
        VecDeque::from(vec![
            item(0, Err(io::Error::other("recoverable"))),
            item(0, Ok(1)),
            finished(0, Ok(())),
            MultiplexedEvent::Departed(0),
            item(0, Ok(9)),
            item(99, Ok(9)),
            item(1, Ok(2)),
            finished(1, Err(io::Error::other("terminal"))),
            MultiplexedEvent::Departed(1),
        ]),
    );

    assert!(matches!(status, JobStatus::Failed));
    assert!(matches!(
        first.next(),
        Some(Err(Error::TaskExecution { message, .. })) if message == "recoverable"
    ));
    assert!(matches!(first.next(), Some(Ok(1))));
    assert!(first.next().is_none());
    assert!(first.result().is_ok());
    assert!(matches!(second.next(), Some(Ok(2))));
    assert!(second.next().is_none());
    assert!(matches!(
        second.result(),
        Err(Error::TaskExecution { message, .. }) if message == "terminal"
    ));
}

#[test]
fn multiplexed_lag_is_member_local_and_preserves_accepted_items() {
    let (mut lagging, lagging_delivery) = member::<u8, Infallible>(1);
    let (mut healthy, healthy_delivery) = member::<u8, Infallible>(2);
    let mut members =
        StreamBatchContext::new(vec![lagging_delivery, healthy_delivery]).into_members();

    let status = Multiplexed::run(
        &mut members,
        VecDeque::from(vec![
            item(0, Ok(1)),
            item(0, Ok(2)),
            MultiplexedEvent::Departed(0),
            item(1, Ok(3)),
            finished(1, Ok(())),
            MultiplexedEvent::Departed(1),
        ]),
    );

    assert!(matches!(status, JobStatus::Failed));
    assert!(matches!(lagging.result(), Err(Error::ConsumerLag)));
    assert!(matches!(lagging.next(), Some(Ok(1))));
    assert!(lagging.next().is_none());
    assert!(matches!(healthy.next(), Some(Ok(3))));
    assert!(healthy.result().is_ok());
}

#[test]
fn multiplexed_item_for_a_lost_receiver_cancels_its_member() {
    let (consumer, delivery) = member::<u8, Infallible>(1);
    let mut members = StreamBatchContext::new(vec![delivery]).into_members();
    let Consumer { items, result } = consumer;
    drop(items);

    let status = Multiplexed::run(
        &mut members,
        VecDeque::from(vec![item(0, Ok(1)), MultiplexedEvent::Departed(0)]),
    );

    assert!(matches!(status, JobStatus::Failed));
    let mut result = result;
    match result.result() {
        Awaited::Wait(receiver) => {
            assert!(matches!(
                JobFuture::received(block_on(receiver)),
                Err(Error::ConsumerCancelled)
            ));
        }
        Awaited::Ready(_) => panic!("the outcome comes through the channel"),
    }
}

#[test]
fn exhausted_producer_completes_members_and_empty_batches_complete() {
    let (mut consumer, delivery) = member::<u8, Infallible>(2);
    let mut members = StreamBatchContext::new(vec![delivery]).into_members();
    let status = Multiplexed::run(
        &mut members,
        VecDeque::from(vec![item(0, Ok(1)), MultiplexedEvent::Exhausted, item(0, Ok(2))]),
    );

    assert!(matches!(status, JobStatus::Completed));
    assert!(matches!(consumer.next(), Some(Ok(1))));
    assert!(consumer.next().is_none());
    assert!(consumer.result().is_ok());

    let mut nobody: Vec<StreamBatchMember<u8, Infallible>> = Vec::new();
    assert!(matches!(
        Multiplexed::run(&mut nobody, VecDeque::from(vec![item(0, Ok(1))])),
        JobStatus::Completed
    ));
    assert!(matches!(IndependentRun::new(0).status(), Some(JobStatus::Completed)));
}

#[test]
fn final_departure_drops_pending_multiplexed_producer() {
    let (consumer, delivery) = member::<u8, Infallible>(1);
    let mut members = StreamBatchContext::new(vec![delivery]).into_members();
    let mut run = MultiplexedRun::new(members.len());

    assert_eq!(run.next(), MultiplexedAction::Wait);
    drop(consumer);
    members[0].receiver_dropped();
    run.step(&mut members, MultiplexedEvent::Departed(0));

    assert_eq!(run.next(), MultiplexedAction::Conclude);
    assert!(matches!(Multiplexed::conclude(&members), JobStatus::Failed));
}

#[test]
fn independent_poll_panic_is_member_local() {
    let (mut first, first_delivery) = member::<u8, Infallible>(1);
    let (mut second, second_delivery) = member::<u8, Infallible>(1);
    let mut members =
        StreamBatchContext::new(vec![first_delivery, second_delivery]).into_members();
    let mut run = IndependentRun::new(members.len());
    assert!(run.prepared(Attempt::<(), Infallible>::Returned(Ok(())), 2).is_ok());

    let failed = Independent::run_member(
        &mut members[0],
        None,
        VecDeque::from(vec![StreamPoll::Panicked(PanicPayload::Literal("member poll"))]),
    );
    run.member_done(over(failed));
    assert!(run.status().is_none());
    let failed = Independent::run_member(
        &mut members[1],
        None,
        VecDeque::from(vec![StreamPoll::Item(Ok(7)), StreamPoll::End]),
    );
    run.member_done(over(failed));

    assert!(matches!(run.status(), Some(JobStatus::Failed)));
    assert!(matches!(first.result(), Err(Error::TaskPanic(text)) if text == "member poll"));
    assert!(matches!(second.next(), Some(Ok(7))));
    assert!(second.result().is_ok());
}

#[test]
fn independent_backpressure_does_not_block_sibling_completion() {
    let (blocked, blocked_delivery) = member::<u8, Infallible>(1);
    let (mut healthy, healthy_delivery) = member::<u8, Infallible>(1);
    let mut members =
        StreamBatchContext::new(vec![blocked_delivery, healthy_delivery]).into_members();
    let mut run = IndependentRun::new(members.len());
    let mut calls = 0;
    while run.is_preparing() {
        calls += 1;
        assert!(run.prepared(Attempt::<(), Infallible>::Returned(Ok(())), 2).is_ok());
    }

    let waiting = Independent::run_member(
        &mut members[0],
        None,
        VecDeque::from(vec![StreamPoll::Item(Ok(0)), StreamPoll::Item(Ok(1)), StreamPoll::End]),
    );
    let item = match waiting {
        Driven::Blocked { item, polls } => {
            assert!(matches!(item, Ok(1)));
            assert_eq!(polls.len(), 1);
            item
        }
        _ => panic!("the channel is full"),
    };
    assert!(!members[0].failed());
    assert!(matches!(members[0].send(item), Ok(Sent::Wait(Ok(1)))));

    let failed = Independent::run_member(
        &mut members[1],
        None,
        VecDeque::from(vec![StreamPoll::Item(Ok(0)), StreamPoll::End]),
    );
    run.member_done(over(failed));
    assert!(healthy.result().is_ok());
    assert_eq!(calls, 1);
    assert!(run.status().is_none());

    drop(blocked);
    members[0].receiver_dropped();
    let sent = members[0].send(Ok(1));
    assert!(matches!(sent, Err(Error::ConsumerCancelled)));
    match members[0].sent(sent) {
        MemberStep::Done(failed) => run.member_done(failed),
        _ => panic!("the consumer is gone"),
    }
    assert!(matches!(run.status(), Some(JobStatus::Failed)));
}

#[test]
fn slow_consumer_gets_every_item() {
    let (mut consumer, delivery) = member::<u8, Infallible>(1);
    let mut members = StreamBatchContext::new(vec![delivery]).into_members();
    let polls = (0..5).map(|item| StreamPoll::Item(Ok(item))).chain([StreamPoll::End]).collect();
    let mut driven = Independent::run_member(&mut members[0], None, polls);
    let mut received = Vec::new();
    let failed = loop {
        driven = match driven {
            Driven::Over(failed) => break failed,
            Driven::Starved => panic!("the stream has ended"),
            Driven::Blocked { item, polls } => {
                received.push(consumer.next().unwrap().unwrap());
                let sent = members[0].send(item);
                assert!(matches!(sent, Ok(Sent::Done)));
                assert!(matches!(members[0].sent(sent), MemberStep::Poll));
                Independent::go_on(&mut members[0], polls)
            }
        };
    };
    assert!(!failed);
    while let Some(item) = consumer.next() {
        received.push(item.unwrap());
    }
    assert_eq!(received, vec![0, 1, 2, 3, 4]);
    assert!(consumer.result().is_ok());
    assert!(matches!(
        Independent::go_on(&mut members[0], VecDeque::new()),
        Driven::Over(false)
    ));
}

#[test]
fn independent_member_finishes_stream_after_consumer_closes() {
    let (mut consumer, delivery) = member::<u8, Infallible>(1);
    let mut members = StreamBatchContext::new(vec![delivery]).into_members();
    let mut run = IndependentRun::new(members.len());
    assert!(run.prepared(Attempt::<(), Infallible>::Returned(Ok(())), 1).is_ok());

    assert!(members[0].begin().is_none());
    match members[0].polled(StreamPoll::Item(Ok(7))) {
        MemberStep::Send(item) => assert!(matches!(members[0].send(item), Ok(Sent::Done))),
        _ => panic!("the stream goes on"),
    }
    assert!(matches!(consumer.next(), Some(Ok(7))));

    drop(consumer);
    members[0].receiver_dropped();
    match members[0].polled(StreamPoll::End) {
        MemberStep::Done(failed) => run.member_done(failed),
        _ => panic!("the stream is over"),
    }
    assert!(matches!(run.status(), Some(JobStatus::Failed)));
}

#[test]
fn independent_constructor_panic_is_member_local() {
    let (mut first, first_delivery) = member::<u8, Infallible>(1);
    let (mut second, second_delivery) = member::<u8, Infallible>(1);
    let mut members =
        StreamBatchContext::new(vec![first_delivery, second_delivery]).into_members();
    let mut run = IndependentRun::new(members.len());
    assert!(run.prepared(Attempt::<(), Infallible>::Returned(Ok(())), 2).is_ok());

    let failed = Independent::run_member(
        &mut members[0],
        Some(PanicPayload::Literal("member constructor")),
        VecDeque::new(),
    );
    run.member_done(over(failed));
    let failed = Independent::run_member(
        &mut members[1],
        None,
        VecDeque::from(vec![StreamPoll::Item(Ok(7)), StreamPoll::End]),
    );
    run.member_done(over(failed));

    assert!(matches!(run.status(), Some(JobStatus::Failed)));
    assert!(matches!(first.result(), Err(Error::TaskPanic(_))));
    assert!(matches!(second.next(), Some(Ok(7))));
    assert!(second.result().is_ok());
}

#[test]
fn independent_member_without_a_consumer_is_done_at_once() {
    let (mut consumer, delivery) = member::<u8, Infallible>(1);
    let mut members = StreamBatchContext::new(vec![delivery]).into_members();
    members[0].receiver_dropped();

    let failed = Independent::run_member(
        &mut members[0],
        None,
        VecDeque::from(vec![StreamPoll::Item(Ok(7)), StreamPoll::End]),
    );

    assert!(over(failed));
    assert!(consumer.next().is_none());
    assert!(matches!(consumer.result(), Err(Error::ConsumerCancelled)));
}

#[test]
fn shared_preparation_error_and_panic_fail_all_members() {
    for panic in [false, true] {
        let (mut first, first_delivery) = member::<u8, io::Error>(1);
        let (mut second, second_delivery) = member::<u8, io::Error>(1);
        let mut members =
            StreamBatchContext::new(vec![first_delivery, second_delivery]).into_members();
        let mut run = IndependentRun::new(members.len());

        let attempt: Attempt<(), io::Error> = if panic {
            Attempt::Panicked(PanicPayload::Literal("shared preparation"))
        } else {
            Attempt::Returned(Err(io::Error::other("shared preparation failed")))
        };
        match run.prepared(attempt, 2) {
            Err(error) => Independent::fail_all(&mut members, error),
            Ok(()) => panic!("the preparation failed"),
        }

        assert!(matches!(run.status(), Some(JobStatus::Failed)));
        if panic {
            assert!(matches!(first.result(), Err(Error::TaskPanic(_))));
            assert!(matches!(second.result(), Err(Error::TaskPanic(_))));
        } else {
            assert!(matches!(first.result(), Err(Error::TaskExecution { .. })));
            assert!(matches!(second.result(), Err(Error::TaskExecution { .. })));
        }
    }
}

#[test]
fn last_departure_cancels_pending_preparation() {
    let mut run = IndependentRun::new(1);
    assert!(run.status().is_none());
    run.departs(Some(0));
    assert!(matches!(run.status(), Some(JobStatus::Failed)));

    let mut run = IndependentRun::new(2);
    run.departs(Some(1));
    assert!(run.status().is_none());
    run.departs(Some(0));
    assert!(matches!(run.status(), Some(JobStatus::Failed)));

    let mut run = IndependentRun::new(2);
    run.departs(None);
    assert!(matches!(run.status(), Some(JobStatus::Failed)));
}

#[test]
fn independent_item_error_is_recoverable() {
    let (mut consumer, delivery) = member::<u8, io::Error>(2);
    let mut members = StreamBatchContext::new(vec![delivery]).into_members();
    let mut run = IndependentRun::new(members.len());
    assert!(run.prepared(Attempt::<(), io::Error>::Returned(Ok(())), 1).is_ok());

    let failed = Independent::run_member(
        &mut members[0],
        None,
        VecDeque::from(vec![
            StreamPoll::Item(Err(io::Error::other("recoverable"))),
            StreamPoll::Item(Ok(7)),
            StreamPoll::End,
        ]),
    );
    run.member_done(over(failed));

    assert!(matches!(run.status(), Some(JobStatus::Completed)));
    assert!(matches!(consumer.next(), Some(Err(Error::TaskExecution { .. }))));
    assert!(matches!(consumer.next(), Some(Ok(7))));
    assert!(consumer.next().is_none());
    assert!(consumer.result().is_ok());
}

#[test]
fn incomplete_external_mode_gets_explicit_terminal_error() {
    let (mut consumer, delivery) = member::<u8, Infallible>(16);
    let mut context = StreamBatchContext::new(vec![delivery]);
    let mut job = StreamBatchJob::new();
    assert_eq!(job.status(), JobStatus::Pending);

    job.begin();
    assert_eq!(job.status(), JobStatus::Running);
    job.end(&mut context, BatchRun::Ended(JobStatus::Completed));

    assert!(matches!(job.status(), JobStatus::Failed));
    assert!(matches!(consumer.result(), Err(Error::IncompleteStreamBatch)));
}

#[test]
fn panic_of_a_stream_batch_reaches_every_open_member() {
    let (mut first, first_delivery) = member::<u8, Infallible>(1);
    let (mut second, second_delivery) = member::<u8, Infallible>(1);
    let mut context = StreamBatchContext::new(vec![first_delivery, second_delivery]);
    context.members()[0].finish(Ok(()));
    let mut job = StreamBatchJob::new();

    job.begin();
    job.end(&mut context, BatchRun::Panicked(PanicPayload::Owned("producer".to_string())));

    assert_eq!(job.status(), JobStatus::Failed);
    assert!(first.result().is_ok());
    assert!(matches!(second.result(), Err(Error::TaskPanic(text)) if text == "producer"));
}
