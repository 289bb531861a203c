use std::collections::VecDeque;
use std::convert::Infallible;
use std::fmt;

use futures::executor::block_on;
use futures::{FutureExt, StreamExt};
use jobq::queue::error::Error as QueueError;
use jobq::{
    AnyExecutable, Attempt, Awaited, Dequeued, Driven, Enqueued, Error, Executable, FifoQueue,
    FnStreamTask, FnTask, Job, JobFuture, JobOptions, JobQueue, JobQueueBuilder, JobStatus, JobStep,
    JobStreamOptions, LifoQueue, PanicPayload, PriorityOptions, PriorityQueue, Sent, Single,
    StreamJob, StreamPoll, StreamStep, StreamTask, Task,
};

#[derive(Debug)]
struct RichError(u32);

impl fmt::Display for RichError {
    fn fmt(&self, f: &mut fmt::Formatter<'_>) -> fmt::Result {
        f.write_str(&format!("boom: {}", self.0))
    }
}

struct DoubleTask {
    n: u32,
}

impl Task for DoubleTask {
    type Output = u32;
    type Error = RichError;
}

struct CountStreamTask;

impl StreamTask for CountStreamTask {
    type Item = u32;
    type Error = RichError;
}

/// What can stand in a queue of these tests.
enum Work {
    Task(Job<DoubleTask>),
    Stream(StreamJob<CountStreamTask>),
}

impl From<Job<DoubleTask>> for Work {
    fn from(job: Job<DoubleTask>) -> Self {
        Work::Task(job)
    }
}

impl From<StreamJob<CountStreamTask>> for Work {
    fn from(job: StreamJob<CountStreamTask>) -> Self {
        Work::Stream(job)
    }
}

fn result_of<T>(future: &mut JobFuture<T, RichError>) -> Result<T, Error<RichError>> {
    match future.result() {
        Awaited::Ready(result) => result,
        Awaited::Wait(receiver) => JobFuture::received(block_on(receiver)),
    }
}

#[test]
fn job_panic_in_task_is_contained_and_fails_fast() {
    let (mut job, mut future) = Job::new(DoubleTask { n: 1 }, 3);

    let calls = job.execute(VecDeque::from(vec![
        Attempt::Panicked(PanicPayload::Literal("boom")),
        Attempt::Returned(Ok(2)),
    ]));

    assert_eq!(job.status(), JobStatus::Failed);
    assert_eq!(calls, 1);
    assert!(matches!(result_of(&mut future), Err(Error::TaskPanic(text)) if text == "boom"));
}

#[test]
fn job_healthy_task_still_completes() {
    let (mut job, mut future) = Job::new(DoubleTask { n: 21 }, 1);
    assert_eq!(job.status(), JobStatus::Pending);

    assert_eq!(job.begin(), JobStep::Attempt);
    assert_eq!(job.status(), JobStatus::Running);
    let output = job.task().n * 2;
    assert_eq!(job.attempted(Attempt::Returned(Ok(output))), JobStep::Done);

    assert_eq!(job.status(), JobStatus::Completed);
    assert_eq!(result_of(&mut future).unwrap(), 42);
}

#[test]
fn task_error_identity_is_preserved_through_job_execute() {
    let (mut job, mut future) = Job::new(DoubleTask { n: 0 }, 1);

    job.execute(VecDeque::from(vec![Attempt::Returned(Err(RichError(7)))]));

    match result_of(&mut future) {
        Err(Error::TaskExecution { source, message }) => {
            assert_eq!(source.0, 7);
            assert_eq!(message, "boom: 7");
        }
        _ => panic!("expected an error of the task"),
    }
}

#[test]
fn failed_runs_are_repeated_as_often_as_permitted() {
    let (mut job, mut future) = Job::new(DoubleTask { n: 1 }, 3);
    let tried = job.execute(VecDeque::from(vec![
        Attempt::Returned(Err(RichError(1))),
        Attempt::Returned(Err(RichError(2))),
        Attempt::Returned(Ok(5)),
        Attempt::Returned(Ok(6)),
    ]));
    assert_eq!(tried, 3);
    assert_eq!(job.status(), JobStatus::Completed);
    assert_eq!(result_of(&mut future).unwrap(), 5);

    let (mut job, mut future) = Job::new(DoubleTask { n: 1 }, 2);
    let tried = job.execute(VecDeque::from(vec![
        Attempt::Returned(Err(RichError(1))),
        Attempt::Returned(Err(RichError(2))),
        Attempt::Returned(Ok(5)),
    ]));
    assert_eq!(tried, 2);
    assert_eq!(job.status(), JobStatus::Failed);
    assert!(matches!(
        result_of(&mut future),
        Err(Error::TaskExecution { source, .. }) if source.0 == 2
    ));
}

#[test]
fn job_without_retries_is_run_once() {
    let (mut job, mut future) = Job::new(DoubleTask { n: 1 }, 0);
    let tried = job.execute(VecDeque::from(vec![
        Attempt::Returned(Ok(5)),
        Attempt::Returned(Ok(6)),
    ]));

    assert_eq!(tried, 1);
    assert_eq!(job.status(), JobStatus::Completed);
    assert_eq!(result_of(&mut future).unwrap(), 5);

    let (mut job, mut future) = Job::new(DoubleTask { n: 1 }, 0);
    let tried = job.execute(VecDeque::from(vec![
        Attempt::Returned(Err(RichError(1))),
        Attempt::Returned(Ok(5)),
    ]));

    assert_eq!(tried, 1);
    assert_eq!(job.status(), JobStatus::Failed);
    assert!(matches!(
        result_of(&mut future),
        Err(Error::TaskExecution { source, .. }) if source.0 == 1
    ));
}

#[test]
fn stream_items_arrive_live_on_shared_erased_queue() {
    let mut queue: JobQueue<FifoQueue<Work>> = JobQueue::new(FifoQueue::new(10));

    let (mut future, _) = queue.enqueue_job(JobOptions::new(DoubleTask { n: 21 })).unwrap();
    let (handle, _) = queue.enqueue_stream(JobStreamOptions::new(CountStreamTask)).unwrap();
    let (items, mut result) = handle.split();
    let mut items = items.into_receiver();

    for _ in 0..2 {
        match queue.dequeue_job::<RichError>().unwrap() {
            Dequeued::Item(Work::Task(mut job)) => {
                let output = job.task().n * 2;
                job.execute(VecDeque::from(vec![Attempt::Returned(Ok(output))]));
            }
            Dequeued::Item(Work::Stream(mut job)) => {
                assert!(matches!(
        job.execute(VecDeque::from(vec![StreamPoll::Item(Ok(1))])),
        Driven::Starved
    ));
                assert_eq!(block_on(items.next()).unwrap().unwrap(), 1);
                assert!(matches!(
        job.execute(VecDeque::from(vec![
                    StreamPoll::Item(Ok(2)),
                    StreamPoll::Item(Ok(3)),
                    StreamPoll::End,
                ])),
        Driven::Over(_)
    ));
                assert_eq!(job.status(), JobStatus::Completed);
            }
            _ => panic!("two jobs were enqueued"),
        }
    }

    assert_eq!(block_on(items.next()).unwrap().unwrap(), 2);
    assert_eq!(block_on(items.next()).unwrap().unwrap(), 3);
    assert!(block_on(items.next()).is_none());
    assert!(matches!(result_of(&mut result), Ok(())));
    assert_eq!(result_of(&mut future).unwrap(), 42);
}

struct ShoutTask {
    message: String,
}

impl Task for ShoutTask {
    type Output = String;
    type Error = RichError;
}

enum Mixed {
    Number(Job<DoubleTask>),
    Text(Job<ShoutTask>),
}

impl From<Job<DoubleTask>> for Mixed {
    fn from(job: Job<DoubleTask>) -> Self {
        Mixed::Number(job)
    }
}

impl From<Job<ShoutTask>> for Mixed {
    fn from(job: Job<ShoutTask>) -> Self {
        Mixed::Text(job)
    }
}

#[test]
fn heterogeneous_outputs_share_one_queue() {
    let mut queue: JobQueue<FifoQueue<Mixed>> = JobQueue::new(FifoQueue::new(10));

    let (mut number_future, _) = queue.enqueue_job(JobOptions::new(DoubleTask { n: 21 })).unwrap();
    let (mut string_future, _) = queue
        .enqueue_job(JobOptions::new(ShoutTask { message: "hello".to_string() }))
        .unwrap();

    for _ in 0..2 {
        match queue.dequeue_job::<RichError>().unwrap() {
            Dequeued::Item(Mixed::Number(mut job)) => {
                let output = job.task().n * 2;
                job.execute(VecDeque::from(vec![Attempt::Returned(Ok(output))]));
            }
            Dequeued::Item(Mixed::Text(mut job)) => {
                let output = format!("{}!", job.task().message);
                job.execute(VecDeque::from(vec![Attempt::Returned(Ok(output))]));
            }
            _ => panic!("two jobs were enqueued"),
        }
    }

    assert_eq!(result_of(&mut number_future).unwrap(), 42);
    assert_eq!(result_of(&mut string_future).unwrap(), "hello!");
}

#[test]
fn erased_task_error_identity_is_preserved() {
    let mut queue: JobQueue<FifoQueue<Work>> = JobQueue::new(FifoQueue::new(10));

    let (mut future, _) = queue.enqueue_job(JobOptions::new(DoubleTask { n: 0 })).unwrap();
    match queue.dequeue_job::<RichError>().unwrap() {
        Dequeued::Item(Work::Task(mut job)) => {
            job.execute(VecDeque::from(vec![Attempt::Returned(Err(RichError(7)))]));
        }
        _ => panic!("a job was enqueued"),
    }

    match result_of(&mut future) {
        Err(Error::TaskExecution { source, .. }) => assert_eq!(source.0, 7),
        _ => panic!("expected an error of the task"),
    }
}

#[test]
fn stream_item_is_not_produced_until_the_previous_one_is_consumed() {
    let (mut job, handle) = match StreamJob::new(CountStreamTask, 1) {
        Ok(made) => made,
        Err(_) => panic!("the capacity is supported"),
    };
    let (items, mut result) = handle.split();
    let mut items = items.into_receiver();
    let mut produced = 0;

    assert!(matches!(job.begin(), StreamStep::Poll));
    for index in 0..3 {
        assert_eq!(produced, index);
        assert!(items.next().now_or_never().is_none());

        let item = match job.polled(StreamPoll::Item(Ok(index))) {
            StreamStep::Send(item) => item,
            _ => panic!("an item is sent on"),
        };
        produced += 1;
        let sent = job.items().send(item);
        assert!(matches!(job.sent(sent), StreamStep::Poll));

        assert_eq!(block_on(items.next()).unwrap().unwrap(), index);
        assert_eq!(produced, index + 1);
    }
    match job.polled(StreamPoll::End) {
        StreamStep::Finish(outcome) => job.finish(outcome),
        _ => panic!("the stream is over"),
    }
    drop(job);

    assert!(block_on(items.next()).is_none());
    assert!(matches!(result_of(&mut result), Ok(())));
}

#[test]
fn stream_item_error_identity_is_preserved() {
    let (mut job, handle) = match StreamJob::new(CountStreamTask, 16) {
        Ok(made) => made,
        Err(_) => panic!("the capacity is supported"),
    };
    let (items, mut result) = handle.split();
    let mut items = items.into_receiver();

    assert!(matches!(
        job.execute(VecDeque::from(vec![
        StreamPoll::Item(Ok(1)),
        StreamPoll::Item(Err(RichError(7))),
        StreamPoll::End,
    ])),
        Driven::Over(_)
    ));
    drop(job);

    assert_eq!(block_on(items.next()).unwrap().unwrap(), 1);
    match block_on(items.next()).unwrap() {
        Err(Error::TaskExecution { source, .. }) => assert_eq!(source.0, 7),
        _ => panic!("expected an error of the task"),
    }
    assert!(block_on(items.next()).is_none());
    assert!(matches!(result_of(&mut result), Ok(())));
}

#[test]
fn stream_panic_surfaces_on_result_after_sent_items() {
    let (mut job, handle) = match StreamJob::new(CountStreamTask, 16) {
        Ok(made) => made,
        Err(_) => panic!("the capacity is supported"),
    };
    let (items, mut result) = handle.split();
    let mut items = items.into_receiver();

    assert!(matches!(
        job.execute(VecDeque::from(vec![
        StreamPoll::Item(Ok(1)),
        StreamPoll::Panicked(PanicPayload::Literal("boom")),
    ])),
        Driven::Over(_)
    ));
    assert_eq!(job.status(), JobStatus::Failed);
    drop(job);

    assert_eq!(block_on(items.next()).unwrap().unwrap(), 1);
    assert!(block_on(items.next()).is_none());
    assert!(matches!(result_of(&mut result), Err(Error::TaskPanic(_))));
}

#[test]
fn stream_waits_for_a_slow_consumer() {
    let (mut job, handle) = match StreamJob::new(CountStreamTask, 1) {
        Ok(made) => made,
        Err(_) => panic!("the capacity is supported"),
    };
    let (items, mut result) = handle.split();
    let mut items = items.into_receiver();
    let polls = (1..4).map(|item| StreamPoll::Item(Ok(item))).chain([StreamPoll::End]).collect();
    let mut driven = job.execute(polls);
    let mut received = Vec::new();
    let status = loop {
        driven = match driven {
            Driven::Over(status) => break status,
            Driven::Starved => panic!("the stream has ended"),
            Driven::Blocked { item, polls } => {
                assert_eq!(job.status(), JobStatus::Running);
                received.push(block_on(items.next()).unwrap().unwrap());
                let sent = job.items().send(item);
                assert!(matches!(job.sent(sent), StreamStep::Poll));
                job.execute(polls)
            }
        };
    };
    assert_eq!(status, JobStatus::Completed);
    drop(job);

    while let Some(item) = block_on(items.next()) {
        received.push(item.unwrap());
    }
    assert_eq!(received, vec![1, 2, 3]);
    assert!(matches!(result_of(&mut result), Ok(())));
}

#[test]
fn item_without_room_is_sent_again() {
    let (mut job, _handle) = match StreamJob::new(CountStreamTask, 1) {
        Ok(made) => made,
        Err(_) => panic!("the capacity is supported"),
    };
    job.begin();
    assert!(matches!(job.items().send(Ok(1)), Ok(Sent::Done)));
    let sent = job.items().send(Ok(2));
    assert!(matches!(job.sent(sent), StreamStep::Send(Ok(2))));
}

#[test]
fn stream_of_a_lost_consumer_completes() {
    let (mut job, handle) = match StreamJob::new(CountStreamTask, 16) {
        Ok(made) => made,
        Err(_) => panic!("the capacity is supported"),
    };
    let (items, mut result) = handle.split();
    drop(items);

    assert!(matches!(
        job.execute(VecDeque::from(vec![StreamPoll::Item(Ok(1)), StreamPoll::Item(Ok(2))])),
        Driven::Over(_)
    ));
    assert_eq!(job.status(), JobStatus::Completed);
    assert!(result_of(&mut result).is_ok());
}

#[test]
fn streams_without_room_are_not_enqueued() {
    let mut queue: JobQueue<FifoQueue<Work>> = JobQueue::new(FifoQueue::new(10));

    assert!(matches!(
        queue.enqueue_stream(JobStreamOptions::new(CountStreamTask).with_capacity(0)),
        Err(Error::InvalidStreamCapacity(0))
    ));
    assert_eq!(queue.len(), 0);
    assert!(queue.is_empty());
}

#[test]
fn closed_queue_refuses_jobs_and_hands_out_the_rest() {
    let mut queue: JobQueue<LifoQueue<Work>> =
        JobQueueBuilder::<LifoQueue<Work>>::default().lifo(10).build();

    assert!(queue.enqueue_job(JobOptions::new(DoubleTask { n: 1 })).is_ok());
    queue.close::<RichError>().unwrap();

    assert!(matches!(
        queue.enqueue_job(JobOptions::new(DoubleTask { n: 2 })),
        Err(Error::Queue(QueueError::Closed))
    ));
    assert!(matches!(
        queue.enqueue_stream(JobStreamOptions::new(CountStreamTask)),
        Err(Error::Queue(QueueError::Closed))
    ));
    assert!(!queue.is_empty());
    assert!(matches!(queue.dequeue_job::<RichError>(), Ok(Dequeued::Item(Work::Task(_)))));
    assert!(matches!(queue.dequeue_job::<RichError>(), Ok(Dequeued::Closed)));
}

#[test]
fn full_queue_keeps_the_next_job_waiting() {
    let mut queue: JobQueue<FifoQueue<Work>> =
        JobQueue::<FifoQueue<Work>>::builder().fifo(1).build();

    let (_, enqueued) = queue.enqueue_job(JobOptions::new(DoubleTask { n: 1 })).unwrap();
    assert!(matches!(enqueued, Enqueued::Done));
    let (_, enqueued) = queue.enqueue_job(JobOptions::new(DoubleTask { n: 2 })).unwrap();
    assert!(matches!(enqueued, Enqueued::Wait(_)));
    assert_eq!(queue.len(), 1);
}

#[test]
fn jobs_go_where_their_options_put_them() {
    let mut queue: JobQueue<PriorityQueue<Work>> =
        JobQueueBuilder::<PriorityQueue<Work>>::new().priority(10).build();

    for (n, priority) in [(1, 1), (2, 9), (3, 5)] {
        let options = JobOptions::new(DoubleTask { n })
            .with_max_retries(2)
            .with_queue_options(PriorityOptions { priority });
        assert!(queue.enqueue_job(options).is_ok());
    }
    let mut order = Vec::new();
    for _ in 0..3 {
        if let Ok(Dequeued::Item(Work::Task(job))) = queue.dequeue_job::<RichError>() {
            order.push(job.task().n);
        }
    }
    assert_eq!(order, vec![2, 3, 1]);
}

#[test]
fn options_hold_what_was_asked_for() {
    let options = JobOptions::<u8, PriorityQueue<Work>>::new(4);
    assert_eq!(options.max_retries, 1);
    assert!(options.queue_options.is_none());
    let (task, max_retries, queue_options) = options
        .with_max_retries(3)
        .with_queue_options(PriorityOptions { priority: 8 })
        .into_parts();
    assert_eq!((task, max_retries), (4, 3));
    assert!(matches!(queue_options, Some(PriorityOptions { priority: 8 })));

    let options = JobStreamOptions::<u8, PriorityQueue<Work>>::new(4);
    assert_eq!(options.capacity, 16);
    let (task, capacity, queue_options) = options
        .with_capacity(2)
        .with_queue_options(PriorityOptions { priority: 8 })
        .into_parts();
    assert_eq!((task, capacity), (4, 2));
    assert!(matches!(queue_options, Some(PriorityOptions { priority: 8 })));
}

#[test]
fn executables_tell_their_status_whatever_their_type() {
    let (job, _future) = Job::new(DoubleTask { n: 1 }, 1);
    let mut any = AnyExecutable::new(job);
    assert_eq!(any.status(), JobStatus::Pending);
    any.as_inner_mut().begin();
    assert_eq!(any.as_inner().status(), JobStatus::Running);
    assert_eq!(any.into_inner().status(), JobStatus::Running);

    let (job, _future) = Job::new(DoubleTask { n: 1 }, 1);
    let (stream, _handle) = match StreamJob::new(CountStreamTask, 1) {
        Ok(made) => made,
        Err(_) => panic!("the capacity is supported"),
    };
    let erased: Vec<AnyExecutable> =
        vec![AnyExecutable::from_box(Box::new(job)), AnyExecutable::from_box(Box::new(stream))];
    assert!(erased.iter().all(|any| any.status() == JobStatus::Pending));
}

#[test]
fn closures_are_kept_by_their_tasks() {
    let task: FnTask<_, u32> = FnTask::new(|| 21 * 2);
    assert_eq!(task.execute(), 42);
    let stream: FnStreamTask<_, u32> = FnStreamTask::new(|| 7);
    assert_eq!(stream.execute(), 7);
}

#[test]
fn single_tasks_report_their_only_result() {
    let single = Single::new(DoubleTask { n: 2 });
    assert_eq!(single.task().n, 2);
    let results = single.execute(Ok(4)).unwrap();
    assert!(matches!(results.as_slice(), [Ok(4)]));
    let results = single.execute(Err(RichError(3))).unwrap();
    assert!(matches!(results.as_slice(), [Err(Error::TaskExecution { source, .. })] if source.0 == 3));

    let stream = Single::new(CountStreamTask);
    assert!(matches!(stream.item(Ok(5)), (0, Ok(5))));
}

#[test]
fn results_of_infallible_tasks_are_values() {
    let (future, mut setter) = JobFuture::<u8, Infallible>::new();
    setter.set_result(Ok(3));
    let mut future = future;
    assert!(matches!(future.result(), Awaited::Wait(_)));
    assert!(matches!(future.result(), Awaited::Ready(Err(Error::FutureClosed))));
}
