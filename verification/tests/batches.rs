use std::convert::Infallible;
use std::io;
use std::sync::Arc;
use std::time::Duration;

use futures::executor::block_on;
use futures::{FutureExt, StreamExt};
use jobq::batch::window::AdmissionState;
use jobq::queue::error::Error as QueueError;
use jobq::{
    Attempt, Awaited, BatchJob, BatchPolicy, BatchStep, BatchStreamEvent, BatchStreamTask,
    BatchTask, Batched, Batcher, BatcherBuilder, Error, FifoQueue, JobDelivery, JobFuture,
    JobOptions, JobQueue, JobStatus, JobStreamOptions, Joined, PanicPayload, PriorityOptions,
    PriorityQueue, Queue, Readiness, Sent, StreamBatchExecutor, StreamBatchMode, StreamBatcher,
    StreamBatcherBuilder, StreamDelivery, Window, WindowAdmission, WindowSlot,
};

struct DoubleBatch;

impl BatchTask for DoubleBatch {
    type Input = u32;
    type Output = u32;
    type Error = io::Error;
}

impl BatchStreamTask for DoubleBatch {
    type Input = u32;
    type Item = u32;
    type Error = io::Error;
}

type Jobs = FifoQueue<u64>;

fn result_of<T, S>(future: &mut JobFuture<T, S>) -> Result<T, Error<S>> {
    match future.result() {
        Awaited::Ready(result) => result,
        Awaited::Wait(receiver) => JobFuture::received(block_on(receiver)),
    }
}

/// A slot for inputs without an executor.
fn slot<O>() -> WindowSlot<(), usize, usize, O> {
    WindowSlot::new()
}

fn offer<O: Clone + PartialEq>(
    slot: &mut WindowSlot<(), usize, usize, O>,
    max_size: usize,
    options: Option<O>,
    member: (usize, usize),
    awaited: bool,
) -> Joined<O> {
    let policy = BatchPolicy { max_size, max_wait: Duration::ZERO };
    slot.join(&Arc::new(()), policy, options, member.0, member.1, awaited)
}

/// The number of the window that was opened.
fn opened<O>(joined: Joined<O>) -> u64 {
    match joined {
        Joined::Opened { window, .. } => window,
        Joined::Existing { .. } => panic!("the input opens a window"),
    }
}

/// The number of the window that was joined, and whether the queue has not answered.
fn existing<O>(joined: Joined<O>) -> (u64, bool) {
    match joined {
        Joined::Existing { window, pending } => (window, pending),
        Joined::Opened { .. } => panic!("a join must not submit again"),
    }
}

fn gathered<O>(slot: &mut WindowSlot<(), usize, usize, O>, window: u64) -> (Vec<usize>, Vec<usize>) {
    let (_, inputs, deliveries) = slot.seal(window).unwrap();
    (inputs, deliveries)
}

#[test]
fn pending_joiners_share_one_admission_and_aligned_window() {
    let mut slot = slot::<()>();
    let first = opened(offer(&mut slot, 3, None, (10, 100), false));
    let second = existing(offer(&mut slot, 3, None, (20, 200), true));

    assert_eq!(second, (first, true));
    assert_eq!(gathered(&mut slot, first), (vec![10, 20], vec![100, 200]));

    slot.answered(first, true);
    assert!(slot.window(first).is_none());
}

#[test]
fn one_waiter_cancel_does_not_cancel_sibling() {
    let mut slot = slot::<()>();
    let first = opened(offer(&mut slot, 3, None, (1, 10), false));
    assert_eq!(existing(offer(&mut slot, 3, None, (2, 20), true)), (first, true));

    slot.answered(first, true);
    assert_eq!(existing(offer(&mut slot, 3, None, (3, 30), false)), (first, false));
    assert_eq!(gathered(&mut slot, first), (vec![1, 2, 3], vec![10, 20, 30]));
}

#[test]
fn final_waiter_drop_abandons_pending_entry() {
    let mut slot = slot::<()>();
    let first = opened(offer(&mut slot, 3, None, (1, 10), false));
    assert_eq!(existing(offer(&mut slot, 3, None, (2, 20), true)), (first, true));

    slot.abandon(first);

    let second = opened(offer(&mut slot, 3, None, (3, 30), false));
    assert_ne!(first, second);
    slot.answered(second, true);
}

#[test]
fn window_that_nobody_waits_for_is_sealed_and_replaced() {
    let mut slot = slot::<()>();
    let first = opened(offer(&mut slot, 3, None, (1, 10), false));
    let second = opened(offer(&mut slot, 3, None, (2, 20), false));

    assert_ne!(first, second);
    assert!(slot.window(first).unwrap().is_sealed());
    assert!(!slot.window(second).unwrap().is_sealed());
    assert_eq!(gathered(&mut slot, first), (vec![1], vec![10]));
}

#[test]
fn accepted_window_needs_no_completed_admission() {
    let mut slot = slot::<()>();
    let first = opened(offer(&mut slot, 3, None, (1, 10), false));
    slot.accept(first);
    slot.abandon(first);

    assert_eq!(existing(offer(&mut slot, 3, None, (2, 20), false)), (first, false));
}

#[test]
fn rejection_reaches_all_waiters_without_evicting_replacement() {
    let mut slot = slot::<u8>();
    let first = opened(offer(&mut slot, 3, Some(1), (1, 10), false));
    assert_eq!(existing(offer(&mut slot, 3, Some(1), (2, 20), true)), (first, true));
    let replacement = match offer(&mut slot, 3, Some(2), (3, 30), true) {
        Joined::Opened { window, options } => {
            assert_eq!(options, Some(2));
            window
        }
        Joined::Existing { .. } => panic!("other options open another window"),
    };

    let mut admission: WindowAdmission<Infallible> = WindowAdmission::new();
    let mut replaced: WindowAdmission<Infallible> = WindowAdmission::new();
    assert!(admission.wait().is_none());

    let answer = Err(Error::queue(QueueError::closed()));
    slot.answered(first, answer.is_ok());
    admission.answer(answer);
    admission.answer(Ok(()));

    let (first, second) = (&admission, &admission);
    assert!(matches!(first.wait(), Some(Err(Error::Queue(_)))));
    assert!(matches!(second.wait(), Some(Err(Error::Queue(_)))));
    assert_eq!(existing(offer(&mut slot, 3, Some(2), (4, 40), true)), (replacement, true));
    slot.answered(replacement, true);
    replaced.answer(Ok(()));
    assert!(matches!(replaced.wait(), Some(Ok(()))));
    assert_eq!(existing(offer(&mut slot, 3, Some(2), (5, 50), true)), (replacement, false));
}

#[test]
fn full_window_keeps_admission_after_replacement() {
    let mut slot = slot::<()>();
    let first = opened(offer(&mut slot, 2, None, (1, 10), false));
    let second = existing(offer(&mut slot, 2, None, (2, 20), true));
    let third = opened(offer(&mut slot, 2, None, (3, 30), true));

    assert_eq!(first, second.0);
    assert_ne!(first, third);
    slot.evict(first);
    assert_eq!(existing(offer(&mut slot, 2, None, (4, 40), true)), (third, true));
}

#[test]
fn rejected_open_window_is_joined_by_none() {
    let mut slot = slot::<()>();
    let first = opened(offer(&mut slot, 3, None, (1, 10), false));
    slot.evict(first);
    assert_ne!(opened(offer(&mut slot, 3, None, (2, 20), true)), first);
}

#[test]
fn window_waits_for_the_rest_of_its_time_unless_it_is_sealed() {
    let policy = BatchPolicy { max_size: 2, max_wait: Duration::from_millis(20) };
    let mut window: Window<(), u8, u8> = Window::new(Arc::new(()), policy, 1, 10);

    assert!(!window.is_sealed());
    assert!(matches!(window.ready(Duration::from_millis(20)), Readiness::Now));
    let mut sealed = match window.ready(Duration::from_millis(5)) {
        Readiness::Wait { sealed, remaining } => {
            assert_eq!(remaining, Duration::from_millis(15));
            sealed
        }
        Readiness::Now => panic!("the window has room and time"),
    };
    assert!((&mut sealed).now_or_never().is_none());

    assert!(matches!(window.push(2, 20), Ok(true)));
    block_on(sealed);
    assert!(matches!(window.ready(Duration::ZERO), Readiness::Now));
    assert!(matches!(window.push(3, 30), Err((3, 30))));
    assert_eq!(window.seal(), (vec![1, 2], vec![10, 20]));
}

#[test]
fn sealed_window_hands_out_its_members_once() {
    let policy = BatchPolicy { max_size: 9, max_wait: Duration::from_millis(20) };
    let mut window: Window<(), u8, u8> = Window::new(Arc::new(()), policy, 1, 10);
    assert!(matches!(window.push(2, 20), Ok(false)));
    assert!(matches!(window.push(3, 30), Ok(false)));

    assert_eq!(window.seal(), (vec![1, 2, 3], vec![10, 20, 30]));
    assert!(window.is_sealed());
    assert!(matches!(window.push(4, 40), Err((4, 40))));
    assert_eq!(window.seal(), (vec![], vec![]));
}

#[test]
fn closing_a_window_wakes_those_who_wait() {
    let policy = BatchPolicy { max_size: 9, max_wait: Duration::from_millis(20) };
    let mut window: Window<u8, u8, u8> = Window::new(Arc::new(7), policy, 1, 10);
    assert_eq!(**window.executor(), 7);
    let sealed = match window.ready(Duration::ZERO) {
        Readiness::Wait { sealed, .. } => sealed,
        Readiness::Now => panic!("the window has room and time"),
    };
    window.close();
    block_on(sealed);
    assert!(window.is_sealed());
}

#[test]
fn default_policy_is_one_input_and_no_wait() {
    let policy = BatchPolicy::default();
    assert_eq!(policy.max_size, 1);
    assert_eq!(policy.max_wait, Duration::ZERO);
    assert!(AdmissionState::Pending != AdmissionState::Accepted);
}

/// Runs the job of a window by doubling its inputs, and gives the inputs of each run.
fn double<Q: Queue>(batcher: &mut Batcher<DoubleBatch, Q, ()>, window: u64) -> Vec<Vec<u32>>
where
    Q::Options: Clone + PartialEq,
{
    let (executor, mut job) = batcher.take_job(window).unwrap();
    let mut calls = Vec::new();
    let mut step = job.begin();
    while step == BatchStep::Run {
        calls.push(job.inputs().clone());
        let returned = Ok(job.inputs().iter().map(|input| Ok(input * 2)).collect());
        step = job.settle(Attempt::Returned(executor.execute(returned)));
    }
    assert_eq!(job.status(), JobStatus::Completed);
    calls
}

#[test]
fn builder_defaults_to_single_member_windows() {
    let mut batcher: Batcher<DoubleBatch, Jobs, ()> =
        BatcherBuilder::new((), DoubleBatch).build();
    let (mut result, joined) = batcher.enqueue(JobOptions::new(4), false);
    let window = opened(joined);
    batcher.answered(window, true);

    let calls = double(&mut batcher, window);

    assert_eq!(result_of(&mut result).unwrap(), 8);
    assert_eq!(calls, vec![vec![4]]);
}

#[test]
fn batch_invokes_executor_once_with_every_input() {
    let mut batcher: Batcher<DoubleBatch, Jobs, ()> = BatcherBuilder::new((), DoubleBatch)
        .policy(BatchPolicy { max_size: 3, max_wait: Duration::from_secs(60) })
        .build();
    let mut futures = Vec::new();
    let mut windows = Vec::new();

    for input in [1, 2, 3] {
        let (future, joined) = batcher.enqueue(JobOptions::new(input), true);
        futures.push(future);
        if let Joined::Opened { window, .. } = joined {
            windows.push(window);
            batcher.answered(window, true);
        }
    }
    assert_eq!(windows.len(), 1);
    assert!(matches!(batcher.ready(windows[0], Duration::ZERO), Readiness::Now));

    let calls = double(&mut batcher, windows[0]);

    for (input, future) in [1, 2, 3].into_iter().zip(futures.iter_mut()) {
        assert_eq!(result_of(future).unwrap(), input * 2);
    }
    assert_eq!(calls, vec![vec![1, 2, 3]]);
}

#[test]
fn max_size_seals_and_max_wait_releases_partial_window() {
    let mut batcher: Batcher<DoubleBatch, Jobs, ()> = BatcherBuilder::new((), DoubleBatch)
        .policy(BatchPolicy { max_size: 2, max_wait: Duration::from_millis(20) })
        .build();
    let mut windows = Vec::new();
    let mut futures = Vec::new();
    for input in [1, 2, 3] {
        let (future, joined) = batcher.enqueue(JobOptions::new(input), true);
        futures.push(future);
        if let Joined::Opened { window, .. } = joined {
            windows.push(window);
            batcher.answered(window, true);
        }
    }

    assert!(matches!(batcher.ready(windows[0], Duration::ZERO), Readiness::Now));
    assert!(matches!(
        batcher.ready(windows[1], Duration::from_millis(19)),
        Readiness::Wait { remaining, .. } if remaining == Duration::from_millis(1)
    ));
    assert!(matches!(batcher.ready(windows[1], Duration::from_millis(20)), Readiness::Now));
    let mut calls = double(&mut batcher, windows[0]);
    calls.extend(double(&mut batcher, windows[1]));
    let results: Vec<u32> =
        futures.iter_mut().map(|future| result_of(future).unwrap()).collect();
    assert_eq!(results, vec![2, 4, 6]);
    assert_eq!(calls, vec![vec![1, 2], vec![3]]);
}

#[test]
fn queue_options_partition_windows() {
    let mut batcher: Batcher<DoubleBatch, PriorityQueue<u64>, ()> =
        BatcherBuilder::new((), DoubleBatch)
            .policy(BatchPolicy { max_size: 2, max_wait: Duration::from_secs(60) })
            .build();
    let mut windows = Vec::new();
    let mut futures = Vec::new();
    for (input, priority) in [(1, 1), (2, 9), (3, 9)] {
        let options = JobOptions::new(input).with_queue_options(PriorityOptions { priority });
        let (future, joined) = batcher.enqueue(options, true);
        futures.push(future);
        if let Joined::Opened { window, options } = joined {
            windows.push(window);
            assert!(options == Some(PriorityOptions { priority }));
            batcher.answered(window, true);
        }
    }

    let mut calls: Vec<Vec<u32>> =
        windows.into_iter().flat_map(|window| double(&mut batcher, window)).collect();
    let results: Vec<u32> =
        futures.iter_mut().map(|future| result_of(future).unwrap()).collect();
    assert_eq!(results, vec![2, 4, 6]);
    calls.sort();
    assert_eq!(calls, vec![vec![1], vec![2, 3]]);
}

#[test]
fn member_after_seal_opens_new_window() {
    let mut batcher: Batcher<DoubleBatch, Jobs, ()> = BatcherBuilder::new((), DoubleBatch)
        .policy(BatchPolicy { max_size: 10, max_wait: Duration::from_millis(20) })
        .build();
    let mut calls = Vec::new();

    for input in [1, 2] {
        let (mut future, joined) = batcher.enqueue(JobOptions::new(input), true);
        let window = opened(joined);
        batcher.answered(window, true);
        calls.extend(double(&mut batcher, window));
        assert_eq!(result_of(&mut future).unwrap(), input * 2);
    }

    assert_eq!(calls, vec![vec![1], vec![2]]);
}

#[test]
fn cancelled_opener_does_not_cancel_joiner() {
    let mut batcher: Batcher<DoubleBatch, Jobs, ()> = BatcherBuilder::new((), DoubleBatch)
        .policy(BatchPolicy { max_size: 2, max_wait: Duration::ZERO })
        .build();
    let (first, joined) = batcher.enqueue(JobOptions::new(1), false);
    let window = opened(joined);
    let (mut second, joined) = batcher.enqueue(JobOptions::new(2), true);
    assert_eq!(existing(joined), (window, true));

    drop(first);
    batcher.answered(window, true);

    assert_eq!(double(&mut batcher, window), vec![vec![1, 2]]);
    assert_eq!(result_of(&mut second).unwrap(), 4);
}

#[test]
fn queue_rejection_reaches_both_pending_callers_directly() {
    let mut jobs: JobQueue<Jobs> = JobQueue::new(FifoQueue::new(10));
    jobs.close::<io::Error>().unwrap();
    let mut batcher: Batcher<DoubleBatch, Jobs, ()> = BatcherBuilder::new((), DoubleBatch)
        .policy(BatchPolicy { max_size: 2, max_wait: Duration::ZERO })
        .build();
    let mut admission = WindowAdmission::new();
    let (_, joined) = batcher.enqueue(JobOptions::new(1), false);
    let window = opened(joined);
    let (_, joined) = batcher.enqueue(JobOptions::new(2), true);
    assert_eq!(existing(joined), (window, true));

    let (first, second) = (&admission, &admission);
    assert!(first.wait().is_none());
    assert!(second.wait().is_none());

    let answer = jobs.enqueue::<io::Error>(window, None).map(|_| ());
    batcher.answered(window, answer.is_ok());
    admission.answer(answer);

    let (first, second) = (&admission, &admission);
    assert!(matches!(first.wait(), Some(Err(Error::Queue(_)))));
    assert!(matches!(second.wait(), Some(Err(Error::Queue(_)))));

    let (_third, joined) = batcher.enqueue(JobOptions::new(3), true);
    assert_ne!(opened(joined), window);
}

#[test]
fn abandoned_batch_leaves_its_futures_closed() {
    let mut batcher: Batcher<DoubleBatch, Jobs, u8> =
        Batcher::new(7, DoubleBatch, BatchPolicy { max_size: 2, max_wait: Duration::ZERO });
    assert_eq!(*batcher.queue(), 7);
    let (mut future, joined) = batcher.enqueue(JobOptions::new(1), false);
    let window = opened(joined);
    batcher.abandoned(window);
    drop(batcher.take_job(window));

    assert!(batcher.take_job(window).is_none());
    assert!(matches!(result_of(&mut future), Err(Error::FutureClosed)));
}

/// A batch job for inputs with these numbers of permitted runs, and the futures of its inputs.
fn batch(
    retries: Vec<usize>,
) -> (BatchJob<usize, u32, io::Error>, Vec<JobFuture<u32, io::Error>>) {
    let mut futures = Vec::new();
    let mut deliveries = Vec::new();
    for max_retries in &retries {
        let (future, setter) = JobFuture::new();
        futures.push(future);
        deliveries.push(JobDelivery::new(setter, *max_retries));
    }
    (BatchJob::new((0..retries.len()).collect(), deliveries), futures)
}

fn failure(text: &'static str) -> Result<u32, Error<io::Error>> {
    Err(Error::task_execution(io::Error::other(text)))
}

#[test]
fn only_failed_inputs_are_run_again() {
    let (mut job, mut futures) = batch(vec![2, 2, 3]);
    assert_eq!(job.status(), JobStatus::Pending);

    assert_eq!(job.begin(), BatchStep::Run);
    assert_eq!(*job.inputs(), vec![0, 1, 2]);
    let step = job.settle(Attempt::Returned(Ok(vec![failure("a"), Ok(10), failure("b")])));
    assert_eq!(step, BatchStep::Run);
    assert_eq!(*job.inputs(), vec![0, 2]);
    assert_eq!(job.status(), JobStatus::Running);
    let step = job.settle(Attempt::Returned(Ok(vec![failure("c"), failure("d")])));
    assert_eq!(step, BatchStep::Run);
    assert_eq!(*job.inputs(), vec![2]);
    let step = job.settle(Attempt::Returned(Ok(vec![Ok(12)])));
    assert_eq!(step, BatchStep::Done);

    assert_eq!(job.status(), JobStatus::Failed);
    assert!(matches!(
        result_of(&mut futures[0]),
        Err(Error::TaskExecution { message, .. }) if message == "c"
    ));
    assert_eq!(result_of(&mut futures[1]).unwrap(), 10);
    assert_eq!(result_of(&mut futures[2]).unwrap(), 12);
}

#[test]
fn input_without_retries_is_run_once() {
    let (mut job, mut futures) = batch(vec![0]);
    assert_eq!(job.begin(), BatchStep::Run);
    assert_eq!(job.settle(Attempt::Returned(Ok(vec![failure("a")]))), BatchStep::Done);
    assert!(matches!(result_of(&mut futures[0]), Err(Error::TaskExecution { .. })));
}

#[test]
fn outer_error_counts_for_every_input() {
    let (mut job, mut futures) = batch(vec![1, 2]);
    assert_eq!(job.begin(), BatchStep::Run);
    let outer = || Attempt::Returned(Err(Error::task_execution(io::Error::other("down"))));
    assert_eq!(job.settle(outer()), BatchStep::Run);
    assert_eq!(*job.inputs(), vec![1]);
    assert_eq!(job.settle(outer()), BatchStep::Done);
    for future in futures.iter_mut() {
        assert!(matches!(
            result_of(future),
            Err(Error::TaskExecution { message, .. }) if message == "down"
        ));
    }
}

#[test]
fn wrong_number_of_results_and_panic_reach_every_input() {
    let (mut job, mut futures) = batch(vec![5, 5]);
    assert_eq!(job.begin(), BatchStep::Run);
    assert_eq!(job.settle(Attempt::Returned(Ok(vec![Ok(1)]))), BatchStep::Done);
    assert_eq!(job.status(), JobStatus::Failed);
    for future in futures.iter_mut() {
        assert!(matches!(
            result_of(future),
            Err(Error::BatchSizeMismatch { expected: 2, actual: 1 })
        ));
    }

    let (mut job, mut futures) = batch(vec![5, 5]);
    assert_eq!(job.begin(), BatchStep::Run);
    let panic = Attempt::Panicked(PanicPayload::Literal("boom"));
    assert_eq!(job.settle(panic), BatchStep::Done);
    for future in futures.iter_mut() {
        assert!(matches!(result_of(future), Err(Error::TaskPanic(text)) if text == "boom"));
    }
}

#[test]
fn empty_batch_completes() {
    let (mut job, _) = batch(vec![]);
    assert_eq!(job.begin(), BatchStep::Done);
    assert_eq!(job.status(), JobStatus::Completed);
}

#[test]
fn batched_tasks_report_each_result() {
    let batched = Batched::new(DoubleBatch);
    let DoubleBatch = batched.task();
    let results =
        batched.execute(Ok(vec![Ok(1), Err(io::Error::other("two")), Ok(3)])).unwrap();
    assert!(matches!(
        results.as_slice(),
        [Ok(1), Err(Error::TaskExecution { message, .. }), Ok(3)] if message == "two"
    ));
    assert!(matches!(
        batched.execute(Err(io::Error::other("all"))),
        Err(Error::TaskExecution { message, .. }) if message == "all"
    ));
    assert!(matches!(batched.item((4, Ok(5))), (4, Ok(5))));
    assert!(matches!(
        batched.event((4, Ok(5))),
        BatchStreamEvent::Item { index: 4, item: Ok(5) }
    ));
}

struct Finishes;

impl StreamBatchMode<()> for Finishes {
    type Input = u8;
    type Item = u8;
    type Error = Infallible;
}

type Streams = StreamBatcher<(), Finishes, Jobs, (), StreamDelivery<u8, Infallible>>;

#[test]
fn selected_external_mode_delivers_one_result_per_member() {
    let mut batcher: Streams = StreamBatcherBuilder::new((), ())
        .mode(Finishes)
        .policy(BatchPolicy { max_size: 2, max_wait: Duration::ZERO })
        .build();
    let (first, joined) = batcher.enqueue(JobStreamOptions::new(1), true).unwrap();
    let window = opened(joined);
    batcher.answered(window, true);
    let (second, joined) = batcher.enqueue(JobStreamOptions::new(2), true).unwrap();
    assert_eq!(existing(joined), (window, false));
    assert!(matches!(batcher.ready(window, Duration::ZERO), Readiness::Now));

    let (executor, inputs, context) = batcher.take_batch(window).unwrap();
    let (Finishes, ()) = (executor.mode(), executor.task());
    let mut members = context.into_members();
    for (input, member) in inputs.iter().zip(members.iter_mut()) {
        assert!(member.is_open());
        assert!(matches!(member.send(Ok(*input)), Ok(Sent::Done)));
        member.finish(Ok(()));
        assert!(!member.is_open());
        assert!(!member.is_live());
    }

    for (expected, handle) in [(1, first), (2, second)] {
        let (items, mut result) = handle.split();
        assert!(matches!(block_on(items.into_receiver().next()), Some(Ok(item)) if item == expected));
        assert!(result_of(&mut result).is_ok());
    }
}

#[test]
fn cancelled_opener_does_not_cancel_joined_stream_member() {
    let mut batcher: Streams = StreamBatcherBuilder::new((), ())
        .policy(BatchPolicy { max_size: 2, max_wait: Duration::ZERO })
        .mode(Finishes)
        .build();
    let (first, joined) = batcher.enqueue(JobStreamOptions::new(1), false).unwrap();
    let window = opened(joined);
    let (second, joined) = batcher.enqueue(JobStreamOptions::new(2), true).unwrap();
    assert_eq!(existing(joined), (window, true));

    drop(first);
    batcher.answered(window, true);
    let (_, inputs, mut context) = batcher.take_batch(window).unwrap();
    context.members()[0].receiver_dropped();
    assert!(!context.activity().is_open(0));
    let input = inputs[1];
    assert!(matches!(context.members()[1].send(Ok(input)), Ok(Sent::Done)));
    context.members()[1].finish(Ok(()));

    let (items, mut result) = second.split();
    assert!(matches!(block_on(items.into_receiver().next()), Some(Ok(2))));
    assert!(result_of(&mut result).is_ok());
}

#[test]
fn invalid_capacity_rejects_before_queue_submission() {
    let mut batcher: Streams =
        StreamBatcher::new((), (), Finishes, BatchPolicy::default());

    assert!(matches!(
        batcher.enqueue(JobStreamOptions::new(1).with_capacity(0), true),
        Err(Error::InvalidStreamCapacity(0))
    ));
    assert!(batcher.take_batch(0).is_none());
    batcher.abandoned(0);
    assert_eq!(*batcher.queue(), ());
}

#[test]
fn stream_deliveries_are_open_until_they_are_settled() {
    let (_handle, delivery) = match Streams::open_stream(1) {
        Ok(made) => made,
        Err(_) => panic!("the capacity is supported"),
    };
    assert!(delivery.lifecycle().is_open());
    let executor = StreamBatchExecutor::new(3, Finishes);
    assert_eq!(*executor.task(), 3);
}
