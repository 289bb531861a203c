use std::collections::VecDeque;
use std::sync::Arc;
use std::time::Duration;

use futures::executor::block_on;
use futures::FutureExt;
use jobq::worker::worker_event;
use jobq::{
    Arrival, BatchJobQueueSystemBuilder, BatchJobWorker, BatchJobWorkerOptions, Dequeued, Enqueued,
    Error, FifoQueue,
    JobBatch, JobQueue, JobQueueSystemBuilder, JobWorker, LifoQueue, PriorityQueue, Worker,
    WorkerAction, WorkerEvent, WorkerPool, WorkerPoolBuilder,
};

type Handle<Q> = Arc<JobQueue<Q>>;

#[test]
fn worker_runs_what_it_gets_until_it_is_stopped() {
    let mut worker: JobWorker<u8> = JobWorker::create(3, 7, ());
    assert_eq!(worker.id(), 3);
    assert_eq!(*worker.queue(), 7);

    let work = worker_event::<&str, ()>(Ok(Some("job")));
    assert!(matches!(worker.run(work), WorkerAction::Execute("job")));
    assert!(matches!(worker.run(worker_event::<u8, ()>(Ok(None))), WorkerAction::Wait));
    assert!(matches!(
        worker.run(worker_event::<u8, ()>(Err(Error::future_closed()))),
        WorkerAction::Wait
    ));
    assert!(matches!(worker.run(WorkerEvent::<u8>::Shutdown), WorkerAction::Stop));

    let mut asked = worker.shutdown_requested().unwrap();
    assert!((&mut asked).now_or_never().is_none());
    worker.shutdown();
    block_on(asked);
    assert!(worker.shutdown_requested().is_none());
    assert_eq!(worker.id(), 3);
}

#[test]
fn stopping_worker_asks_for_no_further_job() {
    let mut worker: JobWorker<()> = JobWorker::create(0, (), ());
    assert!(matches!(worker.run(WorkerEvent::<u8>::Idle), WorkerAction::Wait));
    assert!(matches!(worker.run(WorkerEvent::Work(1)), WorkerAction::Execute(1)));
    worker.shutdown();
    assert!(matches!(worker.run(WorkerEvent::<u8>::Idle), WorkerAction::Stop));
    assert!(matches!(worker.run(WorkerEvent::<u8>::Nothing), WorkerAction::Stop));
    assert!(matches!(worker.run(WorkerEvent::Work(2)), WorkerAction::Execute(2)));

    let mut worker: BatchJobWorker<()> =
        BatchJobWorker::new(0, (), BatchJobWorkerOptions::default());
    assert!(matches!(worker.run(WorkerEvent::<Vec<u8>>::Idle), WorkerAction::Wait));
    worker.shutdown();
    assert!(matches!(worker.run(WorkerEvent::<Vec<u8>>::Idle), WorkerAction::Stop));
    assert!(matches!(worker.run(WorkerEvent::Work(Vec::<u8>::new())), WorkerAction::Stop));
    assert!(matches!(
        worker.run(WorkerEvent::Work(vec![2])),
        WorkerAction::Execute(jobs) if jobs == vec![2]
    ));
}

/// What the queue gives, with the milliseconds after which it does.
fn arrivals<J>(given: Vec<(u64, Option<J>)>) -> VecDeque<Arrival<J>> {
    given
        .into_iter()
        .map(|(at, job)| Arrival { at: Duration::from_millis(at), job })
        .collect()
}

#[test]
fn batch_is_collected_for_one_timeout_in_all() {
    let worker: BatchJobWorker<()> =
        BatchJobWorker::new(0, (), BatchJobWorkerOptions::default());
    let given =
        || arrivals(vec![(40, Some(1)), (80, Some(2)), (120, Some(3)), (160, Some(4))]);

    assert_eq!(worker.collect_batch(4, Duration::from_millis(50), given()), vec![1]);
    assert_eq!(worker.collect_batch(4, Duration::from_millis(80), given()), vec![1, 2]);
    assert_eq!(worker.collect_batch(4, Duration::from_millis(160), given()), vec![1, 2, 3, 4]);
    assert_eq!(worker.collect_batch(3, Duration::from_millis(160), given()), vec![1, 2, 3]);
    assert!(worker.collect_batch(4, Duration::from_millis(39), given()).is_empty());
}

#[test]
fn batch_worker_gathers_until_it_is_full_or_nothing_comes() {
    let worker: BatchJobWorker<()> =
        BatchJobWorker::new(0, (), BatchJobWorkerOptions::default());

    let timeout = Duration::from_millis(50);
    let given = arrivals(vec![(0, Some(1)), (0, Some(2)), (0, Some(3))]);
    assert_eq!(worker.collect_batch(2, timeout, given), vec![1, 2]);
    let given = arrivals(vec![(0, Some(1)), (0, None), (0, Some(3))]);
    assert_eq!(worker.collect_batch(4, timeout, given), vec![1]);
    let given = arrivals(vec![(0, Some(1))]);
    assert_eq!(worker.collect_batch(4, timeout, given), vec![1]);
    let given = arrivals(vec![(0, Some(1))]);
    assert!(worker.collect_batch(0, timeout, given).is_empty());

    assert!(matches!(
        worker.run(WorkerEvent::Work(vec![1, 2])),
        WorkerAction::Execute(jobs) if jobs == vec![1, 2]
    ));
    assert!(matches!(worker.run(WorkerEvent::Work(Vec::<u8>::new())), WorkerAction::Wait));
    assert!(matches!(worker.run(WorkerEvent::<Vec<u8>>::Nothing), WorkerAction::Wait));
    assert!(matches!(worker.run(WorkerEvent::<Vec<u8>>::Shutdown), WorkerAction::Stop));
}

#[test]
fn job_batches_stop_at_the_first_gap() {
    let mut batch = JobBatch::new(3, Duration::from_millis(50));
    assert_eq!(batch.wait(Duration::ZERO), Some(Duration::from_millis(50)));
    batch.offer(Some('a'));
    assert_eq!(batch.wait(Duration::from_millis(20)), Some(Duration::from_millis(30)));
    assert_eq!(batch.wait(Duration::from_millis(60)), Some(Duration::ZERO));
    batch.offer(None);
    assert_eq!(batch.wait(Duration::from_millis(20)), None);
    assert_eq!(batch.into_jobs(), vec!['a']);
}

#[test]
fn batch_worker_options_have_documented_defaults() {
    let options = BatchJobWorkerOptions::default();
    assert_eq!(options.batch_size, 4);
    assert_eq!(options.batch_timeout, Duration::from_millis(50));
}

#[test]
fn pools_number_their_workers_from_zero_on() {
    let options =
        BatchJobWorkerOptions { batch_size: 9, batch_timeout: Duration::from_millis(1) };
    let pool: Arc<WorkerPool<u8, BatchJobWorker<u8>>> =
        WorkerPoolBuilder::new().with_num_workers(3).with_options(options).with_queue(5).build();

    assert_eq!(pool.num_workers(), 3);
    for (id, worker) in pool.workers().iter().enumerate() {
        assert_eq!(worker.id(), id);
        assert_eq!(*worker.queue(), 5);
        assert_eq!(worker.options().batch_size, 9);
    }
    assert_eq!(pool.get_worker(2).unwrap().id(), 2);
    assert!(pool.get_worker(3).is_none());
}

#[test]
fn pools_find_the_first_worker_of_a_number() {
    let workers = vec![
        Arc::new(JobWorker::create(4, 'a', ())),
        Arc::new(JobWorker::create(4, 'b', ())),
    ];
    let pool: WorkerPool<char, JobWorker<char>> = WorkerPool::new(workers);
    assert_eq!(*pool.get_worker(4).unwrap().queue(), 'a');
    assert!(pool.get_worker(0).is_none());
}

#[test]
fn pool_without_workers_needs_no_queue() {
    let pool: Arc<WorkerPool<u8, JobWorker<u8>>> =
        WorkerPool::<u8, JobWorker<u8>>::builder().with_num_workers(0).build();
    assert_eq!(pool.num_workers(), 0);
}

#[test]
fn systems_share_their_queue_with_their_workers() {
    let (queue, pool) =
        JobQueueSystemBuilder::<FifoQueue<u8>, Handle<FifoQueue<u8>>>::fifo(10)
            .with_num_workers(2)
            .build();
    assert_eq!(pool.num_workers(), 2);
    assert!(pool.workers().iter().all(|worker| Arc::ptr_eq(worker.queue(), &queue)));
    assert!(queue.is_empty());

    let (queue, pool) =
        BatchJobQueueSystemBuilder::<LifoQueue<u8>, Handle<LifoQueue<u8>>>::lifo(10)
            .with_worker_options(BatchJobWorkerOptions {
                batch_size: 2,
                batch_timeout: Duration::from_millis(3),
            })
            .build();
    assert_eq!(pool.num_workers(), 1);
    assert_eq!(pool.workers()[0].options().batch_size, 2);
    assert_eq!(pool.workers()[0].options().batch_timeout, Duration::from_millis(3));
    assert_eq!(queue.len(), 0);

    let (queue, pool) =
        JobQueueSystemBuilder::<PriorityQueue<u8>, Handle<PriorityQueue<u8>>>::priority(10).build();
    drop(pool);
    let mut queue = match Arc::try_unwrap(queue) {
        Ok(queue) => queue,
        Err(_) => panic!("the workers are gone"),
    };
    assert!(queue.enqueue::<()>(1, None).is_ok());
    assert!(matches!(queue.dequeue_job::<()>(), Ok(Dequeued::Item(1))));
}

#[test]
fn systems_hold_their_queue_to_its_capacity() {
    let (queue, pool) =
        JobQueueSystemBuilder::<LifoQueue<u8>, Handle<LifoQueue<u8>>>::lifo(1).build();
    drop(pool);
    let mut queue = match Arc::try_unwrap(queue) {
        Ok(queue) => queue,
        Err(_) => panic!("the workers are gone"),
    };
    assert!(matches!(queue.enqueue::<()>(1, None), Ok(Enqueued::Done)));
    assert!(matches!(queue.enqueue::<()>(2, None), Ok(Enqueued::Wait(_))));
    assert_eq!(queue.len(), 1);

    let (queue, pool) =
        JobQueueSystemBuilder::<PriorityQueue<u8>, Handle<PriorityQueue<u8>>>::priority(1).build();
    drop(pool);
    let mut queue = match Arc::try_unwrap(queue) {
        Ok(queue) => queue,
        Err(_) => panic!("the workers are gone"),
    };
    assert!(matches!(queue.enqueue::<()>(1, None), Ok(Enqueued::Done)));
    assert!(matches!(queue.enqueue::<()>(2, None), Ok(Enqueued::Wait(_))));
    assert_eq!(queue.len(), 1);
}
