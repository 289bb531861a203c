//! Building a queue of jobs together with the workers that run them.

use std::sync::Arc;

use vstd::prelude::*;

use crate::channel::max_buffer;
use crate::job_queue::{JobQueue, JobQueueBuilder};
use crate::queue::fifo::FifoQueue;
use crate::queue::lifo::LifoQueue;
use crate::queue::priority::PriorityQueue;
use crate::queue::traits::{Queue, QueueState};
use crate::worker::{BatchJobWorker, JobWorker, Worker, WorkerPool, WorkerPoolBuilder};

verus! {

/// A handle of a queue of jobs, and the pool of workers that run them.
pub type QueueSystem<H, W> = (H, Arc<WorkerPool<H, W>>);

/// Makes a queue of jobs together with the workers that run them. They reach the queue through a
/// handle of type `H`.
pub struct QueueSystemBuilder<Q: Queue, H, W: Worker<H>> {
    job_queue_builder: JobQueueBuilder<Q>,
    worker_pool_builder: WorkerPoolBuilder<H, W>,
}

impl<I, H, W: Worker<H>> QueueSystemBuilder<FifoQueue<I>, H, W> {
    /// A system whose queue hands out first what came first and has room for `max_capacity`
    /// jobs.
    pub fn fifo(max_capacity: usize) -> (builder: Self)
        requires
            max_capacity < max_buffer(),
        ensures
            builder.jobs().queue() is Some,
            builder.jobs().queue()->0.valid(),
            builder.jobs().queue()->0.state() == QueueState::<I>::fresh(
                max_capacity as int,
                builder.jobs().queue()->0.state().signal.event,
            ),
            builder.jobs().queue()->0.capacity() == max_capacity,
            builder.workers().num_workers() == 1,
            builder.workers().options() is None,
    {
        Self::new(
            JobQueueBuilder::<FifoQueue<I>>::new().fifo(max_capacity),
            WorkerPoolBuilder::new(),
        )
    }
}

impl<I, H, W: Worker<H>> QueueSystemBuilder<LifoQueue<I>, H, W> {
    /// A system whose queue hands out first what came last and has room for `max_capacity` jobs.
    pub fn lifo(max_capacity: usize) -> (builder: Self)
        ensures
            builder.jobs().queue() is Some,
            builder.jobs().queue()->0.valid(),
            builder.jobs().queue()->0.state() == QueueState::<I>::fresh(
                max_capacity as int,
                builder.jobs().queue()->0.state().signal.event,
            ),
            builder.jobs().queue()->0.capacity() == max_capacity,
            builder.workers().num_workers() == 1,
            builder.workers().options() is None,
    {
        Self::new(
            JobQueueBuilder::<LifoQueue<I>>::new().lifo(max_capacity),
            WorkerPoolBuilder::new(),
        )
    }
}

impl<I, H, W: Worker<H>> QueueSystemBuilder<PriorityQueue<I>, H, W> {
    /// A system whose queue hands out first what is most urgent and has room for `max_capacity`
    /// jobs.
    pub fn priority(max_capacity: usize) -> (builder: Self)
        ensures
            builder.jobs().queue() is Some,
            builder.jobs().queue()->0.valid(),
            builder.jobs().queue()->0.state() == QueueState::<I>::fresh(
                max_capacity as int,
                builder.jobs().queue()->0.state().signal.event,
            ),
            builder.jobs().queue()->0.capacity() == max_capacity,
            builder.workers().num_workers() == 1,
            builder.workers().options() is None,
    {
        Self::new(
            JobQueueBuilder::<PriorityQueue<I>>::new().priority(max_capacity),
            WorkerPoolBuilder::new(),
        )
    }
}

impl<Q: Queue, H, W: Worker<H>> QueueSystemBuilder<Q, H, W> {
    /// What makes the queue.
    pub closed spec fn jobs(&self) -> JobQueueBuilder<Q> {
        self.job_queue_builder
    }

    /// What makes the workers.
    pub closed spec fn workers(&self) -> WorkerPoolBuilder<H, W> {
        self.worker_pool_builder
    }

    /// A system of what the two builders make.
    pub fn new(
        job_queue_builder: JobQueueBuilder<Q>,
        worker_pool_builder: WorkerPoolBuilder<H, W>,
    ) -> (builder: Self)
        ensures
            builder.jobs() == job_queue_builder,
            builder.workers() == worker_pool_builder,
    {
        QueueSystemBuilder { job_queue_builder, worker_pool_builder }
    }

    /// Sets how many workers there will be.
    pub fn with_num_workers(self, num_workers: usize) -> (builder: Self)
        ensures
            builder.jobs() == self.jobs(),
            builder.workers().num_workers() == num_workers,
            builder.workers().options() == self.workers().options(),
            builder.workers().queue() == self.workers().queue(),
    {
        QueueSystemBuilder {
            job_queue_builder: self.job_queue_builder,
            worker_pool_builder: self.worker_pool_builder.with_num_workers(num_workers),
        }
    }

    /// Sets how the workers will be configured.
    pub fn with_worker_options(self, options: W::Options) -> (builder: Self)
        ensures
            builder.jobs() == self.jobs(),
            builder.workers().num_workers() == self.workers().num_workers(),
            builder.workers().options() == Some(options),
            builder.workers().queue() == self.workers().queue(),
    {
        QueueSystemBuilder {
            job_queue_builder: self.job_queue_builder,
            worker_pool_builder: self.worker_pool_builder.with_options(options),
        }
    }

    /// The system: a handle of the queue of jobs, and as many workers as were asked for, numbered
    /// from zero on, that reach the same queue.
    pub fn build(self) -> (system: QueueSystem<H, W>) where
        H: From<JobQueue<Q>> + Clone,
        W::Options: Clone + Default,

        requires
            self.jobs().queue() is Some,
        ensures
            exists|jobs: JobQueue<Q>, kept: H|
                {
                    &&& jobs.inner() == self.jobs().queue()->0
                    &&& #[trigger] call_ensures(H::from, (jobs,), system.0)
                    &&& #[trigger] cloned(system.0, kept)
                    &&& forall|i: int|
                        0 <= i < system.1@.len() ==> cloned(
                            kept,
                            (#[trigger] system.1@[i]).handle(),
                        )
                },
            system.1@.len() == self.workers().num_workers(),
            forall|i: int|
                0 <= i < system.1@.len() ==> {
                    &&& (#[trigger] system.1@[i]).number() == i
                    &&& match self.workers().options() {
                        Some(options) => cloned(options, system.1@[i].configured()),
                        None => call_ensures(W::Options::default, (), system.1@[i].configured()),
                    }
                },
    {
        let jobs = self.job_queue_builder.build();
        let handle = H::from(jobs);
        let kept = handle.clone();
        assert(cloned(handle, kept));
        let pool = self.worker_pool_builder.with_queue(kept).build();
        let system = (handle, pool);
        assert(call_ensures(H::from, (jobs,), system.0));
        assert(cloned(system.0, kept));
        system
    }
}

/// Makes a system whose workers run jobs one at a time.
pub type JobQueueSystemBuilder<Q, H> = QueueSystemBuilder<Q, H, JobWorker<H>>;

/// Makes a system whose workers run jobs in batches.
pub type BatchJobQueueSystemBuilder<Q, H> = QueueSystemBuilder<Q, H, BatchJobWorker<H>>;

} // verus!
