//! The queue that holds jobs, and what jobs ask of it.

use vstd::prelude::*;

use crate::channel::{handed, max_buffer, paired};
use crate::error::Error;
use crate::future::{valid_capacity, JobFuture, JobStreamHandle};
use crate::job::{Job, JobState};
use crate::queue::error::Error as QueueError;
use crate::queue::fifo::FifoQueue;
use crate::queue::lifo::LifoQueue;
use crate::queue::priority::PriorityQueue;
use crate::queue::traits::{Dequeued, Enqueued, Queue, QueueState};
use crate::signal::{listens, notified};
use crate::stream_job::StreamJob;
use crate::task::{StreamTask, Task};

verus! {

/// How a task, or an input of a batch, is to be run.
#[derive(Debug, Clone)]
pub struct JobOptions<T, Q: Queue> {
    /// The task or the input.
    pub task: T,
    /// How often it may be run.
    pub max_retries: usize,
    /// What to ask the queue for.
    pub queue_options: Option<Q::Options>,
}

impl<T, Q: Queue> JobOptions<T, Q> {
    /// A task that is run once and asks the queue for nothing.
    pub fn new(task: T) -> (options: Self)
        ensures
            options == (JobOptions::<T, Q> { task, max_retries: 1, queue_options: None }),
    {
        JobOptions { task, max_retries: 1, queue_options: None }
    }

    /// Sets how often the task may be run.
    pub fn with_max_retries(self, retries: usize) -> (options: Self)
        ensures
            options == (JobOptions::<T, Q> { max_retries: retries, ..self }),
    {
        JobOptions { max_retries: retries, ..self }
    }

    /// Sets what to ask the queue for.
    pub fn with_queue_options(self, options: Q::Options) -> (updated: Self)
        ensures
            updated == (JobOptions::<T, Q> { queue_options: Some(options), ..self }),
    {
        JobOptions { queue_options: Some(options), ..self }
    }

    /// The task, how often it may be run, and what to ask the queue for.
    pub fn into_parts(self) -> (parts: (T, usize, Option<Q::Options>))
        ensures
            parts == (self.task, self.max_retries, self.queue_options),
    {
        (self.task, self.max_retries, self.queue_options)
    }
}

/// How a stream, or an input of a stream batch, is to be run.
#[derive(Debug, Clone)]
pub struct JobStreamOptions<T, Q: Queue> {
    /// The task or the input.
    pub task: T,
    /// How many items the stream has room for.
    pub capacity: usize,
    /// What to ask the queue for.
    pub queue_options: Option<Q::Options>,
}

impl<T, Q: Queue> JobStreamOptions<T, Q> {
    /// A stream with room for sixteen items that asks the queue for nothing.
    pub fn new(task: T) -> (options: Self)
        ensures
            options == (JobStreamOptions::<T, Q> { task, capacity: 16, queue_options: None }),
    {
        JobStreamOptions { task, capacity: 16, queue_options: None }
    }

    /// Sets how many items the stream has room for.
    pub fn with_capacity(self, capacity: usize) -> (options: Self)
        ensures
            options == (JobStreamOptions::<T, Q> { capacity, ..self }),
    {
        JobStreamOptions { capacity, ..self }
    }

    /// Sets what to ask the queue for.
    pub fn with_queue_options(self, options: Q::Options) -> (updated: Self)
        ensures
            updated == (JobStreamOptions::<T, Q> { queue_options: Some(options), ..self }),
    {
        JobStreamOptions { queue_options: Some(options), ..self }
    }

    /// The task, how many items the stream has room for, and what to ask the queue for.
    pub fn into_parts(self) -> (parts: (T, usize, Option<Q::Options>))
        ensures
            parts == (self.task, self.capacity, self.queue_options),
    {
        (self.task, self.capacity, self.queue_options)
    }
}

/// A queue of jobs.
pub struct JobQueue<Q: Queue> {
    inner: Q,
}

/// Whether a queue goes from `before` to `after` when an item is enqueued, and answers
/// `enqueued`: a closed queue refuses it, and any other takes it to its place.
pub open spec fn enqueues<Q: Queue, S>(
    before: Q,
    item: Q::Item,
    options: Option<Q::Options>,
    after: Q,
    enqueued: Result<Enqueued, Error<S>>,
) -> bool {
    if before.state().closed {
        &&& enqueued == Err::<Enqueued, Error<S>>(Error::Queue(QueueError::Closed))
        &&& after.state() == before.state()
    } else {
        &&& enqueued is Ok
        &&& 0 <= before.place(options) <= before.state().items.len()
        &&& notified(before.state().signal.event, 1)
        &&& match enqueued->Ok_0 {
            Enqueued::Done => {
                &&& before.state().has_room()
                &&& after.state() == before.state().enqueue(before.place(options), item)
            },
            Enqueued::Wait(receiver) => {
                let waiter = after.state().waiting.last();
                &&& !before.state().has_room()
                &&& paired(waiter, receiver)
                &&& after.state() == before.state().enqueue(before.place(options), item).wait(
                    waiter,
                )
            },
        }
    }
}

impl<Q: Queue> JobQueue<Q> {
    /// The queue inside.
    pub closed spec fn inner(&self) -> Q {
        self.inner
    }

    /// What holds of every queue of jobs.
    pub open spec fn valid(&self) -> bool {
        self.inner().valid()
    }

    /// A queue of jobs over the given queue.
    pub fn new(queue: Q) -> (jobs: Self)
        ensures
            jobs.inner() == queue,
    {
        JobQueue { inner: queue }
    }

    /// Enqueues a job.
    pub fn enqueue<S>(&mut self, job: Q::Item, options: Option<Q::Options>) -> (enqueued: Result<
        Enqueued,
        Error<S>,
    >)
        requires
            old(self).valid(),
        ensures
            final(self).valid(),
            enqueues(old(self).inner(), job, options, final(self).inner(), enqueued),
    {
        match self.inner.enqueue(job, options) {
            Ok(enqueued) => Ok(enqueued),
            Err(error) => Err(Error::queue(error)),
        }
    }

    /// Asks for the next job.
    pub fn dequeue_job<S>(&mut self) -> (dequeued: Result<Dequeued<Q::Item>, Error<S>>)
        requires
            old(self).valid(),
        ensures
            final(self).valid(),
            final(self).inner().state() == old(self).inner().state().dequeue(),
            dequeued is Ok,
            if old(self).inner().state().items.len() > 0 {
                dequeued->Ok_0 == Dequeued::Item(old(self).inner().state().items[0])
            } else if old(self).inner().state().closed {
                dequeued->Ok_0 is Closed
            } else {
                &&& dequeued->Ok_0 is Wait
                &&& listens(
                    old(self).inner().state().signal.event,
                    dequeued->Ok_0->Wait_0,
                )
            },
            old(self).inner().state().items.len() > 0 && old(self).inner().state().waiting.len() > 0
                ==> handed(old(self).inner().state().waiting[0], ()),
            old(self).inner().state().items.len() > 1 ==> notified(
                old(self).inner().state().signal.event,
                1,
            ),
    {
        match self.inner.dequeue() {
            Ok(dequeued) => Ok(dequeued),
            Err(error) => Err(Error::queue(error)),
        }
    }

    /// The number of jobs in the queue.
    pub fn len(&self) -> (len: usize)
        requires
            self.valid(),
        ensures
            len == self.inner().state().length(),
    {
        self.inner.len()
    }

    /// Whether there is no job in the queue.
    pub fn is_empty(&self) -> (empty: bool)
        requires
            self.valid(),
        ensures
            empty == (self.inner().state().length() == 0),
    {
        self.len() == 0
    }

    /// Closes the queue: it takes no more jobs.
    pub fn close<S>(&mut self) -> (closed: Result<(), Error<S>>)
        requires
            old(self).valid(),
        ensures
            final(self).valid(),
            closed is Ok,
            final(self).inner().state() == old(self).inner().state().close(),
            notified(old(self).inner().state().signal.event, usize::MAX),
    {
        match self.inner.close() {
            Ok(closed) => Ok(closed),
            Err(error) => Err(Error::queue(error)),
        }
    }

    /// A builder for a queue of jobs.
    pub fn builder() -> (builder: JobQueueBuilder<Q>)
        ensures
            builder.queue() is None,
    {
        JobQueueBuilder::new()
    }

    /// Enqueues a job for a task, and gives the future of its result.
    pub fn enqueue_job<T: Task>(&mut self, options: JobOptions<T, Q>) -> (made: Result<
        (JobFuture<T::Output, T::Error>, Enqueued),
        Error<T::Error>,
    >) where Q::Item: From<Job<T>>
        requires
            old(self).valid(),
        ensures
            final(self).valid(),
            made is Ok ==> made->Ok_0.0@.is_fresh(),
            exists|job: Job<T>, item: Q::Item|
                {
                    &&& job.runs() == options.task
                    &&& job@ == JobState::<T::Output, T::Error>::fresh(
                        options.max_retries as int,
                        job@.setter,
                    )
                    &&& made is Ok ==> made->Ok_0.0@.waits_on(job@.setter)
                    &&& #[trigger] call_ensures(Q::Item::from, (job,), item)
                    &&& enqueues(
                        old(self).inner(),
                        item,
                        options.queue_options,
                        final(self).inner(),
                        match made {
                            Ok(made) => Ok::<Enqueued, Error<T::Error>>(made.1),
                            Err(error) => Err(error),
                        },
                    )
                },
    {
        let (task, max_retries, queue_options) = options.into_parts();
        let (job, future) = Job::new(task, max_retries);
        let item = Q::Item::from(job);
        match self.enqueue(item, queue_options) {
            Ok(enqueued) => Ok((future, enqueued)),
            Err(error) => Err(error),
        }
    }

    /// Enqueues a streaming job for a task, and gives the handle of its stream. Nothing is
    /// enqueued where a stream cannot have the capacity.
    pub fn enqueue_stream<T: StreamTask>(&mut self, options: JobStreamOptions<T, Q>) -> (made:
        Result<(JobStreamHandle<T::Item, T::Error>, Enqueued), Error<T::Error>>) where
        Q::Item: From<StreamJob<T>>,

        requires
            old(self).valid(),
        ensures
            final(self).valid(),
            !valid_capacity(options.capacity as int) ==> {
                &&& made is Err
                &&& made->Err_0 == Error::<T::Error>::InvalidStreamCapacity(options.capacity)
                &&& final(self).inner() == old(self).inner()
            },
            valid_capacity(options.capacity as int) ==> exists|job: StreamJob<T>, item: Q::Item|
                {
                    &&& job.runs() == options.task
                    &&& made is Ok ==> job@.is_fresh(made->Ok_0.0, options.capacity)
                    &&& #[trigger] call_ensures(Q::Item::from, (job,), item)
                    &&& enqueues(
                        old(self).inner(),
                        item,
                        options.queue_options,
                        final(self).inner(),
                        match made {
                            Ok(made) => Ok::<Enqueued, Error<T::Error>>(made.1),
                            Err(error) => Err(error),
                        },
                    )
                },
    {
        let (task, capacity, queue_options) = options.into_parts();
        let (job, handle) = match StreamJob::new(task, capacity) {
            Ok(made) => made,
            Err(error) => {
                return Err(error);
            },
        };
        let item = Q::Item::from(job);
        match self.enqueue(item, queue_options) {
            Ok(enqueued) => Ok((handle, enqueued)),
            Err(error) => Err(error),
        }
    }
}

/// Makes a [`JobQueue`].
pub struct JobQueueBuilder<Q: Queue> {
    queue: Option<Q>,
}

impl<I> JobQueueBuilder<FifoQueue<I>> {
    /// Uses a queue that hands out first what came first and has room for `max_capacity` jobs.
    pub fn fifo(self, max_capacity: usize) -> (builder: Self)
        requires
            max_capacity < max_buffer(),
        ensures
            builder.queue() is Some,
            builder.queue()->0.valid(),
            builder.queue()->0.state() == QueueState::<I>::fresh(
                max_capacity as int,
                builder.queue()->0.state().signal.event,
            ),
            builder.queue()->0.capacity() == max_capacity,
    {
        JobQueueBuilder { queue: Some(FifoQueue::new(max_capacity)) }
    }
}

impl<I> JobQueueBuilder<LifoQueue<I>> {
    /// Uses a queue that hands out first what came last and has room for `max_capacity` jobs.
    pub fn lifo(self, max_capacity: usize) -> (builder: Self)
        ensures
            builder.queue() is Some,
            builder.queue()->0.valid(),
            builder.queue()->0.state() == QueueState::<I>::fresh(
                max_capacity as int,
                builder.queue()->0.state().signal.event,
            ),
            builder.queue()->0.capacity() == max_capacity,
    {
        JobQueueBuilder { queue: Some(LifoQueue::new(max_capacity)) }
    }
}

impl<I> JobQueueBuilder<PriorityQueue<I>> {
    /// Uses a queue that hands out first what is most urgent and has room for `max_capacity` jobs.
    pub fn priority(self, max_capacity: usize) -> (builder: Self)
        ensures
            builder.queue() is Some,
            builder.queue()->0.valid(),
            builder.queue()->0.state() == QueueState::<I>::fresh(
                max_capacity as int,
                builder.queue()->0.state().signal.event,
            ),
            builder.queue()->0.capacity() == max_capacity,
    {
        JobQueueBuilder { queue: Some(PriorityQueue::new(max_capacity)) }
    }
}

impl<Q: Queue> Default for JobQueueBuilder<Q> {
    fn default() -> (builder: Self)
        ensures
            builder.queue() is None,
    {
        JobQueueBuilder::new()
    }
}

impl<Q: Queue> JobQueueBuilder<Q> {
    /// The queue that was chosen, if one was.
    pub closed spec fn queue(&self) -> Option<Q> {
        self.queue
    }

    /// A builder without a queue.
    pub fn new() -> (builder: Self)
        ensures
            builder.queue() is None,
    {
        JobQueueBuilder { queue: None }
    }

    /// The queue of jobs over the queue that was chosen.
    pub fn build(self) -> (jobs: JobQueue<Q>)
        requires
            self.queue() is Some,
        ensures
            jobs.inner() == self.queue()->0,
    {
        JobQueue::new(self.queue.unwrap())
    }
}

/// A queue of jobs takes every job while it is open, moves no other, and says whether there is room
/// for it: it keeps the one who enqueues waiting exactly if it holds as many as it has room for. A
/// closed one takes none and says so.
pub proof fn open_queue_takes_every_job<Q: Queue, S>(
    before: Q,
    item: Q::Item,
    options: Option<Q::Options>,
    after: Q,
    enqueued: Result<Enqueued, Error<S>>,
)
    requires
        enqueues(before, item, options, after, enqueued),
    ensures
        before.state().closed ==> {
            &&& enqueued matches Err(Error::Queue(QueueError::Closed))
            &&& after.state() == before.state()
        },
        !before.state().closed ==> {
            &&& enqueued is Ok
            &&& enqueued->Ok_0 is Done <==> before.state().items.len() < before.state().capacity
            &&& exists|place: int|
                0 <= place < after.state().items.len() && #[trigger] after.state().items[place]
                    == item && after.state().items.remove(place) == before.state().items
            &&& !after.state().closed
            &&& after.state().capacity == before.state().capacity
            &&& after.state().waiting.len() == before.state().waiting.len() + if enqueued->Ok_0
                is Done {
                0int
            } else {
                1int
            }
            &&& enqueued->Ok_0 matches Enqueued::Wait(receiver) ==> paired(
                after.state().waiting.last(),
                receiver,
            )
            &&& notified(before.state().signal.event, 1)
        },
{
    if !before.state().closed {
        let place = before.place(options);
        assert(after.state().items[place] == item);
        assert(after.state().items.remove(place) =~= before.state().items);
    }
}

} // verus!
