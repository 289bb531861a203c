//! Tasks that run the inputs of a batch together.

use std::sync::Arc;
use std::time::Duration;

use vstd::prelude::*;

use crate::batch::job::{BatchJob, DeliveryState, JobDelivery};
use crate::batch::stream::traits::{BatchStreamEvent, MultiplexedBatchStreamTask};
use crate::batch::window::{offered, BatchPolicy, Joined, Readiness, SlotState, WindowSlot};
use crate::error::Error;
use crate::executable::{reports_each, Execute, ExecuteStream};
use crate::future::JobFuture;
use crate::job::JobStatus;
use crate::job_queue::JobOptions;
use crate::queue::traits::Queue;
use crate::signal::listens;
use crate::task::{report, reports};
use crate::time::nanos;

verus! {

/// A task that runs several inputs in one call and gives a result for each, in the same order.
pub trait BatchTask {
    /// What is run.
    type Input;

    /// What comes of it.
    type Output;

    /// What an input, or the whole call, fails with.
    type Error: std::fmt::Display;
}

/// A task that produces the items of several inputs in one stream, each with the index of its
/// input.
pub trait BatchStreamTask {
    /// What one member asks for.
    type Input;

    /// What the members' streams are made of.
    type Item;

    /// What an item that could not be produced is replaced by.
    type Error: std::fmt::Display;
}

/// A task that is run with the inputs of a batch.
pub struct Batched<B>(B);

impl<B> Batched<B> {
    /// The task.
    pub closed spec fn runs(&self) -> B {
        self.0
    }

    /// Wraps a task.
    pub fn new(inner: B) -> (batched: Self)
        ensures
            batched.runs() == inner,
    {
        Batched(inner)
    }

    /// The task.
    pub fn task(&self) -> (task: &B)
        ensures
            *task == self.runs(),
    {
        &self.0
    }
}

impl<B: BatchTask> Execute for Batched<B> {
    type Input = B::Input;

    type Output = B::Output;
}

impl<B: BatchTask> Batched<B> {
    /// The results of a run of the task as a job reports them: one for each that it returned, in
    /// the same order, or the error of the whole run.
    pub fn execute(
        &self,
        returned: Result<Vec<Result<B::Output, B::Error>>, B::Error>,
    ) -> (results: Result<Vec<Result<B::Output, Error<B::Error>>>, Error<B::Error>>)
        ensures
            match returned {
                Ok(returned) => results is Ok && reports_each(returned@, results->Ok_0@),
                Err(error) => results is Err && results->Err_0.is_execution_of(error),
            },
    {
        match returned {
            Ok(returned) => {
                let mut results: Vec<Result<B::Output, Error<B::Error>>> = Vec::new();
                for result in iter: returned
                    invariant
                        iter.seq() == returned@,
                        results@.len() == iter.index(),
                        forall|i: int|
                            0 <= i < results@.len() ==> reports(
                                returned@[i],
                                #[trigger] results@[i],
                            ),
                {
                    results.push(report(result));
                }
                Ok(results)
            },
            Err(error) => Err(Error::task_execution(error)),
        }
    }
}

impl<B: BatchStreamTask> ExecuteStream for Batched<B> {
    type Input = B::Input;

    type Item = B::Item;
}

impl<B: BatchStreamTask> Batched<B> {
    /// An item of the task's stream, for the member of its index.
    pub fn item(&self, tagged: (usize, Result<B::Item, B::Error>)) -> (wrapped: (
        usize,
        Result<B::Item, Error<B::Error>>,
    ))
        ensures
            wrapped.0 == tagged.0,
            reports(tagged.1, wrapped.1),
    {
        (tagged.0, report(tagged.1))
    }

    /// An item of the task's stream, as what a task for all members produces.
    pub fn event(&self, tagged: (usize, Result<B::Item, B::Error>)) -> (event: BatchStreamEvent<
        B::Item,
        B::Error,
    >)
        ensures
            event == (BatchStreamEvent::<B::Item, B::Error>::Item {
                index: tagged.0,
                item: tagged.1,
            }),
    {
        BatchStreamEvent::Item { index: tagged.0, item: tagged.1 }
    }
}

impl<B: BatchStreamTask> MultiplexedBatchStreamTask for Batched<B> {
    type Input = B::Input;

    type Item = B::Item;

    type Error = B::Error;
}

/// The slot of a batcher for the task `B` whose jobs go to a queue `Q`.
pub type TaskSlot<B, Q> = WindowSlot<
    Batched<B>,
    <B as BatchTask>::Input,
    JobDelivery<<B as BatchTask>::Output, <B as BatchTask>::Error>,
    <Q as Queue>::Options,
>;

/// What the slot of a batcher is, as a mathematical value.
pub type TaskSlotState<B, Q> = SlotState<
    Batched<B>,
    <B as BatchTask>::Input,
    JobDelivery<<B as BatchTask>::Output, <B as BatchTask>::Error>,
    <Q as Queue>::Options,
>;

/// Gathers inputs for a batch task. It reaches the queue through a handle of type `H`.
#[verifier::reject_recursive_types(B)]
#[verifier::reject_recursive_types(Q)]
pub struct Batcher<B: BatchTask, Q: Queue, H> {
    executor: Arc<Batched<B>>,
    queue: H,
    policy: BatchPolicy,
    window: TaskSlot<B, Q>,
}

impl<B: BatchTask, Q: Queue, H> Batcher<B, Q, H> {
    /// The task.
    pub closed spec fn runs(&self) -> B {
        self.executor.runs()
    }

    /// The task, as it is run with the inputs of a batch.
    pub closed spec fn batched(&self) -> Batched<B> {
        *self.executor
    }

    /// The handle of the queue.
    pub closed spec fn handle(&self) -> H {
        self.queue
    }

    /// How large batches may grow, and how long they wait.
    pub closed spec fn policy(&self) -> BatchPolicy {
        self.policy
    }

    /// The windows.
    pub closed spec fn slot(&self) -> TaskSlotState<B, Q> {
        self.window@
    }

    /// What holds of every batcher: its windows are valid, and no input in them was run.
    pub open spec fn valid(&self) -> bool {
        &&& self.slot().valid()
        &&& forall|id: u64, i: int|
            self.slot().windows.dom().contains(id) && 0 <= i
                < self.slot().windows[id].deliveries.len() ==> {
                let delivery = #[trigger] self.slot().windows[id].deliveries[i];
                delivery.valid() && delivery@.is_pending()
            }
    }

    /// A batcher without inputs.
    pub fn new(queue: H, task: B, policy: BatchPolicy) -> (batcher: Self)
        ensures
            batcher.valid(),
            batcher.runs() == task,
            batcher.handle() == queue,
            batcher.policy() == policy,
            batcher.slot() == TaskSlotState::<B, Q>::empty(),
    {
        Batcher {
            executor: Arc::new(Batched::new(task)),
            queue,
            policy,
            window: WindowSlot::new(),
        }
    }

    /// The handle of the queue.
    pub fn queue(&self) -> (queue: &H)
        ensures
            *queue == self.handle(),
    {
        &self.queue
    }

    /// Whether there is no number left for another window.
    pub fn is_exhausted(&self) -> (exhausted: bool)
        ensures
            exhausted == (self.slot().next >= u64::MAX),
    {
        self.window.is_exhausted()
    }

    /// Offers an input, and gives the future of its result. An input that opens a window has to
    /// be followed by a job for that window in the queue; `awaited` says whether somebody waits
    /// for the queue's answer on the window that inputs join.
    pub fn enqueue(&mut self, options: JobOptions<B::Input, Q>, awaited: bool) -> (offer: (
        JobFuture<B::Output, B::Error>,
        Joined<Q::Options>,
    )) where Q::Options: Clone + PartialEq
        requires
            old(self).valid(),
            old(self).slot().next < u64::MAX,
        ensures
            final(self).valid(),
            final(self).batched() == old(self).batched(),
            final(self).handle() == old(self).handle(),
            final(self).policy() == old(self).policy(),
            offer.0@.is_fresh(),
            exists|delivery: JobDelivery<B::Output, B::Error>|
                {
                    &&& delivery@ == DeliveryState::<B::Output, B::Error>::fresh(
                        options.max_retries as int,
                        delivery@.setter,
                    )
                    &&& offer.0@.waits_on(delivery@.setter)
                    &&& #[trigger] offered(
                        old(self).slot(),
                        awaited,
                        old(self).batched(),
                        old(self).policy(),
                        options.queue_options,
                        options.task,
                        delivery,
                        final(self).slot(),
                        offer.1,
                    )
                },
    {
        let (input, max_retries, queue_options) = options.into_parts();
        let (future, setter) = JobFuture::new();
        let delivery = JobDelivery::new(setter, max_retries);
        let joined = self.window.join(
            &self.executor,
            self.policy,
            queue_options,
            input,
            delivery,
            awaited,
        );
        let offer = (future, joined);
        assert(offered(
            old(self).slot(),
            awaited,
            old(self).batched(),
            old(self).policy(),
            options.queue_options,
            options.task,
            delivery,
            self.slot(),
            offer.1,
        ));
        offer
    }

    /// Records the queue's answer on the window of this number.
    pub fn answered(&mut self, window: u64, accepted: bool)
        requires
            old(self).valid(),
        ensures
            final(self).valid(),
            final(self).batched() == old(self).batched(),
            final(self).handle() == old(self).handle(),
            final(self).policy() == old(self).policy(),
            final(self).slot() == if accepted {
                old(self).slot().accept(window)
            } else {
                old(self).slot().evict(window)
            },
    {
        self.window.answered(window, accepted);
    }

    /// Records that nobody waits any more for the queue's answer on the window of this number.
    pub fn abandoned(&mut self, window: u64)
        requires
            old(self).valid(),
        ensures
            final(self).valid(),
            final(self).batched() == old(self).batched(),
            final(self).handle() == old(self).handle(),
            final(self).policy() == old(self).policy(),
            final(self).slot() == old(self).slot().abandon(window),
    {
        self.window.abandon(window);
    }

    /// What to wait for before the window of this number is run, as [`WindowSlot::ready`] says.
    pub fn ready(&self, window: u64, elapsed: Duration) -> (readiness: Readiness)
        ensures
            readiness is Now <==> !self.slot().windows.dom().contains(window)
                || self.slot().windows[window].sealed || nanos(
                self.slot().windows[window].policy.max_wait,
            ) <= nanos(elapsed),
            readiness is Wait ==> {
                &&& nanos(readiness->remaining) == nanos(
                    self.slot().windows[window].policy.max_wait,
                ) - nanos(elapsed)
                &&& listens(self.slot().windows[window].signal.event, readiness->sealed)
            },
    {
        self.window.ready(window, elapsed)
    }

    /// Takes the window of this number out to be run: the task, and a job for the inputs that
    /// were gathered.
    pub fn take_job(&mut self, window: u64) -> (job: Option<
        (Arc<Batched<B>>, BatchJob<B::Input, B::Output, B::Error>),
    >)
        requires
            old(self).valid(),
        ensures
            final(self).valid(),
            final(self).batched() == old(self).batched(),
            final(self).handle() == old(self).handle(),
            final(self).policy() == old(self).policy(),
            final(self).slot() == old(self).slot().seal(window),
            job is Some <==> old(self).slot().windows.dom().contains(window),
            job is Some ==> {
                let taken = old(self).slot().windows[window];
                &&& *(job->0).0 == taken.executor
                &&& (job->0).1.valid()
                &&& (job->0).1@.valid()
                &&& (job->0).1@.status == JobStatus::Pending
                &&& (job->0).1@.inputs == taken.inputs
                &&& (job->0).1@.pending == Seq::new(taken.inputs.len(), |p: int| p as usize)
                &&& (job->0).1@.members == taken.deliveries.map_values(
                    |delivery: JobDelivery<B::Output, B::Error>| delivery@,
                )
            },
    {
        match self.window.seal(window) {
            Some((executor, inputs, deliveries)) => {
                assert forall|k: int| 0 <= k < deliveries@.len() implies
                    #[trigger] deliveries@[k].valid() && deliveries@[k]@.is_pending() by {
                    assert(deliveries@[k] == old(self).slot().windows[window].deliveries[k]);
                }
                Some((executor, BatchJob::new(inputs, deliveries)))
            },
            None => None,
        }
    }
}

/// Makes a [`Batcher`].
pub struct BatcherBuilder<B, H> {
    queue: H,
    task: B,
    policy: BatchPolicy,
}

impl<B: BatchTask, H> BatcherBuilder<B, H> {
    /// The handle of the queue.
    pub closed spec fn handle(&self) -> H {
        self.queue
    }

    /// The task.
    pub closed spec fn runs(&self) -> B {
        self.task
    }

    /// How large batches may grow, and how long they wait.
    pub closed spec fn chosen(&self) -> BatchPolicy {
        self.policy
    }

    /// A builder for a batcher of batches of one input that do not wait.
    pub fn new(queue: H, task: B) -> (builder: Self)
        ensures
            builder.handle() == queue,
            builder.runs() == task,
            builder.chosen().max_size == 1,
            nanos(builder.chosen().max_wait) == 0,
    {
        BatcherBuilder { queue, task, policy: BatchPolicy::default() }
    }

    /// Sets how large batches may grow, and how long they wait.
    pub fn policy(self, policy: BatchPolicy) -> (builder: Self)
        ensures
            builder.handle() == self.handle(),
            builder.runs() == self.runs(),
            builder.chosen() == policy,
    {
        BatcherBuilder { policy, ..self }
    }

    /// The batcher.
    pub fn build<Q: Queue>(self) -> (batcher: Batcher<B, Q, H>)
        ensures
            batcher.valid(),
            batcher.runs() == self.runs(),
            batcher.handle() == self.handle(),
            batcher.policy() == self.chosen(),
            batcher.slot() == TaskSlotState::<B, Q>::empty(),
    {
        Batcher::new(self.queue, self.task, self.policy)
    }
}

} // verus!
