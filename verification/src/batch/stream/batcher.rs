//! Gathering the inputs of stream batches.

use std::sync::Arc;
use std::time::Duration;

use vstd::prelude::*;

use crate::batch::stream::member::{StreamBatchContext, StreamDelivery};
use crate::batch::stream::mode::StreamBatchMode;
use crate::batch::window::{offered, BatchPolicy, Joined, Readiness, SlotState, WindowSlot};
use crate::error::Error;
use crate::future::{connected, valid_capacity, JobStreamHandle};
use crate::job_queue::JobStreamOptions;
use crate::queue::traits::Queue;
use crate::signal::listens;
use crate::time::nanos;

verus! {

/// A task and the way its batches are run.
pub struct StreamBatchExecutor<B, M> {
    task: B,
    mode: M,
}

impl<B, M> StreamBatchExecutor<B, M> {
    /// The task.
    pub closed spec fn runs(&self) -> B {
        self.task
    }

    /// The way its batches are run.
    pub closed spec fn by(&self) -> M {
        self.mode
    }

    /// Pairs a task with a way of running its batches.
    pub fn new(task: B, mode: M) -> (executor: Self)
        ensures
            executor.runs() == task,
            executor.by() == mode,
    {
        StreamBatchExecutor { task, mode }
    }

    /// The task.
    pub fn task(&self) -> (task: &B)
        ensures
            *task == self.runs(),
    {
        &self.task
    }

    /// The way its batches are run.
    pub fn mode(&self) -> (mode: &M)
        ensures
            *mode == self.by(),
    {
        &self.mode
    }
}

/// Gathers inputs for a stream batch task. It reaches the queue through a handle of type `H`, and
/// delivers to the consumers through deliveries of type `D`.
#[verifier::reject_recursive_types(B)]
#[verifier::reject_recursive_types(M)]
#[verifier::reject_recursive_types(Q)]
#[verifier::reject_recursive_types(D)]
pub struct StreamBatcher<B, M: StreamBatchMode<B>, Q: Queue, H, D> {
    executor: Arc<StreamBatchExecutor<B, M>>,
    queue: H,
    policy: BatchPolicy,
    window: WindowSlot<StreamBatchExecutor<B, M>, M::Input, D, Q::Options>,
}

/// The delivery of one input of a stream batch of mode `M`.
pub type ModeDelivery<B, M> = StreamDelivery<
    <M as StreamBatchMode<B>>::Item,
    <M as StreamBatchMode<B>>::Error,
>;

impl<B, M: StreamBatchMode<B>, Q: Queue, H, D> StreamBatcher<B, M, Q, H, D> {
    /// The task and the way its batches are run.
    pub closed spec fn executes(&self) -> StreamBatchExecutor<B, M> {
        *self.executor
    }

    /// The handle of the queue.
    pub closed spec fn handle(&self) -> H {
        self.queue
    }

    /// How large batches may grow, and how long they wait.
    pub closed spec fn policy(&self) -> BatchPolicy {
        self.policy
    }

    /// The windows.
    pub closed spec fn slot(&self) -> SlotState<
        StreamBatchExecutor<B, M>,
        M::Input,
        D,
        Q::Options,
    > {
        self.window@
    }

    /// What holds of every batcher.
    pub open spec fn valid(&self) -> bool {
        self.slot().valid()
    }

    /// Whether nothing but the windows differs from `other`.
    pub open spec fn same_but_windows(&self, other: &Self) -> bool {
        &&& self.executes() == other.executes()
        &&& self.handle() == other.handle()
        &&& self.policy() == other.policy()
    }

    /// A batcher without inputs.
    pub fn new(queue: H, task: B, mode: M, policy: BatchPolicy) -> (batcher: Self)
        ensures
            batcher.valid(),
            batcher.executes().runs() == task,
            batcher.executes().by() == mode,
            batcher.handle() == queue,
            batcher.policy() == policy,
            batcher.slot() == SlotState::<
                StreamBatchExecutor<B, M>,
                M::Input,
                D,
                Q::Options,
            >::empty(),
    {
        StreamBatcher {
            executor: Arc::new(StreamBatchExecutor::new(task, mode)),
            queue,
            policy,
            window: WindowSlot::new(),
        }
    }

    /// The handle of the queue.
    pub fn queue(&self) -> (queue: &H)
        ensures
            *queue == self.handle(),
    {
        &self.queue
    }

    /// Whether there is no number left for another window.
    pub fn is_exhausted(&self) -> (exhausted: bool)
        ensures
            exhausted == (self.slot().next >= u64::MAX),
    {
        self.window.is_exhausted()
    }

    /// A stream for one input: the consumer's handle, and the delivery. A consumer that leaves
    /// cancels its stream. Fails where a stream cannot have the capacity.
    pub fn open_stream(capacity: usize) -> (made: Result<
        (JobStreamHandle<M::Item, M::Error>, ModeDelivery<B, M>),
        Error<M::Error>,
    >)
        ensures
            made is Ok <==> valid_capacity(capacity as int),
            made is Ok ==> {
                &&& made->Ok_0.1.sent().len() == 0
                &&& connected(
                    made->Ok_0.0,
                    made->Ok_0.1.end(),
                    made->Ok_0.1.life(),
                    capacity,
                    Some(Error::<M::Error>::ConsumerCancelled),
                )
            },
            made is Err ==> made->Err_0 == Error::<M::Error>::InvalidStreamCapacity(capacity),
    {
        match JobStreamHandle::new(capacity, Some(Error::consumer_cancelled())) {
            Ok((handle, setter)) => Ok((handle, StreamDelivery::new(setter))),
            Err(error) => Err(error),
        }
    }

    /// Offers an input with its delivery. An input that opens a window has to be followed by a
    /// job for that window in the queue; `awaited` says whether somebody waits for the queue's
    /// answer on the window that inputs join.
    pub fn join(
        &mut self,
        input: M::Input,
        queue_options: Option<Q::Options>,
        delivery: D,
        awaited: bool,
    ) -> (joined: Joined<Q::Options>) where Q::Options: Clone + PartialEq
        requires
            old(self).valid(),
            old(self).slot().next < u64::MAX,
        ensures
            final(self).valid(),
            final(self).same_but_windows(old(self)),
            offered(
                old(self).slot(),
                awaited,
                old(self).executes(),
                old(self).policy(),
                queue_options,
                input,
                delivery,
                final(self).slot(),
                joined,
            ),
    {
        self.window.join(&self.executor, self.policy, queue_options, input, delivery, awaited)
    }

    /// Records the queue's answer on the window of this number.
    pub fn answered(&mut self, window: u64, accepted: bool)
        requires
            old(self).valid(),
        ensures
            final(self).valid(),
            final(self).same_but_windows(old(self)),
            final(self).slot() == if accepted {
                old(self).slot().accept(window)
            } else {
                old(self).slot().evict(window)
            },
    {
        self.window.answered(window, accepted);
    }

    /// Records that nobody waits any more for the queue's answer on the window of this number.
    pub fn abandoned(&mut self, window: u64)
        requires
            old(self).valid(),
        ensures
            final(self).valid(),
            final(self).same_but_windows(old(self)),
            final(self).slot() == old(self).slot().abandon(window),
    {
        self.window.abandon(window);
    }

    /// What to wait for before the window of this number is run, as [`WindowSlot::ready`] says.
    pub fn ready(&self, window: u64, elapsed: Duration) -> (readiness: Readiness)
        ensures
            readiness is Now <==> !self.slot().windows.dom().contains(window)
                || self.slot().windows[window].sealed || nanos(
                self.slot().windows[window].policy.max_wait,
            ) <= nanos(elapsed),
            readiness is Wait ==> {
                &&& nanos(readiness->remaining) == nanos(
                    self.slot().windows[window].policy.max_wait,
                ) - nanos(elapsed)
                &&& listens(self.slot().windows[window].signal.event, readiness->sealed)
            },
    {
        self.window.ready(window, elapsed)
    }

    /// Takes the window of this number out to be run.
    pub fn seal(&mut self, window: u64) -> (gathered: Option<
        (Arc<StreamBatchExecutor<B, M>>, Vec<M::Input>, Vec<D>),
    >)
        requires
            old(self).valid(),
        ensures
            final(self).valid(),
            final(self).same_but_windows(old(self)),
            final(self).slot() == old(self).slot().seal(window),
            gathered is Some <==> old(self).slot().windows.dom().contains(window),
            gathered is Some ==> {
                &&& *(gathered->0).0 == old(self).slot().windows[window].executor
                &&& (gathered->0).1@ == old(self).slot().windows[window].inputs
                &&& (gathered->0).2@ == old(self).slot().windows[window].deliveries
            },
    {
        self.window.seal(window)
    }
}

impl<B, M: StreamBatchMode<B>, Q: Queue, H> StreamBatcher<B, M, Q, H, ModeDelivery<B, M>> {
    /// Offers an input, and gives the handle of its stream. Nothing is offered where a stream
    /// cannot have the capacity.
    pub fn enqueue(&mut self, options: JobStreamOptions<M::Input, Q>, awaited: bool) -> (made: Result<
        (JobStreamHandle<M::Item, M::Error>, Joined<Q::Options>),
        Error<M::Error>,
    >) where Q::Options: Clone + PartialEq
        requires
            old(self).valid(),
            old(self).slot().next < u64::MAX,
        ensures
            final(self).valid(),
            final(self).same_but_windows(old(self)),
            made is Ok <==> valid_capacity(options.capacity as int),
            made is Err ==> {
                &&& made->Err_0 == Error::<M::Error>::InvalidStreamCapacity(options.capacity)
                &&& final(self).slot() == old(self).slot()
            },
            made is Ok ==> {
                exists|delivery: ModeDelivery<B, M>|
                    {
                        &&& delivery.sent().len() == 0
                        &&& connected(
                            made->Ok_0.0,
                            delivery.end(),
                            delivery.life(),
                            options.capacity,
                            Some(Error::<M::Error>::ConsumerCancelled),
                        )
                        &&& #[trigger] offered(
                            old(self).slot(),
                            awaited,
                            old(self).executes(),
                            old(self).policy(),
                            options.queue_options,
                            options.task,
                            delivery,
                            final(self).slot(),
                            made->Ok_0.1,
                        )
                    }
            },
    {
        let (input, capacity, queue_options) = options.into_parts();
        match Self::open_stream(capacity) {
            Ok((handle, delivery)) => {
                let joined = self.join(input, queue_options, delivery, awaited);
                let made = Ok((handle, joined));
                assert(offered(
                    old(self).slot(),
                    awaited,
                    old(self).executes(),
                    old(self).policy(),
                    options.queue_options,
                    options.task,
                    delivery,
                    self.slot(),
                    made->Ok_0.1,
                ));
                made
            },
            Err(error) => Err(error),
        }
    }

    /// Takes the window of this number out to be run: the task, the inputs, and the members.
    pub fn take_batch(&mut self, window: u64) -> (batch: Option<
        (
            Arc<StreamBatchExecutor<B, M>>,
            Vec<M::Input>,
            StreamBatchContext<M::Item, M::Error>,
        ),
    >)
        requires
            old(self).valid(),
        ensures
            final(self).valid(),
            final(self).same_but_windows(old(self)),
            final(self).slot() == old(self).slot().seal(window),
            batch is Some <==> old(self).slot().windows.dom().contains(window),
            batch is Some ==> {
                let taken = old(self).slot().windows[window];
                &&& *(batch->0).0 == taken.executor
                &&& (batch->0).1@ == taken.inputs
                &&& (batch->0).2@.len() == taken.inputs.len()
                &&& forall|i: int|
                    0 <= i < taken.inputs.len() ==> {
                        &&& (#[trigger] (batch->0).2@[i]).end == taken.deliveries[i].end()
                        &&& (batch->0).2@[i].sent == taken.deliveries[i].sent()
                        &&& (batch->0).2@[i].life == taken.deliveries[i].life()
                    }
            },
    {
        match self.seal(window) {
            Some((executor, inputs, deliveries)) => Some(
                (executor, inputs, StreamBatchContext::new(deliveries)),
            ),
            None => None,
        }
    }
}

/// Makes a [`StreamBatcher`].
pub struct StreamBatcherBuilder<B, M, H> {
    queue: H,
    task: B,
    policy: BatchPolicy,
    mode: M,
}

impl<B, H> StreamBatcherBuilder<B, (), H> {
    /// A builder for a batcher of batches of one input that do not wait, without a way of
    /// running them.
    pub fn new(queue: H, task: B) -> (builder: Self)
        ensures
            builder.handle() == queue,
            builder.runs() == task,
            builder.chosen().max_size == 1,
            nanos(builder.chosen().max_wait) == 0,
    {
        StreamBatcherBuilder { queue, task, policy: BatchPolicy::default(), mode: () }
    }
}

impl<B, M, H> StreamBatcherBuilder<B, M, H> {
    /// The handle of the queue.
    pub closed spec fn handle(&self) -> H {
        self.queue
    }

    /// The task.
    pub closed spec fn runs(&self) -> B {
        self.task
    }

    /// How large batches may grow, and how long they wait.
    pub closed spec fn chosen(&self) -> BatchPolicy {
        self.policy
    }

    /// The way batches are run.
    pub closed spec fn by(&self) -> M {
        self.mode
    }

    /// Sets how large batches may grow, and how long they wait.
    pub fn policy(self, policy: BatchPolicy) -> (builder: Self)
        ensures
            builder.handle() == self.handle(),
            builder.runs() == self.runs(),
            builder.by() == self.by(),
            builder.chosen() == policy,
    {
        StreamBatcherBuilder { policy, ..self }
    }

    /// Sets the way batches are run.
    pub fn mode<N: StreamBatchMode<B>>(self, mode: N) -> (builder: StreamBatcherBuilder<B, N, H>)
        ensures
            builder.handle() == self.handle(),
            builder.runs() == self.runs(),
            builder.by() == mode,
            builder.chosen() == self.chosen(),
    {
        StreamBatcherBuilder { queue: self.queue, task: self.task, policy: self.policy, mode }
    }

    /// The batcher.
    pub fn build<Q: Queue, D>(self) -> (batcher: StreamBatcher<B, M, Q, H, D>) where
        M: StreamBatchMode<B>,

        ensures
            batcher.valid(),
            batcher.executes().runs() == self.runs(),
            batcher.executes().by() == self.by(),
            batcher.handle() == self.handle(),
            batcher.policy() == self.chosen(),
            batcher.slot() == SlotState::<
                StreamBatchExecutor<B, M>,
                M::Input,
                D,
                Q::Options,
            >::empty(),
    {
        StreamBatcher::new(self.queue, self.task, self.mode, self.policy)
    }
}

/// Whatever is done with a batcher, its task, the way its batches are run, the queue and the policy
/// stay as they are.
pub proof fn batcher_keeps_to_its_policy<B, M: StreamBatchMode<B>, Q: Queue, H, D>(
    before: StreamBatcher<B, M, Q, H, D>,
    after: StreamBatcher<B, M, Q, H, D>,
)
    requires
        after.same_but_windows(&before),
    ensures
        after.executes().runs() == before.executes().runs(),
        after.executes().by() == before.executes().by(),
        after.handle() == before.handle(),
        after.policy() == before.policy(),
{
}

} // verus!
