//! Workers, and the pool that they form.

use std::collections::VecDeque;
use std::marker::PhantomData;
use std::sync::Arc;
use std::time::Duration;

use event_listener::{Event, EventListener};
use vstd::prelude::*;

use crate::error::Error;
use crate::lifecycle::CloseSignal;
use crate::signal::{listens, notified};
use crate::time::nanos;

verus! {

/// A worker that takes jobs from the queue that it reaches through a handle of type `H`.
pub trait Worker<H>: Sized {
    /// How the worker can be configured.
    type Options;

    /// The number of the worker.
    spec fn number(&self) -> usize;

    /// The handle of the queue that it takes jobs from.
    spec fn handle(&self) -> H;

    /// How it was configured.
    spec fn configured(&self) -> Self::Options;

    /// The number of the worker.
    fn id(&self) -> (id: usize)
        ensures
            id == self.number(),
    ;

    /// Makes a worker.
    fn create(id: usize, queue: H, options: Self::Options) -> (worker: Self)
        ensures
            worker.number() == id,
            worker.handle() == queue,
            worker.configured() == options,
    ;
}

/// What happens to a worker whose work is `J`.
pub enum WorkerEvent<J> {
    /// It has nothing to do: it has just begun, or has done its work.
    Idle,
    /// It was asked to stop.
    Shutdown,
    /// It got work.
    Work(J),
    /// It got nothing: the queue is closed, or failed.
    Nothing,
}

/// What a worker does next.
pub enum WorkerAction<J> {
    /// Stop.
    Stop,
    /// Do the work.
    Execute(J),
    /// Ask the queue for work, and wait for it or to be asked to stop.
    Wait,
}

/// What a worker that runs jobs one at a time does about an event, when it was asked to stop or
/// not: it runs the job that it got, and asks for another until it is asked to stop.
pub open spec fn job_action<J>(stopping: bool, event: WorkerEvent<J>) -> WorkerAction<J> {
    match event {
        WorkerEvent::Shutdown => WorkerAction::Stop,
        WorkerEvent::Work(job) => WorkerAction::Execute(job),
        _ => if stopping {
            WorkerAction::Stop
        } else {
            WorkerAction::Wait
        },
    }
}

/// What a worker that runs jobs in batches does about an event, when it was asked to stop or not:
/// it runs the jobs that it gathered, if there are any, and gathers others until it is asked to
/// stop.
pub open spec fn batch_action<J>(stopping: bool, event: WorkerEvent<Vec<J>>) -> WorkerAction<
    Vec<J>,
> {
    match event {
        WorkerEvent::Work(jobs) if jobs@.len() == 0 => job_action(stopping, WorkerEvent::Nothing),
        _ => job_action(stopping, event),
    }
}

/// What happened to a worker that asked the queue for a job.
pub fn worker_event<J, S>(answer: Result<Option<J>, Error<S>>) -> (event: WorkerEvent<J>)
    ensures
        event == match answer {
            Ok(Some(job)) => WorkerEvent::Work(job),
            _ => WorkerEvent::<J>::Nothing,
        },
{
    match answer {
        Ok(Some(job)) => WorkerEvent::Work(job),
        _ => WorkerEvent::Nothing,
    }
}

/// A worker that runs jobs one at a time.
pub struct JobWorker<H> {
    id: usize,
    queue: H,
    shutdown: CloseSignal,
}

impl<H> JobWorker<H> {
    /// Whether the worker was asked to stop.
    pub closed spec fn stopping(&self) -> bool {
        self.shutdown.is_up()
    }

    /// The event that those who wait for the worker to be asked to stop listen to.
    pub closed spec fn stop_event(&self) -> Event {
        self.shutdown.signal().event
    }

    /// The handle of the queue that the worker takes jobs from.
    pub fn queue(&self) -> (queue: &H)
        ensures
            *queue == self.handle(),
    {
        &self.queue
    }

    /// What to wait for before the worker is asked to stop: nothing, once it was.
    pub fn shutdown_requested(&self) -> (wait: Option<EventListener>)
        ensures
            wait is None <==> self.stopping(),
            wait is Some ==> listens(self.stop_event(), wait->0),
    {
        self.shutdown.closed()
    }

    /// Asks the worker to stop.
    pub fn shutdown(&mut self)
        ensures
            final(self).stopping(),
            final(self).stop_event() == old(self).stop_event(),
            !old(self).stopping() ==> notified(old(self).stop_event(), usize::MAX),
            final(self).number() == old(self).number(),
            final(self).handle() == old(self).handle(),
    {
        self.shutdown.close();
    }

    /// What the worker does about an event: it runs the job that it got, and asks for another
    /// until it is asked to stop.
    pub fn run<J>(&self, event: WorkerEvent<J>) -> (action: WorkerAction<J>)
        ensures
            action == job_action(self.stopping(), event),
    {
        match event {
            WorkerEvent::Shutdown => WorkerAction::Stop,
            WorkerEvent::Work(job) => WorkerAction::Execute(job),
            _ => if self.shutdown.is_closed() {
                WorkerAction::Stop
            } else {
                WorkerAction::Wait
            },
        }
    }
}

impl<H> Worker<H> for JobWorker<H> {
    type Options = ();

    closed spec fn number(&self) -> usize {
        self.id
    }

    closed spec fn handle(&self) -> H {
        self.queue
    }

    open spec fn configured(&self) -> () {
        ()
    }

    fn id(&self) -> (id: usize) {
        self.id
    }

    fn create(id: usize, queue: H, _options: ()) -> (worker: Self)
        ensures
            !worker.stopping(),
    {
        JobWorker { id, queue, shutdown: CloseSignal::new() }
    }
}

/// How a [`BatchJobWorker`] gathers jobs.
#[derive(Debug, Clone, Copy)]
pub struct BatchJobWorkerOptions {
    /// How many jobs are run together at most.
    pub batch_size: usize,
    /// How long the worker collects jobs for a batch. After that it runs those that it has, even
    /// if it could take more.
    pub batch_timeout: Duration,
}

impl Default for BatchJobWorkerOptions {
    /// Four jobs, and fifty milliseconds.
    fn default() -> (options: Self)
        ensures
            options.batch_size == 4,
            nanos(options.batch_timeout) == 50_000_000,
    {
        BatchJobWorkerOptions { batch_size: 4, batch_timeout: Duration::from_millis(50) }
    }
}

/// What the queue gives a worker that collects a batch.
pub struct Arrival<J> {
    /// How long after the worker began to collect the queue gives it.
    pub at: Duration,
    /// The job, or nothing where the queue is closed or failed.
    pub job: Option<J>,
}

impl<J> Arrival<J> {
    /// Whether this is a job that comes in time for a batch that is collected for `timeout`
    /// nanoseconds.
    pub open spec fn in_time(self, timeout: nat) -> bool {
        self.job is Some && nanos(self.at) <= timeout
    }
}

/// The jobs of a batch: those that come one after the other from the queue, up to the first time
/// that none came within the time for collecting the batch, and no more than `size`.
pub open spec fn gathered<J>(arrivals: Seq<Arrival<J>>, size: int, timeout: nat) -> Seq<J>
    decreases size,
{
    if size <= 0 || arrivals.len() == 0 || !arrivals[0].in_time(timeout) {
        Seq::empty()
    } else {
        seq![arrivals[0].job->0] + gathered(arrivals.skip(1), size - 1, timeout)
    }
}

/// Jobs that are gathered to be run together.
pub struct JobBatch<J> {
    jobs: Vec<J>,
    size: usize,
    timeout: Duration,
    over: bool,
}

impl<J> JobBatch<J> {
    /// The jobs that were gathered.
    pub closed spec fn jobs(&self) -> Seq<J> {
        self.jobs@
    }

    /// How many jobs are gathered at most.
    pub closed spec fn size(&self) -> int {
        self.size as int
    }

    /// How long the batch is collected.
    pub closed spec fn timeout(&self) -> Duration {
        self.timeout
    }

    /// Whether no job came that could be added.
    pub closed spec fn is_over(&self) -> bool {
        self.over
    }

    /// A batch without jobs.
    pub fn new(size: usize, timeout: Duration) -> (batch: Self)
        ensures
            batch.jobs() == Seq::<J>::empty(),
            batch.size() == size,
            batch.timeout() == timeout,
            !batch.is_over(),
    {
        JobBatch { jobs: Vec::new(), size, timeout, over: false }
    }

    /// How long to wait for one more job, when the batch has been collected for `elapsed`: for
    /// what is left of the time for the whole batch. A batch that is full or over waits for none.
    pub fn wait(&self, elapsed: Duration) -> (remaining: Option<Duration>)
        ensures
            remaining is Some <==> !self.is_over() && self.jobs().len() < self.size(),
            remaining is Some ==> nanos(remaining->0) == if nanos(elapsed) <= nanos(self.timeout()) {
                nanos(self.timeout()) - nanos(elapsed)
            } else {
                0
            },
    {
        if !self.over && self.jobs.len() < self.size {
            Some(self.timeout.saturating_sub(elapsed))
        } else {
            None
        }
    }

    /// Adds the job that the queue gave, or stops where it gave none in time.
    pub fn offer(&mut self, answer: Option<J>)
        ensures
            final(self).size() == old(self).size(),
            final(self).timeout() == old(self).timeout(),
            match answer {
                Some(job) => {
                    &&& final(self).jobs() == old(self).jobs().push(job)
                    &&& final(self).is_over() == old(self).is_over()
                },
                None => {
                    &&& final(self).jobs() == old(self).jobs()
                    &&& final(self).is_over()
                },
            },
    {
        match answer {
            Some(job) => {
                self.jobs.push(job);
            },
            None => {
                self.over = true;
            },
        }
    }

    /// The jobs that were gathered.
    pub fn into_jobs(self) -> (jobs: Vec<J>)
        ensures
            jobs@ == self.jobs(),
    {
        self.jobs
    }
}

/// A worker that runs jobs in batches.
pub struct BatchJobWorker<H> {
    id: usize,
    queue: H,
    options: BatchJobWorkerOptions,
    shutdown: CloseSignal,
}

impl<H> BatchJobWorker<H> {
    /// Whether the worker was asked to stop.
    pub closed spec fn stopping(&self) -> bool {
        self.shutdown.is_up()
    }

    /// The event that those who wait for the worker to be asked to stop listen to.
    pub closed spec fn stop_event(&self) -> Event {
        self.shutdown.signal().event
    }

    /// Makes a worker.
    pub fn new(id: usize, queue: H, options: BatchJobWorkerOptions) -> (worker: Self)
        ensures
            worker.number() == id,
            worker.handle() == queue,
            worker.configured() == options,
            !worker.stopping(),
    {
        BatchJobWorker { id, queue, options, shutdown: CloseSignal::new() }
    }

    /// The handle of the queue that the worker takes jobs from.
    pub fn queue(&self) -> (queue: &H)
        ensures
            *queue == self.handle(),
    {
        &self.queue
    }

    /// How the worker was configured.
    pub fn options(&self) -> (options: BatchJobWorkerOptions)
        ensures
            options == self.configured(),
    {
        self.options
    }

    /// What to wait for before the worker is asked to stop: nothing, once it was.
    pub fn shutdown_requested(&self) -> (wait: Option<EventListener>)
        ensures
            wait is None <==> self.stopping(),
            wait is Some ==> listens(self.stop_event(), wait->0),
    {
        self.shutdown.closed()
    }

    /// Asks the worker to stop.
    pub fn shutdown(&mut self)
        ensures
            final(self).stopping(),
            final(self).stop_event() == old(self).stop_event(),
            !old(self).stopping() ==> notified(old(self).stop_event(), usize::MAX),
            final(self).number() == old(self).number(),
            final(self).handle() == old(self).handle(),
            final(self).configured() == old(self).configured(),
    {
        self.shutdown.close();
    }

    /// Collects a batch from what the queue gives, in order. What it gives after the time for
    /// collecting the batch is up, or after the end of the batch, is not looked at.
    pub fn collect_batch<J>(
        &self,
        batch_size: usize,
        batch_timeout: Duration,
        arrivals: VecDeque<Arrival<J>>,
    ) -> (jobs: Vec<J>)
        ensures
            jobs@ == gathered(arrivals@, batch_size as int, nanos(batch_timeout)),
    {
        let ghost timeout = nanos(batch_timeout);
        let ghost all = gathered(arrivals@, batch_size as int, timeout);
        let mut batch: JobBatch<J> = JobBatch::new(batch_size, batch_timeout);
        let mut pending = arrivals;
        let mut elapsed = Duration::from_millis(0);
        assert(batch.jobs() + gathered(pending@, batch_size as int, timeout) =~= all);
        loop
            invariant
                timeout == nanos(batch_timeout),
                all == gathered(arrivals@, batch_size as int, timeout),
                batch.size() == batch_size,
                batch.timeout() == batch_timeout,
                batch.jobs().len() <= batch_size,
                nanos(elapsed) <= timeout,
                batch.is_over() ==> batch.jobs() == all,
                !batch.is_over() ==> batch.jobs() + gathered(
                    pending@,
                    batch_size - batch.jobs().len(),
                    timeout,
                ) == all,
            ensures
                batch.is_over() || batch.jobs().len() >= batch_size,
            decreases batch_size - batch.jobs().len(),
                (if batch.is_over() {
                    0int
                } else {
                    1int
                }),
        {
            let remaining = match batch.wait(elapsed) {
                Some(remaining) => remaining,
                None => {
                    break;
                },
            };
            let ghost before = batch.jobs();
            let ghost rest = pending@;
            let answer = match pending.pop_front() {
                Some(arrival) => {
                    assert(pending@ =~= rest.skip(1));
                    let waited = arrival.at.saturating_sub(elapsed);
                    if arrival.job.is_some() && waited.as_nanos() <= remaining.as_nanos() {
                        elapsed = arrival.at;
                        arrival.job
                    } else {
                        None
                    }
                },
                None => None,
            };
            proof {
                if answer is Some {
                    assert(before.push(answer->0) + gathered(
                        pending@,
                        batch_size - before.len() - 1,
                        timeout,
                    ) =~= before + gathered(rest, batch_size - before.len(), timeout));
                } else {
                    assert(before + gathered(rest, batch_size - before.len(), timeout) =~= before);
                }
            }
            batch.offer(answer);
        }
        assert(!batch.is_over() ==> batch.jobs() + gathered(
            pending@,
            batch_size - batch.jobs().len(),
            timeout,
        ) =~= batch.jobs());
        batch.into_jobs()
    }

    /// What the worker does about an event: it runs the jobs that it gathered, if there are any,
    /// and gathers others until it is asked to stop.
    pub fn run<J>(&self, event: WorkerEvent<Vec<J>>) -> (action: WorkerAction<Vec<J>>)
        ensures
            action == batch_action(self.stopping(), event),
    {
        match event {
            WorkerEvent::Shutdown => {
                return WorkerAction::Stop;
            },
            WorkerEvent::Work(jobs) => {
                if jobs.len() > 0 {
                    return WorkerAction::Execute(jobs);
                }
            },
            _ => {},
        }
        if self.shutdown.is_closed() {
            WorkerAction::Stop
        } else {
            WorkerAction::Wait
        }
    }
}

impl<H> Worker<H> for BatchJobWorker<H> {
    type Options = BatchJobWorkerOptions;

    closed spec fn number(&self) -> usize {
        self.id
    }

    closed spec fn handle(&self) -> H {
        self.queue
    }

    closed spec fn configured(&self) -> BatchJobWorkerOptions {
        self.options
    }

    fn id(&self) -> (id: usize) {
        self.id
    }

    fn create(id: usize, queue: H, options: BatchJobWorkerOptions) -> (worker: Self) {
        BatchJobWorker::new(id, queue, options)
    }
}

/// A pool of workers that take jobs from the same queue.
pub struct WorkerPool<H, W: Worker<H>> {
    workers: Vec<Arc<W>>,
    _marker: PhantomData<H>,
}

impl<H, W: Worker<H>> View for WorkerPool<H, W> {
    type V = Seq<Arc<W>>;

    /// The workers of the pool, in order.
    closed spec fn view(&self) -> Seq<Arc<W>> {
        self.workers@
    }
}

impl<H, W: Worker<H>> WorkerPool<H, W> {
    /// A pool of the given workers.
    pub fn new(workers: Vec<Arc<W>>) -> (pool: Self)
        ensures
            pool@ == workers@,
    {
        WorkerPool { workers, _marker: PhantomData }
    }

    /// The workers of the pool.
    pub fn workers(&self) -> (workers: &[Arc<W>])
        ensures
            workers@ == self@,
    {
        self.workers.as_slice()
    }

    /// The number of workers in the pool.
    pub fn num_workers(&self) -> (count: usize)
        ensures
            count == self@.len(),
    {
        self.workers.len()
    }

    /// The first worker of this number, if there is one.
    pub fn get_worker(&self, id: usize) -> (found: Option<Arc<W>>)
        ensures
            match found {
                Some(worker) => exists|i: int|
                    {
                        &&& 0 <= i < self@.len()
                        &&& #[trigger] self@[i] == worker
                        &&& worker.number() == id
                        &&& forall|j: int| 0 <= j < i ==> (#[trigger] self@[j]).number() != id
                    },
                None => forall|i: int|
                    0 <= i < self@.len() ==> (#[trigger] self@[i]).number() != id,
            },
    {
        let mut i: usize = 0;
        while i < self.workers.len()
            invariant
                i <= self.workers@.len(),
                forall|j: int| 0 <= j < i ==> (#[trigger] self@[j]).number() != id,
            decreases self.workers@.len() - i,
        {
            if self.workers[i].id() == id {
                assert(self@[i as int].number() == id);
                return Some(self.workers[i].clone());
            }
            i += 1;
        }
        None
    }

    /// A builder for a pool.
    pub fn builder() -> (builder: WorkerPoolBuilder<H, W>)
        ensures
            builder.num_workers() == 1,
            builder.options() is None,
            builder.queue() is None,
    {
        WorkerPoolBuilder::new()
    }
}

/// Makes a [`WorkerPool`].
pub struct WorkerPoolBuilder<H, W: Worker<H>> {
    num_workers: usize,
    worker_options: Option<W::Options>,
    queue: Option<H>,
}

impl<H, W: Worker<H>> Default for WorkerPoolBuilder<H, W> {
    fn default() -> (builder: Self)
        ensures
            builder.num_workers() == 1,
            builder.options() is None,
            builder.queue() is None,
    {
        WorkerPoolBuilder::new()
    }
}

impl<H, W: Worker<H>> WorkerPoolBuilder<H, W> {
    /// How many workers the pool will have.
    pub closed spec fn num_workers(&self) -> usize {
        self.num_workers
    }

    /// How the workers will be configured, unless by default.
    pub closed spec fn options(&self) -> Option<W::Options> {
        self.worker_options
    }

    /// The handle of the queue that they will take jobs from.
    pub closed spec fn queue(&self) -> Option<H> {
        self.queue
    }

    /// A builder for a pool of one worker.
    pub fn new() -> (builder: Self)
        ensures
            builder.num_workers() == 1,
            builder.options() is None,
            builder.queue() is None,
    {
        WorkerPoolBuilder { num_workers: 1, worker_options: None, queue: None }
    }

    /// Sets how many workers the pool will have.
    pub fn with_num_workers(self, num_workers: usize) -> (builder: Self)
        ensures
            builder.num_workers() == num_workers,
            builder.options() == self.options(),
            builder.queue() == self.queue(),
    {
        WorkerPoolBuilder { num_workers, ..self }
    }

    /// Sets how the workers will be configured.
    pub fn with_options(self, options: W::Options) -> (builder: Self)
        ensures
            builder.num_workers() == self.num_workers(),
            builder.options() == Some(options),
            builder.queue() == self.queue(),
    {
        WorkerPoolBuilder { worker_options: Some(options), ..self }
    }

    /// Sets the handle of the queue that the workers will take jobs from.
    pub fn with_queue(self, queue: H) -> (builder: Self)
        ensures
            builder.num_workers() == self.num_workers(),
            builder.options() == self.options(),
            builder.queue() == Some(queue),
    {
        WorkerPoolBuilder { queue: Some(queue), ..self }
    }

    /// The pool: as many workers as were asked for, numbered from zero on, each with a handle of
    /// the queue and the options that were set, or else the default.
    pub fn build(self) -> (pool: Arc<WorkerPool<H, W>>) where H: Clone, W::Options: Clone + Default
        requires
            self.num_workers() > 0 ==> self.queue() is Some,
        ensures
            pool@.len() == self.num_workers(),
            forall|i: int|
                0 <= i < pool@.len() ==> {
                    &&& (#[trigger] pool@[i]).number() == i
                    &&& cloned(self.queue()->0, pool@[i].handle())
                    &&& match self.options() {
                        Some(options) => cloned(options, pool@[i].configured()),
                        None => call_ensures(W::Options::default, (), pool@[i].configured()),
                    }
                },
    {
        let mut workers: Vec<Arc<W>> = Vec::new();
        let count: usize = self.num_workers;
        for id in 0..count
            invariant
                count == self.num_workers,
                self.num_workers() > 0 ==> self.queue() is Some,
                workers@.len() == id,
                forall|i: int|
                    0 <= i < workers@.len() ==> {
                        &&& (#[trigger] workers@[i]).number() == i
                        &&& cloned(self.queue()->0, workers@[i].handle())
                        &&& match self.options() {
                            Some(options) => cloned(options, workers@[i].configured()),
                            None => call_ensures(W::Options::default, (), workers@[i].configured()),
                        }
                    },
        {
            let queue = self.queue.as_ref().unwrap().clone();
            let options = match &self.worker_options {
                Some(options) => options.clone(),
                None => W::Options::default(),
            };
            workers.push(Arc::new(W::create(id, queue, options)));
        }
        Arc::new(WorkerPool::new(workers))
    }
}

/// A batch of jobs is no larger than is permitted, and holds the jobs that came first, in order,
/// all of them within the time for collecting the whole batch. It ends before the first time that
/// none came in time.
pub proof fn batch_takes_the_jobs_that_came_first<J>(
    arrivals: Seq<Arrival<J>>,
    size: int,
    timeout: nat,
    i: int,
)
    requires
        0 <= size,
    ensures
        gathered(arrivals, size, timeout).len() <= size,
        gathered(arrivals, size, timeout).len() <= arrivals.len(),
        0 <= i < gathered(arrivals, size, timeout).len() ==> {
            &&& arrivals[i].job == Some(gathered(arrivals, size, timeout)[i])
            &&& nanos(arrivals[i].at) <= timeout
        },
        gathered(arrivals, size, timeout).len() < size && gathered(arrivals, size, timeout).len()
            < arrivals.len() ==> !arrivals[gathered(
            arrivals,
            size,
            timeout,
        ).len() as int].in_time(timeout),
    decreases size,
{
    if !(size <= 0 || arrivals.len() == 0 || !arrivals[0].in_time(timeout)) {
        batch_takes_the_jobs_that_came_first(arrivals.skip(1), size - 1, timeout, i - 1);
    }
}

/// Whether an event can come after an action: nothing comes after a stop, a worker that executes
/// has nothing to do afterwards, and only one that waits is given work.
pub open spec fn follows<J>(action: WorkerAction<J>, event: WorkerEvent<J>) -> bool {
    match action {
        WorkerAction::Stop => false,
        WorkerAction::Execute(_) => event is Idle,
        WorkerAction::Wait => !(event is Idle),
    }
}

/// Whether these are the events of a worker from when it began to run, when `stopping` says of each
/// whether the worker had been asked to stop by then, and what the worker does about it is what
/// `decides` says.
pub open spec fn is_shift<J>(
    decides: spec_fn(bool, WorkerEvent<J>) -> WorkerAction<J>,
    stopping: Seq<bool>,
    events: Seq<WorkerEvent<J>>,
) -> bool {
    &&& stopping.len() == events.len()
    &&& events.len() > 0 ==> events[0] is Idle
    &&& forall|k: int|
        #![trigger events[k]]
        0 < k < events.len() ==> {
            &&& follows(decides(stopping[k - 1], events[k - 1]), events[k])
            &&& stopping[k - 1] ==> stopping[k]
        }
}

/// Once a worker was asked to stop, no event but the end of its work comes any more.
proof fn lemma_shift_ends<J>(
    decides: spec_fn(bool, WorkerEvent<J>) -> WorkerAction<J>,
    stopping: Seq<bool>,
    events: Seq<WorkerEvent<J>>,
    k: int,
    later: int,
)
    requires
        is_shift(decides, stopping, events),
        0 <= k < later < events.len(),
        stopping[k],
        forall|event: WorkerEvent<J>| !(#[trigger] decides(true, event) is Wait),
        decides(true, WorkerEvent::Idle) is Stop,
    ensures
        later == k + 1,
        events[later] is Idle,
{
    let event = events[k + 1];
    assert(!(decides(true, events[k]) is Wait));
    if later > k + 1 {
        let next = events[k + 2];
        assert(follows(decides(stopping[k + 1], events[k + 1]), next));
    }
}

/// A worker that was asked to stop asks for no further job: it does the work that it has got, if
/// any, and stops.
pub proof fn stopping_worker_takes_no_further_job<J>(
    stopping: Seq<bool>,
    events: Seq<WorkerEvent<J>>,
    k: int,
    later: int,
)
    requires
        is_shift(|stop: bool, event: WorkerEvent<J>| job_action(stop, event), stopping, events),
        0 <= k < later < events.len(),
        stopping[k],
    ensures
        !(events[later] is Work),
        events[k] is Work && later == k + 1 && later == events.len() - 1,
        job_action(stopping[later], events[later]) is Stop,
{
    let decides = |stop: bool, event: WorkerEvent<J>| job_action(stop, event);
    lemma_shift_ends(decides, stopping, events, k, events.len() - 1);
    let event = events[k + 1];
}

/// A worker that runs jobs in batches and was asked to stop gathers no further jobs: it runs those
/// that it has gathered, if any, and stops.
pub proof fn stopping_batch_worker_takes_no_further_jobs<J>(
    stopping: Seq<bool>,
    events: Seq<WorkerEvent<Vec<J>>>,
    k: int,
    later: int,
)
    requires
        is_shift(
            |stop: bool, event: WorkerEvent<Vec<J>>| batch_action(stop, event),
            stopping,
            events,
        ),
        0 <= k < later < events.len(),
        stopping[k],
    ensures
        !(events[later] is Work),
        events[k] is Work && later == k + 1 && later == events.len() - 1,
        batch_action(stopping[later], events[later]) is Stop,
{
    let decides = |stop: bool, event: WorkerEvent<Vec<J>>| batch_action(stop, event);
    lemma_shift_ends(decides, stopping, events, k, events.len() - 1);
    let event = events[k + 1];
}

/// In a pool whose workers are numbered from zero on, the worker of a number is the only one of
/// that number.
pub proof fn numbers_identify_workers<H, W: Worker<H>>(workers: Seq<Arc<W>>, i: int, j: int)
    requires
        forall|k: int| 0 <= k < workers.len() ==> (#[trigger] workers[k]).number() == k,
        0 <= i < workers.len(),
        0 <= j < workers.len(),
    ensures
        workers[i].number() == workers[j].number() <==> i == j,
{
}

/// The work that a worker gets by these events, in order.
pub open spec fn work_of<J>(events: Seq<WorkerEvent<J>>) -> Seq<J>
    decreases events.len(),
{
    if events.len() == 0 {
        Seq::empty()
    } else {
        match events.last() {
            WorkerEvent::Work(work) => work_of(events.drop_last()).push(work),
            _ => work_of(events.drop_last()),
        }
    }
}

/// The work that these actions are to do, in order.
pub open spec fn done_by<J>(actions: Seq<WorkerAction<J>>) -> Seq<J>
    decreases actions.len(),
{
    if actions.len() == 0 {
        Seq::empty()
    } else {
        match actions.last() {
            WorkerAction::Execute(work) => done_by(actions.drop_last()).push(work),
            _ => done_by(actions.drop_last()),
        }
    }
}

/// All jobs of several batches, in order.
pub open spec fn jobs_of<J>(batches: Seq<Vec<J>>) -> Seq<J>
    decreases batches.len(),
{
    if batches.len() == 0 {
        Seq::empty()
    } else {
        jobs_of(batches.drop_last()) + batches.last()@
    }
}

/// A job that a worker got is run, whether or not the worker was asked to stop in the meantime, and
/// so is every other, in order: none is lost, none is run twice, and none is run that did not come.
/// A worker without a job asks for one unless it was asked to stop, and only then does it stop.
pub proof fn every_job_that_came_is_run<J>(
    stopping: Seq<bool>,
    events: Seq<WorkerEvent<J>>,
    actions: Seq<WorkerAction<J>>,
)
    requires
        stopping.len() == events.len(),
        actions.len() == events.len(),
        forall|k: int|
            0 <= k < events.len() ==> #[trigger] actions[k] == job_action(stopping[k], events[k]),
    ensures
        done_by(actions) == work_of(events),
        forall|k: int|
            #![trigger actions[k]]
            0 <= k < events.len() ==> match events[k] {
                WorkerEvent::Work(job) => actions[k] == WorkerAction::Execute(job),
                WorkerEvent::Shutdown => actions[k] is Stop,
                _ => if stopping[k] {
                    actions[k] is Stop
                } else {
                    actions[k] is Wait
                },
            },
    decreases events.len(),
{
    if events.len() > 0 {
        let n = events.len() - 1;
        every_job_that_came_is_run(stopping.drop_last(), events.drop_last(), actions.drop_last());
        assert(actions[n] == job_action(stopping[n], events[n]));
    }
}

/// The jobs that a worker gathered are run together, all of them, whether or not the worker was
/// asked to stop in the meantime, and so are those of every other batch, in order: none is lost,
/// none is run twice, and none is run that did not come. A worker without jobs gathers some unless it
/// was asked to stop, and only then does it stop.
pub proof fn every_batch_that_came_is_run<J>(
    stopping: Seq<bool>,
    events: Seq<WorkerEvent<Vec<J>>>,
    actions: Seq<WorkerAction<Vec<J>>>,
)
    requires
        stopping.len() == events.len(),
        actions.len() == events.len(),
        forall|k: int|
            0 <= k < events.len() ==> #[trigger] actions[k] == batch_action(stopping[k], events[k]),
    ensures
        jobs_of(done_by(actions)) == jobs_of(work_of(events)),
        forall|k: int|
            #![trigger actions[k]]
            0 <= k < events.len() ==> match events[k] {
                WorkerEvent::Work(jobs) => if jobs@.len() > 0 {
                    actions[k] == WorkerAction::Execute(jobs)
                } else if stopping[k] {
                    actions[k] is Stop
                } else {
                    actions[k] is Wait
                },
                WorkerEvent::Shutdown => actions[k] is Stop,
                _ => if stopping[k] {
                    actions[k] is Stop
                } else {
                    actions[k] is Wait
                },
            },
    decreases events.len(),
{
    if events.len() > 0 {
        let n = events.len() - 1;
        every_batch_that_came_is_run(stopping.drop_last(), events.drop_last(), actions.drop_last());
        assert(actions[n] == batch_action(stopping[n], events[n]));
        let done = done_by(actions.drop_last());
        let work = work_of(events.drop_last());
        if let WorkerEvent::Work(jobs) = events[n] {
            assert(work.push(jobs).drop_last() =~= work);
            assert(done.push(jobs).drop_last() =~= done);
            if jobs@.len() == 0 {
                assert(jobs_of(work) + jobs@ =~= jobs_of(work));
            }
        }
    }
}

/// A batch is collected until it is full, or a job does not come before the time for the whole batch
/// is up: every job that comes before that is in it, at the place at which it came.
pub proof fn batch_is_full_or_out_of_time<J>(
    arrivals: Seq<Arrival<J>>,
    size: int,
    timeout: nat,
)
    requires
        0 <= size,
    ensures
        ({
            let jobs = gathered(arrivals, size, timeout);
            let n = jobs.len() as int;
            &&& n <= size
            &&& n <= arrivals.len()
            &&& forall|i: int|
                0 <= i < n ==> arrivals[i].job == Some(#[trigger] jobs[i]) && nanos(arrivals[i].at)
                    <= timeout
            &&& n == size || n == arrivals.len() || arrivals[n].job is None || nanos(
                arrivals[n].at,
            ) > timeout
        }),
{
    let jobs = gathered(arrivals, size, timeout);
    batch_takes_the_jobs_that_came_first(arrivals, size, timeout, 0);
    assert forall|i: int| 0 <= i < jobs.len() implies arrivals[i].job == Some(#[trigger] jobs[i])
        && nanos(arrivals[i].at) <= timeout by {
        batch_takes_the_jobs_that_came_first(arrivals, size, timeout, i);
    }
}

} // verus!
