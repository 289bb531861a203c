//! What a worker can execute, and the results of executing tasks.

use vstd::prelude::*;

use crate::batch::job::BatchJob;
use crate::error::Error;
use crate::job::{Job, JobStatus};
use crate::stream_job::StreamJob;
use crate::task::{report, reports, StreamTask, Task};

verus! {

/// A unit of work that a worker can execute without knowing its concrete type.
pub trait Executable {
    /// Where the work is.
    spec fn current(&self) -> JobStatus;

    /// Where the work is.
    fn status(&self) -> (status: JobStatus)
        ensures
            status == self.current(),
    ;
}

impl<T: Task> Executable for Job<T> {
    open spec fn current(&self) -> JobStatus {
        self@.status
    }

    fn status(&self) -> (status: JobStatus) {
        self.status()
    }
}

impl<T: StreamTask> Executable for StreamJob<T> {
    open spec fn current(&self) -> JobStatus {
        self@.status
    }

    fn status(&self) -> (status: JobStatus) {
        self.status()
    }
}

impl<I, O, S> Executable for BatchJob<I, O, S> {
    open spec fn current(&self) -> JobStatus {
        self@.status
    }

    fn status(&self) -> (status: JobStatus) {
        self.status()
    }
}

impl<E: Executable + ?Sized> Executable for Box<E> {
    open spec fn current(&self) -> JobStatus {
        (**self).current()
    }

    fn status(&self) -> (status: JobStatus) {
        (**self).status()
    }
}

/// A boxed executable. Where `E` is a trait object, it stands for any executable, whatever its
/// type.
pub struct AnyExecutable<E: ?Sized = dyn Executable>(Box<E>);

impl<E: Executable> AnyExecutable<E> {
    /// Boxes an executable.
    pub fn new(inner: E) -> (any: Self)
        ensures
            any.boxed() == Box::new(inner),
            any.current() == inner.current(),
    {
        AnyExecutable(Box::new(inner))
    }
}

impl<E: Executable + ?Sized> AnyExecutable<E> {
    /// The executable inside, with its box.
    pub closed spec fn boxed(&self) -> Box<E> {
        self.0
    }

    /// Where the work inside is.
    pub closed spec fn inner_status(&self) -> JobStatus {
        self.0.current()
    }

    /// Takes an executable that is boxed already.
    pub fn from_box(inner: Box<E>) -> (any: Self)
        ensures
            any.boxed() == inner,
            any.current() == inner.current(),
    {
        AnyExecutable(inner)
    }

    /// The executable inside.
    pub fn as_inner(&self) -> (inner: &E)
        ensures
            inner == &*self.boxed(),
            inner.current() == self.current(),
    {
        &*self.0
    }

    /// The executable inside, to be changed.
    pub fn as_inner_mut(&mut self) -> (inner: &mut E)
        ensures
            &*inner == &*old(self).boxed(),
            &*final(self).boxed() == &*final(inner),
            inner.current() == old(self).current(),
            final(self).current() == final(inner).current(),
    {
        &mut *self.0
    }

    /// The executable inside.
    pub fn into_inner(self) -> (inner: Box<E>)
        ensures
            inner == self.boxed(),
            inner.current() == self.current(),
    {
        self.0
    }
}

impl<E: Executable + ?Sized> Executable for AnyExecutable<E> {
    open spec fn current(&self) -> JobStatus {
        self.inner_status()
    }

    fn status(&self) -> (status: JobStatus) {
        self.0.status()
    }
}

/// What runs inputs together and gives a result for each.
pub trait Execute {
    /// What is run.
    type Input;

    /// What comes of it.
    type Output;
}

/// What produces the items of several inputs in one stream, each with the index of its input.
pub trait ExecuteStream {
    /// What is run.
    type Input;

    /// What the stream is made of.
    type Item;
}

/// Whether these are the results of a task as a job reports them.
pub open spec fn reports_each<T, E: std::fmt::Display>(
    results: Seq<Result<T, E>>,
    wrapped: Seq<Result<T, Error<E>>>,
) -> bool {
    &&& wrapped.len() == results.len()
    &&& forall|i: int| 0 <= i < results.len() ==> reports(results[i], #[trigger] wrapped[i])
}

/// A task that is run alone.
pub struct Single<T>(T);

impl<T> Single<T> {
    /// The task.
    pub closed spec fn runs(&self) -> T {
        self.0
    }

    /// Wraps a task.
    pub fn new(inner: T) -> (single: Self)
        ensures
            single.runs() == inner,
    {
        Single(inner)
    }

    /// The task.
    pub fn task(&self) -> (task: &T)
        ensures
            *task == self.runs(),
    {
        &self.0
    }
}

impl<T: Task> Execute for Single<T> {
    type Input = ();

    type Output = T::Output;
}

impl<T: Task> Single<T> {
    /// The results of a run of the task: the one that it returned.
    pub fn execute(&self, returned: Result<T::Output, T::Error>) -> (results: Result<
        Vec<Result<T::Output, Error<T::Error>>>,
        Error<T::Error>,
    >)
        ensures
            results is Ok,
            reports_each(seq![returned], results->Ok_0@),
    {
        let mut results: Vec<Result<T::Output, Error<T::Error>>> = Vec::new();
        results.push(report(returned));
        Ok(results)
    }
}

impl<T: StreamTask> ExecuteStream for Single<T> {
    type Input = ();

    type Item = T::Item;
}

impl<T: StreamTask> Single<T> {
    /// An item of the task's stream, for the only member that there is.
    pub fn item(&self, item: Result<T::Item, T::Error>) -> (tagged: (
        usize,
        Result<T::Item, Error<T::Error>>,
    ))
        ensures
            tagged.0 == 0,
            reports(item, tagged.1),
    {
        (0, report(item))
    }
}

/// What a task returned for several inputs is reported for the same inputs: there is one result for
/// each, at the same place, a value as it is and an error as an error of the task.
pub proof fn results_are_reported_at_their_places<T, E: std::fmt::Display>(
    results: Seq<Result<T, E>>,
    wrapped: Seq<Result<T, Error<E>>>,
    i: int,
)
    requires
        reports_each(results, wrapped),
    ensures
        wrapped.len() == results.len(),
        0 <= i < results.len() ==> match results[i] {
            Ok(value) => wrapped[i] == Ok::<T, Error<E>>(value),
            Err(failure) => wrapped[i] matches Err(Error::TaskExecution { message: _, source })
                && *source == failure,
        },
{
    if 0 <= i < results.len() {
        assert(reports(results[i], wrapped[i]));
    }
}

/// Where the work of an executable is, is where its job is, however often it is boxed.
pub proof fn executable_is_where_its_job_is<T: Task, U: StreamTask, I, O, S, E: Executable>(
    job: Job<T>,
    stream: StreamJob<U>,
    batch: BatchJob<I, O, S>,
    boxed: Box<E>,
    any: AnyExecutable<E>,
)
    ensures
        job.current() == job@.status,
        stream.current() == stream@.status,
        batch.current() == batch@.status,
        boxed.current() == (*boxed).current(),
        any.current() == any.boxed().current(),
{
}

} // verus!
