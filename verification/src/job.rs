//! Jobs that run a task for one result.

use std::collections::VecDeque;

use vstd::prelude::*;
use vstd::string::to_string_from_display_ensures;

use crate::channel::handed;
use crate::error::{Error, PanicPayload};
use crate::future::{JobFuture, JobFutureSetter, SetterState};
use crate::task::{reports, Attempt, Task};

verus! {

/// Where a job is.
#[derive(Debug, Clone, Copy, PartialEq, Eq, Structural)]
pub enum JobStatus {
    /// The job has not been run.
    Pending,
    /// The job is being run.
    Running,
    /// The job is done.
    Completed,
    /// The job failed.
    Failed,
}

/// The text of a panic.
pub fn panic_message(panic: PanicPayload) -> (message: String)
    ensures
        message@ == panic.text(),
{
    match panic {
        PanicPayload::Literal(text) => text.to_string(),
        PanicPayload::Owned(text) => text,
        PanicPayload::Opaque => "unknown panic".to_string(),
    }
}

/// What to do next while a job runs.
#[derive(Debug, Clone, Copy, PartialEq, Eq, Structural)]
pub enum JobStep {
    /// Run the task.
    Attempt,
    /// Stop: the job is over.
    Done,
}

/// How often a task may be run that asks for this many runs: once at least.
pub open spec fn permitted(max_retries: int) -> int {
    if max_retries < 1 {
        1
    } else {
        max_retries
    }
}

/// How often a task may be run that asks for this many runs: once at least.
pub fn permitted_runs(max_retries: usize) -> (runs: usize)
    ensures
        runs == permitted(max_retries as int),
{
    if max_retries < 1 {
        1
    } else {
        max_retries
    }
}

/// What a [`Job`] is, as a mathematical value.
#[verifier::reject_recursive_types(O)]
#[verifier::reject_recursive_types(E)]
pub struct JobState<O, E> {
    /// How often the task is asked to be run.
    pub max_retries: int,
    /// How often it was run, the run that is under way included.
    pub retries: int,
    /// Where the job is.
    pub status: JobStatus,
    /// What hands the result over to the job's future.
    pub setter: SetterState<O, E>,
}

/// Whether a run of the task decides the job: one that gave a value, one that panicked, and the
/// last one that is permitted.
pub open spec fn decides<O, E>(attempt: Attempt<O, E>, tried: int, max_retries: int) -> bool {
    match attempt {
        Attempt::Returned(Ok(_)) => true,
        Attempt::Returned(Err(_)) => tried >= permitted(max_retries),
        Attempt::Panicked(_) => true,
    }
}

/// Whether `result` is how a job reports what came of the run that decided it.
pub open spec fn concludes<O, E: std::fmt::Display>(
    attempt: Attempt<O, E>,
    result: Result<O, Error<E>>,
) -> bool {
    match attempt {
        Attempt::Returned(returned) => reports(returned, result),
        Attempt::Panicked(panic) => result is Err && result->Err_0.is_panic_of(panic),
    }
}

impl<O, E: std::fmt::Display> JobState<O, E> {
    /// A job that has not been run.
    pub open spec fn fresh(max_retries: int, setter: SetterState<O, E>) -> Self {
        JobState { max_retries, retries: 0, status: JobStatus::Pending, setter }
    }

    /// The job after it was begun.
    pub open spec fn begun(self) -> Self {
        JobState {
            status: JobStatus::Running,
            retries: if self.retries < permitted(self.max_retries) {
                self.retries + 1
            } else {
                self.retries
            },
            ..self
        }
    }

    /// What to do once the job was begun.
    pub open spec fn begins(self) -> JobStep {
        if self.retries < permitted(self.max_retries) {
            JobStep::Attempt
        } else {
            JobStep::Done
        }
    }

    /// Whether the job can be `after` once its task was run.
    pub open spec fn attempted(self, attempt: Attempt<O, E>, after: Self) -> bool {
        if decides(attempt, self.retries, self.max_retries) {
            exists|result: Result<O, Error<E>>|
                {
                    &&& #[trigger] concludes(attempt, result)
                    &&& self.setter.result is None ==> handed(self.setter.channel, result)
                    &&& after == (JobState {
                        status: if result is Ok {
                            JobStatus::Completed
                        } else {
                            JobStatus::Failed
                        },
                        setter: self.setter.set(result),
                        ..self
                    })
                }
        } else {
            after == (JobState { retries: self.retries + 1, ..self })
        }
    }
}

/// A job that runs a task until it gives a value, panics, or has failed as often as is
/// permitted.
#[verifier::reject_recursive_types(T)]
pub struct Job<T: Task> {
    task: T,
    max_retries: usize,
    retries: usize,
    status: JobStatus,
    future_setter: JobFutureSetter<T::Output, T::Error>,
}

impl<T: Task> View for Job<T> {
    type V = JobState<T::Output, T::Error>;

    closed spec fn view(&self) -> JobState<T::Output, T::Error> {
        JobState {
            max_retries: self.max_retries as int,
            retries: self.retries as int,
            status: self.status,
            setter: self.future_setter@,
        }
    }
}

impl<T: Task> Job<T> {
    /// The task that the job runs.
    pub closed spec fn runs(&self) -> T {
        self.task
    }

    /// A job for a task that may be run `max_retries` times, and once where that is zero, and the
    /// future of its result.
    pub fn new(task: T, max_retries: usize) -> (made: (Self, JobFuture<T::Output, T::Error>))
        ensures
            made.0@ == JobState::<T::Output, T::Error>::fresh(
                max_retries as int,
                made.0@.setter,
            ),
            made.0.runs() == task,
            made.1@.is_fresh(),
            made.1@.waits_on(made.0@.setter),
    {
        let (future, setter) = JobFuture::new();
        (
            Job { task, max_retries, retries: 0, status: JobStatus::Pending, future_setter: setter },
            future,
        )
    }

    /// Where the job is.
    pub fn status(&self) -> (status: JobStatus)
        ensures
            status == self@.status,
    {
        self.status
    }

    /// The task that the job runs.
    pub fn task(&self) -> (task: &T)
        ensures
            *task == self.runs(),
    {
        &self.task
    }

    /// Begins to run the job. One whose task may not be run again is over without a result.
    pub fn begin(&mut self) -> (step: JobStep)
        ensures
            final(self).runs() == old(self).runs(),
            final(self)@ == old(self)@.begun(),
            step == old(self)@.begins(),
    {
        self.status = JobStatus::Running;
        if self.retries < permitted_runs(self.max_retries) {
            self.retries += 1;
            JobStep::Attempt
        } else {
            JobStep::Done
        }
    }

    /// Goes on after the task was run. An error is followed by another run as long as one is
    /// permitted; a panic never is.
    pub fn attempted(&mut self, attempt: Attempt<T::Output, T::Error>) -> (step: JobStep)
        ensures
            final(self).runs() == old(self).runs(),
            old(self)@.attempted(attempt, final(self)@),
            step is Done <==> decides(attempt, old(self)@.retries, old(self)@.max_retries),
    {
        match attempt {
            Attempt::Returned(Ok(output)) => {
                self.status = JobStatus::Completed;
                let result: Result<T::Output, Error<T::Error>> = Ok(output);
                assert(concludes(attempt, result));
                self.future_setter.set_result(result);
                JobStep::Done
            },
            Attempt::Returned(Err(error)) => {
                if self.retries >= permitted_runs(self.max_retries) {
                    self.status = JobStatus::Failed;
                    let result: Result<T::Output, Error<T::Error>> = Err(
                        Error::task_execution(error),
                    );
                    assert(concludes(attempt, result));
                    self.future_setter.set_result(result);
                    JobStep::Done
                } else {
                    self.retries += 1;
                    JobStep::Attempt
                }
            },
            Attempt::Panicked(panic) => {
                self.status = JobStatus::Failed;
                let result: Result<T::Output, Error<T::Error>> = Err(
                    Error::task_panic(panic_message(panic)),
                );
                assert(concludes(attempt, result));
                self.future_setter.set_result(result);
                JobStep::Done
            },
        }
    }

    /// Runs the job on what comes of running its task, in order. Says how often the task was
    /// run; what comes after the run that decided the job is not looked at.
    pub fn execute(&mut self, attempts: VecDeque<Attempt<T::Output, T::Error>>) -> (tried: usize)
        ensures
            final(self).runs() == old(self).runs(),
            job_runs(old(self)@, attempts@, tried as int, final(self)@),
    {
        let ghost start = self@;
        if self.begin() == JobStep::Done {
            return 0;
        }
        let total: usize = attempts.len();
        let mut pending = attempts;
        let mut tried: usize = 0;
        loop
            invariant
                self.runs() == old(self).runs(),
                start == old(self)@,
                attempts@.len() == total,
                start.retries < permitted(start.max_retries),
                tried <= attempts@.len(),
                pending@ == attempts@.skip(tried as int),
                self@ == (JobState {
                    status: JobStatus::Running,
                    retries: start.retries + tried + 1,
                    ..start
                }),
                self@.retries <= permitted(self@.max_retries),
                forall|i: int|
                    0 <= i < tried ==> !decides(
                        #[trigger] attempts@[i],
                        start.retries + i + 1,
                        start.max_retries,
                    ),
            ensures
                tried == attempts@.len(),
            decreases pending@.len(),
        {
            match pending.pop_front() {
                None => {
                    break;
                },
                Some(attempt) => {
                    assert(attempts@.skip(tried as int)[0] == attempts@[tried as int]);
                    assert(attempts@.skip(tried as int).drop_first() =~= attempts@.skip(tried + 1));
                    let step = self.attempted(attempt);
                    tried += 1;
                    if step == JobStep::Done {
                        return tried;
                    }
                },
            }
        }
        tried
    }
}

/// Whether a job that was `before` can be `after` once `tried` of the attempts were made on it.
/// None is where the task may not be run any more. Otherwise every attempt but the last leaves
/// the job undecided; the last one decides it, unless the attempts ran out first.
pub open spec fn job_runs<O, E: std::fmt::Display>(
    before: JobState<O, E>,
    attempts: Seq<Attempt<O, E>>,
    tried: int,
    after: JobState<O, E>,
) -> bool {
    if before.begins() == JobStep::Done {
        tried == 0 && after == before.begun()
    } else {
        &&& 0 <= tried <= attempts.len()
        &&& forall|i: int|
            0 <= i < tried - 1 ==> !decides(
                #[trigger] attempts[i],
                before.retries + i + 1,
                before.max_retries,
            )
        &&& if tried > 0 && decides(
            attempts[tried - 1],
            before.retries + tried,
            before.max_retries,
        ) {
            (JobState {
                status: JobStatus::Running,
                retries: before.retries + tried,
                ..before
            }).attempted(attempts[tried - 1], after)
        } else {
            &&& tried == attempts.len()
            &&& after == (JobState {
                status: JobStatus::Running,
                retries: before.retries + tried + 1,
                ..before
            })
        }
    }
}

/// A task is run no more often than is permitted, and once at least where it can be run: a job
/// that asks for no run is run once. Every run but the last of a job returned an error: a value
/// and a panic are never followed by another run. A job that was decided has handed the result of
/// its last run to its future, and no other.
pub proof fn job_is_tried_within_its_budget<O, E: std::fmt::Display>(
    max_retries: int,
    setter: SetterState<O, E>,
    attempts: Seq<Attempt<O, E>>,
    tried: int,
    after: JobState<O, E>,
    i: int,
)
    requires
        setter.result is None,
        job_runs(JobState::fresh(max_retries, setter), attempts, tried, after),
    ensures
        tried <= permitted(max_retries),
        after.retries <= permitted(max_retries),
        attempts.len() > 0 ==> tried > 0,
        0 <= i < tried - 1 ==> attempts[i] is Returned && attempts[i]->Returned_0 is Err,
        after.status == JobStatus::Completed || after.status == JobStatus::Failed
            <==> after.setter.result is Some,
        after.setter.result is Some ==> {
            &&& tried > 0
            &&& concludes(attempts[tried - 1], after.setter.result->0)
            &&& handed(setter.channel, after.setter.result->0)
            &&& after.status == JobStatus::Completed <==> after.setter.result->0 is Ok
        },
        attempts.len() >= permitted(max_retries) ==> after.setter.result is Some,
{
    let most = permitted(max_retries);
    if tried > most {
        assert(!decides(attempts[most - 1], most, max_retries));
    }
    if tried > 0 {
        let last = attempts[tried - 1];
    }
}

/// Whether this is how the future of a job is told what came of the run that settled it: the value
/// as it is, the task's error with its text, or the text of the panic.
pub open spec fn tells<O, E: std::fmt::Display>(
    attempt: Attempt<O, E>,
    result: Result<O, Error<E>>,
) -> bool {
    match attempt {
        Attempt::Returned(Ok(value)) => result == Ok::<O, Error<E>>(value),
        Attempt::Returned(Err(failure)) => result matches Err(Error::TaskExecution {
            message,
            source,
        }) && *source == failure && to_string_from_display_ensures(&failure, message),
        Attempt::Panicked(panic) => result matches Err(Error::TaskPanic(message)) && message@
            == match panic {
            PanicPayload::Literal(text) => text@,
            PanicPayload::Owned(text) => text@,
            PanicPayload::Opaque => "unknown panic"@,
        },
    }
}

/// A task that keeps failing is run as often as it asked for, and once where it asked for less; one
/// that gives a value or panics is not run after that. Its job is over with the run that it is not
/// run after, and its future is told what came of that run. As long as there is another run to come,
/// the future is told nothing.
pub proof fn failing_task_is_run_as_often_as_it_asked<O, E: std::fmt::Display>(
    max_retries: int,
    setter: SetterState<O, E>,
    attempts: Seq<Attempt<O, E>>,
    tried: int,
    after: JobState<O, E>,
)
    requires
        setter.result is None,
        job_runs(JobState::fresh(max_retries, setter), attempts, tried, after),
    ensures
        0 <= tried <= attempts.len(),
        tried <= 1 || tried <= max_retries,
        forall|i: int|
            0 <= i < tried - 1 ==> (#[trigger] attempts[i]) is Returned
                && attempts[i]->Returned_0 is Err,
        ({
            let failing = tried == 0 || (attempts[tried - 1] is Returned && attempts[tried
                - 1]->Returned_0 is Err);
            let runs_left = tried < 1 || tried < max_retries;
            if failing && runs_left {
                &&& tried == attempts.len()
                &&& after.status == JobStatus::Running
                &&& after.setter == setter
            } else {
                &&& after.setter.result is Some
                &&& tells(attempts[tried - 1], after.setter.result->0)
                &&& handed(setter.channel, after.setter.result->0)
                &&& after.setter.channel == setter.channel
                &&& after.status == if after.setter.result->0 is Ok {
                    JobStatus::Completed
                } else {
                    JobStatus::Failed
                }
            }
        }),
        after.max_retries == max_retries,
{
    if tried > 1 && tried > max_retries {
        let earlier = attempts[tried - 2];
    }
    if tried > 0 {
        let last = attempts[tried - 1];
    }
}

/// One step of a job at a time: it begins with a run of its task unless it has used up what it asked
/// for, an error is followed by another run exactly while fewer runs were made than asked for, and
/// anything else ends the job and is told. Nothing but that changes.
pub proof fn job_goes_on_step_by_step<O, E: std::fmt::Display>(
    before: JobState<O, E>,
    attempt: Attempt<O, E>,
    after: JobState<O, E>,
)
    requires
        before.attempted(attempt, after),
        before.setter.result is None,
        before.retries >= 1,
    ensures
        ({
            let failed = attempt is Returned && attempt->Returned_0 is Err;
            if failed && before.retries < before.max_retries {
                &&& !decides(attempt, before.retries, before.max_retries)
                &&& after.retries == before.retries + 1
                &&& after.status == before.status
                &&& after.setter == before.setter
            } else {
                &&& decides(attempt, before.retries, before.max_retries)
                &&& after.retries == before.retries
                &&& after.setter.result is Some
                &&& after.setter.channel == before.setter.channel
                &&& tells(attempt, after.setter.result->0)
                &&& handed(before.setter.channel, after.setter.result->0)
                &&& after.status == if attempt is Returned && !failed {
                    JobStatus::Completed
                } else {
                    JobStatus::Failed
                }
            }
        }),
        after.max_retries == before.max_retries,
{
}

/// A job that was just made has not been run, and begins with the first run of its task, whatever it
/// asked for. One that was run begins with another exactly while fewer runs were made than it asked
/// for.
pub proof fn job_begins_with_a_run<O, E: std::fmt::Display>(
    max_retries: int,
    setter: SetterState<O, E>,
    job: JobState<O, E>,
)
    requires
        job.retries >= 0,
    ensures
        ({
            let fresh = JobState::fresh(max_retries, setter);
            &&& fresh.status == JobStatus::Pending
            &&& fresh.retries == 0
            &&& fresh.max_retries == max_retries
            &&& fresh.setter == setter
        }),
        permitted(max_retries) >= 1,
        permitted(max_retries) == max_retries || (max_retries < 1 && permitted(max_retries) == 1),
        job.begun().status == JobStatus::Running,
        job.begun().setter == job.setter,
        job.begun().max_retries == job.max_retries,
        if job.retries == 0 || job.retries < job.max_retries {
            &&& job.begins() == JobStep::Attempt
            &&& job.begun().retries == job.retries + 1
        } else {
            &&& job.begins() == JobStep::Done
            &&& job.begun().retries == job.retries
        },
{
}

} // verus!
