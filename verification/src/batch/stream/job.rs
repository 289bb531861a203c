//! Jobs that run a stream batch.

use vstd::prelude::*;

use crate::batch::stream::member::{any_failed, MemberState, StreamBatchContext};
use crate::error::{Error, PanicPayload};
use crate::executable::Executable;
use crate::job::JobStatus;

verus! {

/// What came of running a stream batch.
pub enum BatchRun {
    /// The batch was run, with this status.
    Ended(JobStatus),
    /// The run panicked.
    Panicked(PanicPayload),
}

/// Whether a member that a run left without an outcome ends with `error`: the panic of the run,
/// or that the run left it.
pub open spec fn leftover<S>(run: BatchRun, error: Error<S>) -> bool {
    match run {
        BatchRun::Ended(_) => error == Error::<S>::IncompleteStreamBatch,
        BatchRun::Panicked(panic) => error.is_panic_of(panic),
    }
}

/// The status of a job whose run came to this, and of which some member `failed`.
pub open spec fn concluded(run: BatchRun, failed: bool) -> JobStatus {
    match run {
        BatchRun::Ended(status) => if failed {
            JobStatus::Failed
        } else {
            status
        },
        BatchRun::Panicked(_) => JobStatus::Failed,
    }
}

/// A job that runs a stream batch. It is never retried.
pub struct StreamBatchJob {
    status: JobStatus,
}

impl StreamBatchJob {
    /// A job that has not been run.
    pub fn new() -> (job: Self)
        ensures
            job.current() == JobStatus::Pending,
    {
        StreamBatchJob { status: JobStatus::Pending }
    }

    /// Begins to run the job.
    pub fn begin(&mut self)
        ensures
            final(self).current() == JobStatus::Running,
    {
        self.status = JobStatus::Running;
    }

    /// The error that ends a member that the run left without an outcome.
    pub fn leftover_error<S>(run: BatchRun) -> (error: Error<S>)
        ensures
            leftover(run, error),
    {
        match run {
            BatchRun::Ended(_) => Error::incomplete_stream_batch(),
            BatchRun::Panicked(panic) => Error::from_panic(panic),
        }
    }

    /// Ends the job after a run with this status, or after one that panicked where there is
    /// none. `failed` says whether any member ended with an error.
    pub fn conclude(&mut self, ended: Option<JobStatus>, failed: bool)
        ensures
            final(self).current() == match ended {
                Some(status) => if failed {
                    JobStatus::Failed
                } else {
                    status
                },
                None => JobStatus::Failed,
            },
    {
        self.status = match ended {
            Some(status) => if failed {
                JobStatus::Failed
            } else {
                status
            },
            None => JobStatus::Failed,
        };
    }

    /// Ends the job after a run: members that have no outcome are given one, and the job fails
    /// if any member did.
    pub fn end<T, S>(&mut self, context: &mut StreamBatchContext<T, S>, run: BatchRun)
        ensures
            exists|error: Error<S>|
                #[trigger] leftover(run, error) && final(context)@ == old(context)@.map_values(
                    |state: MemberState<T, S>| state.terminal(Err(error)),
                ),
            forall|i: int|
                0 <= i < old(context)@.len() ==> old(context)@[i].life.carried_out(
                    (#[trigger] final(context)@[i]).life,
                ),
            final(self).current() == concluded(run, any_failed(final(context)@)),
    {
        let ended: Option<JobStatus> = match &run {
            BatchRun::Ended(status) => Some(*status),
            BatchRun::Panicked(_) => None,
        };
        let error: Error<S> = StreamBatchJob::leftover_error(run);
        context.fail_unfinished(error);
        let failed = context.has_failure();
        self.conclude(ended, failed);
    }
}

impl Executable for StreamBatchJob {
    closed spec fn current(&self) -> JobStatus {
        self.status
    }

    fn status(&self) -> (status: JobStatus) {
        self.status
    }
}

/// After a stream batch job every member has an outcome: the one that the run gave it, or else
/// the panic of the run, or that the run left it. A job that left a member is a failed job.
pub proof fn ended_job_leaves_no_member_behind<T, S>(
    run: BatchRun,
    error: Error<S>,
    before: Seq<MemberState<T, S>>,
    after: Seq<MemberState<T, S>>,
    i: int,
)
    requires
        leftover(run, error),
        after == before.map_values(|state: MemberState<T, S>| state.terminal(Err(error))),
        0 <= i < before.len(),
        before[i].valid(),
    ensures
        after[i].valid(),
        after[i].life.outcome == crate::future::first_of(
            before[i].life.outcome,
            Err::<(), Error<S>>(error),
        ),
        after[i].sent == before[i].sent,
        before[i].life.outcome is None ==> concluded(run, any_failed(after)) == JobStatus::Failed,
{
    if before[i].life.outcome is None {
        assert(after[i].failed());
    }
}

/// A stream batch job fails if its run panicked or any member failed, and otherwise has the status
/// of the run. A member that the run left without an outcome is told of the panic, or that it was
/// left.
pub proof fn stream_batch_job_fails_with_its_members<T, S>(
    run: BatchRun,
    members: Seq<MemberState<T, S>>,
    error: Error<S>,
)
    ensures
        ({
            let status = concluded(run, any_failed(members));
            match run {
                BatchRun::Panicked(_) => status == JobStatus::Failed,
                BatchRun::Ended(ended) => {
                    ||| status == JobStatus::Failed && exists|i: int|
                        0 <= i < members.len() && (#[trigger] members[i]).life.outcome is Some
                            && members[i].life.outcome->0 is Err
                    ||| status == ended && forall|i: int|
                        0 <= i < members.len() ==> !((#[trigger] members[i]).life.outcome is Some
                            && members[i].life.outcome->0 is Err)
                },
            }
        }),
        leftover(run, error) ==> match run {
            BatchRun::Ended(_) => error is IncompleteStreamBatch,
            BatchRun::Panicked(panic) => error matches Error::TaskPanic(message) && message@
                == panic.text(),
        },
{
    if any_failed(members) {
        let i = choose|i: int| 0 <= i < members.len() && #[trigger] members[i].failed();
        assert(members[i].life.outcome is Some);
    } else {
        assert forall|i: int| 0 <= i < members.len() implies !((
        #[trigger] members[i]).life.outcome is Some && members[i].life.outcome->0 is Err) by {
            assert(!members[i].failed());
        }
    }
}

} // verus!
