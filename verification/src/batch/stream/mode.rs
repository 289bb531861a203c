//! What the ways of running a stream batch have in common.

use vstd::prelude::*;

use crate::batch::stream::member::{any_failed, MemberState};
use crate::job::JobStatus;

verus! {

/// A way of running the members of a stream batch with a task of type `B`.
pub trait StreamBatchMode<B> {
    /// What one member asks for.
    type Input;

    /// What the members' streams are made of.
    type Item;

    /// What the task fails with.
    type Error: std::fmt::Display;
}

/// The status of a batch of which some member failed, or none.
pub open spec fn status_of(failed: bool) -> JobStatus {
    if failed {
        JobStatus::Failed
    } else {
        JobStatus::Completed
    }
}

/// The status of a batch of which some member failed, or none.
pub fn batch_status_of(failed: bool) -> (status: JobStatus)
    ensures
        status == status_of(failed),
{
    if failed {
        JobStatus::Failed
    } else {
        JobStatus::Completed
    }
}

/// The status of a batch whose members are in these states.
pub open spec fn batch_status<T, S>(states: Seq<MemberState<T, S>>) -> JobStatus {
    status_of(any_failed(states))
}

/// Whether every member is valid.
pub open spec fn all_valid<T, S>(states: Seq<MemberState<T, S>>) -> bool {
    forall|i: int| 0 <= i < states.len() ==> #[trigger] states[i].valid()
}

/// A batch has failed if the outcome of any member is an error, and is completed otherwise.
pub proof fn one_failure_fails_the_batch<T, S>(states: Seq<MemberState<T, S>>)
    ensures
        batch_status(states) == JobStatus::Failed <==> exists|i: int|
            0 <= i < states.len() && (#[trigger] states[i]).life.outcome is Some
                && states[i].life.outcome->0 is Err,
        batch_status(states) == JobStatus::Failed || batch_status(states) == JobStatus::Completed,
        status_of(true) == JobStatus::Failed,
        status_of(false) == JobStatus::Completed,
{
    if exists|i: int|
        0 <= i < states.len() && (#[trigger] states[i]).life.outcome is Some
            && states[i].life.outcome->0 is Err {
        let i = choose|i: int|
            0 <= i < states.len() && (#[trigger] states[i]).life.outcome is Some
                && states[i].life.outcome->0 is Err;
        assert(states[i].failed());
    }
    if any_failed(states) {
        let i = choose|i: int| 0 <= i < states.len() && #[trigger] states[i].failed();
        assert(states[i].life.outcome is Some);
    }
}

} // verus!
