//! Jobs that run the inputs of a batch together.

use vstd::prelude::*;

use crate::channel::handed;
use crate::error::{Error, PanicPayload};
use crate::future::{JobFutureSetter, SetterState};
use crate::job::{permitted, permitted_runs, JobStatus};
use crate::task::Attempt;

verus! {

/// What a [`JobDelivery`] is, as a mathematical value.
#[verifier::reject_recursive_types(O)]
#[verifier::reject_recursive_types(S)]
pub struct DeliveryState<O, S> {
    /// How often the input may be run.
    pub budget: int,
    /// How often it was run.
    pub attempts: int,
    /// What hands the result over to the future of the input.
    pub setter: SetterState<O, S>,
}

impl<O, S> DeliveryState<O, S> {
    /// An input that was not run. It is run once at least, however few retries it asks for.
    pub open spec fn fresh(max_retries: int, setter: SetterState<O, S>) -> Self {
        DeliveryState { budget: permitted(max_retries), attempts: 0, setter }
    }

    /// Whether the input is run again after this result: only an error of the task is a reason,
    /// and only as long as another run is permitted.
    pub open spec fn again(self, result: Result<O, Error<S>>) -> bool {
        result is Err && result->Err_0 is TaskExecution && self.attempts + 1 < self.budget
    }

    /// The input after it was run with this result.
    pub open spec fn after(self, result: Result<O, Error<S>>) -> Self {
        DeliveryState {
            attempts: self.attempts + 1,
            setter: if self.again(result) {
                self.setter
            } else {
                self.setter.set(result)
            },
            ..self
        }
    }

    /// Whether the input waits to be run.
    pub open spec fn is_pending(self) -> bool {
        self.setter.result is None
    }

    /// Whether the input ended with an error.
    pub open spec fn failed(self) -> bool {
        self.setter.result is Some && self.setter.result->0 is Err
    }

    /// What holds of every input: it is run no more often than is permitted, and one that waits
    /// may be run.
    pub open spec fn valid(self) -> bool {
        &&& 0 <= self.attempts <= self.budget
        &&& self.setter.result is None ==> self.attempts < self.budget
    }
}

/// The way from a batch to the future of one input.
#[verifier::reject_recursive_types(O)]
#[verifier::reject_recursive_types(S)]
pub struct JobDelivery<O, S> {
    setter: JobFutureSetter<O, S>,
    budget: usize,
    attempts: usize,
    failed: bool,
}

impl<O, S> View for JobDelivery<O, S> {
    type V = DeliveryState<O, S>;

    closed spec fn view(&self) -> DeliveryState<O, S> {
        DeliveryState {
            budget: self.budget as int,
            attempts: self.attempts as int,
            setter: self.setter@,
        }
    }
}

impl<O, S> JobDelivery<O, S> {
    /// What holds of every delivery.
    pub closed spec fn valid(&self) -> bool {
        self@.valid() && self.failed == self@.failed()
    }

    /// A delivery to the future of `setter` for an input that may be run `max_retries` times,
    /// and once where that is zero.
    pub fn new(setter: JobFutureSetter<O, S>, max_retries: usize) -> (delivery: Self)
        requires
            setter@.result is None,
        ensures
            delivery.valid(),
            delivery@ == DeliveryState::<O, S>::fresh(max_retries as int, setter@),
    {
        JobDelivery { setter, budget: permitted_runs(max_retries), attempts: 0, failed: false }
    }

    /// Records the result of a run, and says whether the input is to be run again. If not, the
    /// result is handed over.
    pub fn settle(&mut self, result: Result<O, Error<S>>) -> (again: bool)
        requires
            old(self).valid(),
            old(self)@.is_pending(),
        ensures
            final(self).valid(),
            again == old(self)@.again(result),
            again <==> final(self)@.is_pending(),
            final(self)@ == old(self)@.after(result),
            !again ==> handed(old(self)@.setter.channel, result),
    {
        self.attempts += 1;
        if self.attempts < self.budget {
            if let Err(Error::TaskExecution { .. }) = &result {
                return true;
            }
        }
        self.failed = result.is_err();
        self.setter.set_result(result);
        false
    }

    /// Whether the input ended with an error.
    pub fn failed(&self) -> (failed: bool)
        requires
            self.valid(),
        ensures
            failed == self@.failed(),
    {
        self.failed
    }
}

/// Those of the items that are to be kept.
pub open spec fn kept<A>(items: Seq<A>, keep: Seq<bool>) -> Seq<A>
    decreases items.len(),
{
    if items.len() == 0 {
        Seq::empty()
    } else {
        let most = kept(items.drop_last(), keep);
        if keep[items.len() - 1] {
            most.push(items.last())
        } else {
            most
        }
    }
}

/// Takes out those of the items that are not to be kept.
fn keep_only<A>(items: Vec<A>, keep: &Vec<bool>) -> (left: Vec<A>)
    requires
        items@.len() == keep@.len(),
    ensures
        left@ == kept(items@, keep@),
{
    let mut left: Vec<A> = Vec::new();
    let mut i: usize = 0;
    for item in iter: items
        invariant
            iter.seq() == items@,
            i == iter.index(),
            items@.len() == keep@.len(),
            left@ == kept(items@.take(i as int), keep@),
    {
        assert(items@.take(i + 1).drop_last() =~= items@.take(i as int));
        assert(i < keep.len());
        if keep[i] {
            left.push(item);
        }
        i += 1;
    }
    assert(items@.take(items@.len() as int) =~= items@);
    left
}

/// What is kept is what was there and is to be kept.
proof fn lemma_kept_contains<A>(items: Seq<A>, keep: Seq<bool>, item: A)
    ensures
        kept(items, keep).contains(item) <==> exists|p: int|
            0 <= p < items.len() && keep[p] && #[trigger] items[p] == item,
    decreases items.len(),
{
    if items.len() > 0 {
        let n = items.len() - 1;
        let before = items.drop_last();
        let most = kept(before, keep);
        lemma_kept_contains(before, keep, item);
        if keep[n] {
            assert(most.push(items[n])[most.len() as int] == items[n]);
            if most.contains(item) {
                let q = choose|q: int| 0 <= q < most.len() && most[q] == item;
                assert(most.push(items[n])[q] == item);
            }
            if most.push(items[n]).contains(item) && items[n] != item {
                let q = choose|q: int| 0 <= q <= most.len() && most.push(items[n])[q] == item;
                assert(most[q] == item);
            }
        }
        if exists|p: int| 0 <= p < items.len() && keep[p] && #[trigger] items[p] == item {
            let p = choose|p: int| 0 <= p < items.len() && keep[p] && #[trigger] items[p] == item;
            if p < n {
                assert(before[p] == item);
            }
        }
        if exists|p: int| 0 <= p < before.len() && keep[p] && #[trigger] before[p] == item {
            let p = choose|p: int| 0 <= p < before.len() && keep[p] && #[trigger] before[p] == item;
            assert(items[p] == item);
        }
    }
}

/// As many are kept of one sequence as of another of the same length.
proof fn lemma_kept_len<A, B>(items: Seq<A>, others: Seq<B>, keep: Seq<bool>)
    requires
        items.len() == others.len(),
    ensures
        kept(items, keep).len() == kept(others, keep).len(),
    decreases items.len(),
{
    if items.len() > 0 {
        lemma_kept_len(items.drop_last(), others.drop_last(), keep);
    }
}

/// Whether each number is larger than those before it.
pub open spec fn ascending(numbers: Seq<usize>) -> bool {
    forall|p: int, q: int| 0 <= p < q < numbers.len() ==> numbers[p] < numbers[q]
}

/// What is kept stays in order.
proof fn lemma_kept_ascending(numbers: Seq<usize>, keep: Seq<bool>)
    requires
        ascending(numbers),
    ensures
        ascending(kept(numbers, keep)),
    decreases numbers.len(),
{
    if numbers.len() > 0 {
        let before = numbers.drop_last();
        let most = kept(before, keep);
        lemma_kept_ascending(before, keep);
        assert forall|q: int| 0 <= q < most.len() implies most[q] < numbers.last() by {
            lemma_kept_contains(before, keep, most[q]);
            assert(most.contains(most[q]));
            let p = choose|p: int| 0 <= p < before.len() && keep[p] && #[trigger] before[p] == most[q];
            assert(numbers[p] < numbers[numbers.len() - 1]);
        }
    }
}

/// What a [`BatchJob`] is, as a mathematical value.
#[verifier::reject_recursive_types(O)]
#[verifier::reject_recursive_types(S)]
#[verifier::ext_equal]
pub struct BatchJobState<I, O, S> {
    /// The members of the batch: one for each input that it began with.
    pub members: Seq<DeliveryState<O, S>>,
    /// The numbers of the members that wait to be run.
    pub pending: Seq<usize>,
    /// Their inputs, in the same order.
    pub inputs: Seq<I>,
    /// Where the job is.
    pub status: JobStatus,
}

/// Whether any of the members ended with an error.
pub open spec fn any_delivery_failed<O, S>(members: Seq<DeliveryState<O, S>>) -> bool {
    exists|k: int| 0 <= k < members.len() && #[trigger] members[k].failed()
}

impl<I, O, S> BatchJobState<I, O, S> {
    /// What holds of every batch: there is an input for each member that waits, no member waits
    /// twice, and those that wait are those without a result.
    pub open spec fn valid(self) -> bool {
        &&& self.inputs.len() == self.pending.len()
        &&& ascending(self.pending)
        &&& forall|p: int|
            0 <= p < self.pending.len() ==> #[trigger] self.pending[p] < self.members.len()
        &&& forall|k: int| 0 <= k < self.members.len() ==> #[trigger] self.members[k].valid()
        &&& forall|k: int|
            0 <= k < self.members.len() ==> (#[trigger] self.members[k].is_pending()
                <==> self.pending.contains(k as usize))
    }

    /// Which of those that wait are run again after these results.
    pub open spec fn again(self, results: Seq<Result<O, Error<S>>>) -> Seq<bool> {
        Seq::new(
            self.pending.len(),
            |p: int| self.members[self.pending[p] as int].again(results[p]),
        )
    }

    /// The member of this number after those that wait were run with these results.
    pub open spec fn member_after(self, results: Seq<Result<O, Error<S>>>, k: int) -> DeliveryState<
        O,
        S,
    > {
        if self.pending.contains(k as usize) {
            self.members[k].after(results[self.pending.index_of(k as usize)])
        } else {
            self.members[k]
        }
    }

    /// The batch after those that wait were run with these results. A member that is not run
    /// again is not waiting any more, and neither is its input.
    pub open spec fn after(self, results: Seq<Result<O, Error<S>>>) -> Self {
        let members = Seq::new(self.members.len(), |k: int| self.member_after(results, k));
        let pending = kept(self.pending, self.again(results));
        BatchJobState {
            members,
            pending,
            inputs: kept(self.inputs, self.again(results)),
            status: if pending.len() > 0 {
                self.status
            } else if any_delivery_failed(members) {
                JobStatus::Failed
            } else {
                JobStatus::Completed
            },
        }
    }
}

/// What a round leaves of a batch, said of each member that waited and each that did not.
proof fn lemma_after<I, O, S>(
    before: BatchJobState<I, O, S>,
    results: Seq<Result<O, Error<S>>>,
    members: Seq<DeliveryState<O, S>>,
)
    requires
        before.valid(),
        results.len() == before.pending.len(),
        members.len() == before.members.len(),
        forall|q: int|
            0 <= q < before.pending.len() ==> members[#[trigger] before.pending[q] as int]
                == before.members[before.pending[q] as int].after(results[q]),
        forall|k: int|
            0 <= k < members.len() && !before.pending.contains(k as usize)
                ==> #[trigger] members[k] == before.members[k],
        before.members.len() <= usize::MAX,
    ensures
        members == before.after(results).members,
{
    assert forall|k: int| 0 <= k < members.len() implies #[trigger] members[k]
        == before.member_after(results, k) by {
        if before.pending.contains(k as usize) {
            let q = before.pending.index_of(k as usize);
            assert(before.pending[q] == k as usize);
        }
    }
    assert(members =~= before.after(results).members);
}

/// A round leaves a batch valid.
proof fn lemma_after_valid<I, O, S>(
    before: BatchJobState<I, O, S>,
    results: Seq<Result<O, Error<S>>>,
)
    requires
        before.valid(),
        results.len() == before.pending.len(),
        before.members.len() <= usize::MAX,
    ensures
        before.after(results).valid(),
{
    let keep = before.again(results);
    let after = before.after(results);
    lemma_kept_len(before.inputs, before.pending, keep);
    lemma_kept_ascending(before.pending, keep);
    assert forall|p: int| 0 <= p < after.pending.len() implies #[trigger] after.pending[p]
        < after.members.len() by {
        lemma_kept_contains(before.pending, keep, after.pending[p]);
        assert(after.pending.contains(after.pending[p]));
        let q = choose|q: int|
            0 <= q < before.pending.len() && keep[q] && #[trigger] before.pending[q]
                == after.pending[p];
    }
    assert forall|k: int| 0 <= k < after.members.len() implies #[trigger] after.members[k].valid() by {
        assert(before.members[k].valid());
        assert(before.members[k].is_pending() <==> before.pending.contains(k as usize));
    }
    assert forall|k: int| 0 <= k < after.members.len() implies (
    #[trigger] after.members[k].is_pending() <==> after.pending.contains(k as usize)) by {
        lemma_kept_contains(before.pending, keep, k as usize);
        assert(before.members[k].is_pending() <==> before.pending.contains(k as usize));
        if before.pending.contains(k as usize) {
            let q = before.pending.index_of(k as usize);
            assert(before.pending[q] == k as usize);
            assert forall|p: int| 0 <= p < before.pending.len() && #[trigger] before.pending[p]
                == k as usize implies p == q by {
                if p < q {
                    assert(before.pending[p] < before.pending[q]);
                } else if q < p {
                    assert(before.pending[q] < before.pending[p]);
                }
            }
            assert(keep[q] == before.members[k].again(results[q]));
            assert(after.members[k] == before.members[k].after(results[q]));
        }
    }
}

/// Whether these are the results of `n` inputs that were run together: those that came back, if
/// there is one for each input. An error of the whole run is the result of every input, and so
/// are a panic and a wrong number of results.
pub open spec fn answers<O, S>(
    attempt: Attempt<Vec<Result<O, Error<S>>>, Error<S>>,
    n: int,
    results: Seq<Result<O, Error<S>>>,
) -> bool {
    &&& results.len() == n
    &&& match attempt {
        Attempt::Returned(Ok(returned)) => if returned@.len() == n {
            results == returned@
        } else {
            forall|p: int|
                0 <= p < n ==> #[trigger] results[p] == Err::<O, Error<S>>(
                    Error::BatchSizeMismatch {
                        expected: n as usize,
                        actual: returned@.len() as usize,
                    },
                )
        },
        Attempt::Returned(Err(error)) => forall|p: int|
            0 <= p < n ==> #[trigger] results[p] == Err::<O, Error<S>>(error),
        Attempt::Panicked(panic) => exists|error: Error<S>|
            #[trigger] error.is_panic_of(panic) && forall|p: int|
                0 <= p < n ==> #[trigger] results[p] == Err::<O, Error<S>>(error),
    }
}

/// Whether a batch goes from `before` to `after` in a round whose task came to `attempt` and that
/// gave those that wait these results: each member that is not run again was handed its result.
pub open spec fn is_round<I, O, S>(
    before: BatchJobState<I, O, S>,
    attempt: Attempt<Vec<Result<O, Error<S>>>, Error<S>>,
    results: Seq<Result<O, Error<S>>>,
    after: BatchJobState<I, O, S>,
) -> bool {
    &&& before.valid()
    &&& before.members.len() <= usize::MAX
    &&& answers(attempt, before.inputs.len() as int, results)
    &&& after == before.after(results)
    &&& forall|p: int|
        0 <= p < results.len() && !(#[trigger] before.again(results)[p]) ==> handed(
            before.members[before.pending[p] as int].setter.channel,
            results[p],
        )
}

/// The same error for each of `n` inputs.
fn errors<O, S>(error: Error<S>, n: usize) -> (results: Vec<Result<O, Error<S>>>)
    ensures
        results@.len() == n,
        forall|p: int| 0 <= p < n ==> #[trigger] results@[p] == Err::<O, Error<S>>(error),
{
    let mut results: Vec<Result<O, Error<S>>> = Vec::new();
    for i in 0..n
        invariant
            results@.len() == i,
            forall|p: int| 0 <= p < i ==> #[trigger] results@[p] == Err::<O, Error<S>>(error),
    {
        results.push(Err(error.clone()));
    }
    results
}

/// What to do next while a batch job runs.
#[derive(Debug, Clone, Copy, PartialEq, Eq, Structural)]
pub enum BatchStep {
    /// Run the inputs that wait.
    Run,
    /// Stop: the job is over.
    Done,
}

/// A job that runs the inputs of a batch together, and those that failed again.
#[verifier::reject_recursive_types(I)]
#[verifier::reject_recursive_types(O)]
#[verifier::reject_recursive_types(S)]
pub struct BatchJob<I, O, S> {
    deliveries: Vec<JobDelivery<O, S>>,
    pending: Vec<usize>,
    inputs: Vec<I>,
    status: JobStatus,
}

impl<I, O, S> View for BatchJob<I, O, S> {
    type V = BatchJobState<I, O, S>;

    closed spec fn view(&self) -> BatchJobState<I, O, S> {
        BatchJobState {
            members: self.deliveries@.map_values(|delivery: JobDelivery<O, S>| delivery@),
            pending: self.pending@,
            inputs: self.inputs@,
            status: self.status,
        }
    }
}

impl<I, O, S> BatchJob<I, O, S> {
    /// What holds of every batch job.
    pub closed spec fn valid(&self) -> bool {
        &&& self@.valid()
        &&& forall|k: int| 0 <= k < self.deliveries@.len() ==> #[trigger] self.deliveries@[k].valid()
    }

    /// A job for the inputs that a window gathered, each with its delivery.
    pub fn new(inputs: Vec<I>, deliveries: Vec<JobDelivery<O, S>>) -> (job: Self)
        requires
            inputs@.len() == deliveries@.len(),
            forall|k: int|
                0 <= k < deliveries@.len() ==> #[trigger] deliveries@[k].valid()
                    && deliveries@[k]@.is_pending(),
        ensures
            job.valid(),
            job@.valid(),
            job@.status == JobStatus::Pending,
            job@.inputs == inputs@,
            job@.members == deliveries@.map_values(|delivery: JobDelivery<O, S>| delivery@),
            job@.pending == Seq::new(inputs@.len(), |p: int| p as usize),
    {
        let mut pending: Vec<usize> = Vec::new();
        let count: usize = inputs.len();
        for i in 0..count
            invariant
                pending@ == Seq::new(i as nat, |p: int| p as usize),
        {
            pending.push(i);
            assert(pending@ =~= Seq::new((i + 1) as nat, |p: int| p as usize));
        }
        let job = BatchJob { deliveries, pending, inputs, status: JobStatus::Pending };
        assert(job@.valid()) by {
            assert forall|k: int| 0 <= k < job@.members.len() implies (
            #[trigger] job@.members[k].is_pending() <==> job@.pending.contains(k as usize)) by {
                assert(deliveries@[k].valid());
                assert(job@.pending[k] == k as usize);
            }
            assert forall|k: int| 0 <= k < job@.members.len() implies
                #[trigger] job@.members[k].valid() by {
                assert(deliveries@[k].valid());
            }
        }
        job
    }

    /// Where the job is.
    pub fn status(&self) -> (status: JobStatus)
        ensures
            status == self@.status,
    {
        self.status
    }

    /// The inputs that wait to be run.
    pub fn inputs(&self) -> (inputs: &Vec<I>)
        ensures
            inputs@ == self@.inputs,
    {
        &self.inputs
    }

    /// Begins to run the job. Without an input to run it is completed.
    pub fn begin(&mut self) -> (step: BatchStep)
        requires
            old(self).valid(),
        ensures
            final(self).valid(),
            final(self)@.valid(),
            final(self)@ == (BatchJobState {
                status: if old(self)@.inputs.len() > 0 {
                    JobStatus::Running
                } else {
                    JobStatus::Completed
                },
                ..old(self)@
            }),
            step is Run <==> old(self)@.inputs.len() > 0,
    {
        if self.inputs.len() == 0 {
            self.status = JobStatus::Completed;
            return BatchStep::Done;
        }
        self.status = JobStatus::Running;
        BatchStep::Run
    }

    /// The result of each input that was run.
    fn answered(
        &self,
        attempt: Attempt<Vec<Result<O, Error<S>>>, Error<S>>,
    ) -> (results: Vec<Result<O, Error<S>>>)
        ensures
            answers(attempt, self@.inputs.len() as int, results@),
    {
        let expected: usize = self.inputs.len();
        match attempt {
            Attempt::Returned(Ok(returned)) => {
                let actual: usize = returned.len();
                if actual == expected {
                    returned
                } else {
                    errors(Error::batch_size_mismatch(expected, actual), expected)
                }
            },
            Attempt::Returned(Err(error)) => errors(error, expected),
            Attempt::Panicked(panic) => {
                let error: Error<S> = Error::from_panic(panic);
                errors(error, expected)
            },
        }
    }

    /// Whether any member ended with an error.
    fn any_failed(&self) -> (failed: bool)
        requires
            forall|k: int|
                0 <= k < self.deliveries@.len() ==> #[trigger] self.deliveries@[k].valid(),
        ensures
            failed == any_delivery_failed(self@.members),
    {
        let mut i: usize = 0;
        while i < self.deliveries.len()
            invariant
                i <= self.deliveries@.len(),
                forall|k: int|
                    0 <= k < self.deliveries@.len() ==> #[trigger] self.deliveries@[k].valid(),
                forall|k: int| 0 <= k < i ==> !(#[trigger] self@.members[k].failed()),
            decreases self.deliveries@.len() - i,
        {
            if self.deliveries[i].failed() {
                assert(self@.members[i as int].failed());
                return true;
            }
            i += 1;
        }
        false
    }

    /// Goes on after the inputs that wait were run. Those that gave a value are done; those that
    /// gave an error are run again as long as that is permitted. Says whether any are.
    pub fn settle(&mut self, attempt: Attempt<Vec<Result<O, Error<S>>>, Error<S>>) -> (step:
        BatchStep)
        requires
            old(self).valid(),
        ensures
            final(self).valid(),
            final(self)@.valid(),
            exists|results: Seq<Result<O, Error<S>>>|
                #[trigger] is_round(old(self)@, attempt, results, final(self)@),
            step is Run <==> final(self)@.inputs.len() > 0,
    {
        let results = self.answered(attempt);
        let ghost before = self@;
        let ghost given = results@;
        let mut keep: Vec<bool> = Vec::new();
        let mut p: usize = 0;
        for result in iter: results
            invariant
                iter.seq() == given,
                p == iter.index(),
                before.valid(),
                given.len() == before.pending.len(),
                self.pending@ == before.pending,
                self.inputs@ == before.inputs,
                self.status == before.status,
                self.deliveries@.len() == before.members.len(),
                keep@ == before.again(given).take(p as int),
                forall|k: int|
                    0 <= k < self.deliveries@.len() ==> #[trigger] self.deliveries@[k].valid(),
                forall|q: int|
                    0 <= q < p ==> self.deliveries@[#[trigger] before.pending[q] as int]@
                        == before.members[before.pending[q] as int].after(given[q]),
                forall|q: int|
                    0 <= q < p && !(#[trigger] before.again(given)[q]) ==> handed(
                        before.members[before.pending[q] as int].setter.channel,
                        given[q],
                    ),
                forall|k: int|
                    0 <= k < self.deliveries@.len() && !before.pending.take(p as int).contains(
                        k as usize,
                    ) ==> (#[trigger] self.deliveries@[k])@ == before.members[k],
        {
            assert(p < self.pending.len());
            let k: usize = self.pending[p];
            assert(k == before.pending[p as int]);
            proof {
                assert(before.pending.contains(k));
                assert(before.members[k as int].is_pending());
                if before.pending.take(p as int).contains(k) {
                    let q = choose|q: int| 0 <= q < p && before.pending.take(p as int)[q] == k;
                    assert(before.pending[q] < before.pending[p as int]);
                }
                assert(self.deliveries@[k as int]@ == before.members[k as int]);
            }
            let ghost deliveries = self.deliveries@;
            let again = self.deliveries[k].settle(result);
            keep.push(again);
            proof {
                assert(keep@ =~= before.again(given).take(p + 1));
                let taken = before.pending.take(p + 1);
                assert(taken =~= before.pending.take(p as int).push(k));
                assert forall|q: int| 0 <= q < p + 1 implies self.deliveries@[
                    #[trigger] before.pending[q] as int]@ == before.members[before.pending[q] as int].after(given[q]) by {
                    if q < p {
                        assert(before.pending[q] < before.pending[p as int]);
                        assert(deliveries[before.pending[q] as int] == self.deliveries@[before.pending[q] as int]);
                    }
                }
                assert forall|j: int|
                    0 <= j < self.deliveries@.len() && !taken.contains(j as usize) implies (
                #[trigger] self.deliveries@[j])@ == before.members[j] by {
                    assert(taken[p as int] == k);
                    assert(j != k);
                    assert(self.deliveries@[j] == deliveries[j]);
                    if before.pending.take(p as int).contains(j as usize) {
                        let q = choose|q: int|
                            0 <= q < p && before.pending.take(p as int)[q] == j as usize;
                        assert(taken[q] == j as usize);
                    }
                }
            }
            p += 1;
        }
        assert(keep@ =~= before.again(given));
        assert(before.pending.take(p as int) =~= before.pending);
        assert(self.deliveries.len() <= usize::MAX);
        let mut inputs: Vec<I> = Vec::new();
        std::mem::swap(&mut inputs, &mut self.inputs);
        self.inputs = keep_only(inputs, &keep);
        let mut pending: Vec<usize> = Vec::new();
        std::mem::swap(&mut pending, &mut self.pending);
        self.pending = keep_only(pending, &keep);
        proof {
            lemma_after(before, given, self@.members);
        }
        if self.pending.len() == 0 {
            self.status = if self.any_failed() {
                JobStatus::Failed
            } else {
                JobStatus::Completed
            };
        }
        proof {
            lemma_after_valid(before, given);
            assert(self@ =~= before.after(given));
            assert(is_round(before, attempt, given, self@));
        }
        if self.inputs.len() == 0 {
            BatchStep::Done
        } else {
            BatchStep::Run
        }
    }
}

/// What a round does to the member of a number that waits: it is run with the result at its
/// place, and waits again only if that permits it.
proof fn lemma_round_of_member<I, O, S>(
    before: BatchJobState<I, O, S>,
    results: Seq<Result<O, Error<S>>>,
    p: int,
)
    requires
        before.valid(),
        results.len() == before.pending.len(),
        before.members.len() <= usize::MAX,
        0 <= p < before.pending.len(),
    ensures
        ({
            let k = before.pending[p] as int;
            &&& before.members[k].is_pending()
            &&& before.after(results).members[k] == before.members[k].after(results[p])
        }),
{
    let k = before.pending[p];
    assert(before.pending.contains(k));
    let q = before.pending.index_of(k);
    assert(before.pending[q] == k);
    if p < q {
        assert(before.pending[p] < before.pending[q]);
    } else if q < p {
        assert(before.pending[q] < before.pending[p]);
    }
    assert(before.members[k as int].is_pending());
}

/// Failed inputs are retried without re-running those that gave a value: once a member has a
/// result it is not run again, and its result stays.
pub proof fn settled_inputs_are_not_run_again<I, O, S>(
    before: BatchJobState<I, O, S>,
    results: Seq<Result<O, Error<S>>>,
    k: int,
)
    requires
        before.valid(),
        results.len() == before.pending.len(),
        before.members.len() <= usize::MAX,
        0 <= k < before.members.len(),
        before.members[k].setter.result is Some,
    ensures
        before.after(results).members[k] == before.members[k],
        !before.after(results).pending.contains(k as usize),
{
    lemma_after_valid(before, results);
    assert(!before.members[k].is_pending());
    assert(!before.after(results).members[k].is_pending());
}

/// Each input has its own retry budget: a value and an error that is no error of the task are
/// handed over at once, and an error of the task once the budget is used up.
pub proof fn each_input_has_its_own_budget<I, O, S>(
    before: BatchJobState<I, O, S>,
    results: Seq<Result<O, Error<S>>>,
    p: int,
)
    requires
        before.valid(),
        results.len() == before.pending.len(),
        before.members.len() <= usize::MAX,
        0 <= p < before.pending.len(),
    ensures
        ({
            let k = before.pending[p];
            let member = before.members[k as int];
            let after = before.after(results);
            let retried = results[p] is Err && results[p]->Err_0 is TaskExecution
                && member.attempts + 1 < member.budget;
            &&& after.valid()
            &&& after.members[k as int].attempts == member.attempts + 1 <= member.budget
            &&& after.pending.contains(k) <==> retried
            &&& !retried ==> after.members[k as int].setter.result == Some(results[p])
        }),
{
    lemma_after_valid(before, results);
    lemma_round_of_member(before, results, p);
    let k = before.pending[p];
    assert(before.members[k as int].valid());
    assert(before.after(results).members[k as int].is_pending() <==> before.after(
        results,
    ).pending.contains(k));
}

/// A panic and a wrong number of results reach every input that was run, and end the batch: they
/// are never retried.
pub proof fn panic_and_mismatch_reach_every_input<I, O, S>(
    before: BatchJobState<I, O, S>,
    attempt: Attempt<Vec<Result<O, Error<S>>>, Error<S>>,
    results: Seq<Result<O, Error<S>>>,
    p: int,
)
    requires
        before.valid(),
        before.members.len() <= usize::MAX,
        answers(attempt, before.inputs.len() as int, results),
        attempt is Panicked || (attempt->Returned_0 is Ok && attempt->Returned_0->Ok_0@.len()
            != before.inputs.len()),
        0 <= p < before.pending.len(),
    ensures
        ({
            let after = before.after(results);
            let result = after.members[before.pending[p] as int].setter.result;
            &&& result is Some && result->0 is Err
            &&& attempt is Panicked ==> result->0->Err_0.is_panic_of(attempt->Panicked_0)
            &&& attempt is Returned ==> result->0->Err_0 == (Error::<S>::BatchSizeMismatch {
                expected: before.inputs.len() as usize,
                actual: attempt->Returned_0->Ok_0@.len() as usize,
            })
            &&& after.pending.len() == 0
            &&& after.status == JobStatus::Failed
        }),
{
    lemma_after_valid(before, results);
    lemma_round_of_member(before, results, p);
    let after = before.after(results);
    assert forall|q: int| 0 <= q < before.pending.len() implies !(#[trigger] before.again(
        results,
    )[q]) by {
        assert(results[q] is Err && !(results[q]->Err_0 is TaskExecution));
    }
    if after.pending.len() > 0 {
        lemma_kept_contains(before.pending, before.again(results), after.pending[0]);
        assert(after.pending.contains(after.pending[0]));
    }
    assert(results[p] is Err);
    assert(after.members[before.pending[p] as int].failed());
}

/// An error of the whole run counts as a failure of every input that was run, and an input that
/// is exhausted by it receives it.
pub proof fn outer_error_counts_for_every_input<I, O, S>(
    before: BatchJobState<I, O, S>,
    error: Error<S>,
    results: Seq<Result<O, Error<S>>>,
    p: int,
)
    requires
        before.valid(),
        before.members.len() <= usize::MAX,
        answers(
            Attempt::<Vec<Result<O, Error<S>>>, Error<S>>::Returned(Err(error)),
            before.inputs.len() as int,
            results,
        ),
        0 <= p < before.pending.len(),
    ensures
        ({
            let member = before.members[before.pending[p] as int];
            let after = before.after(results).members[before.pending[p] as int];
            &&& after.attempts == member.attempts + 1
            &&& member.attempts + 1 == member.budget ==> after.setter.result == Some(
                Err::<O, Error<S>>(error),
            )
        }),
{
    lemma_round_of_member(before, results, p);
    assert(results[p] == Err::<O, Error<S>>(error));
}

/// A batch whose inputs may each be run `most` times at most is over after as many rounds: the
/// inputs that wait were run in every round so far.
pub proof fn batch_is_over_within_its_budget<I, O, S>(
    before: BatchJobState<I, O, S>,
    results: Seq<Result<O, Error<S>>>,
    rounds: int,
    most: int,
)
    requires
        before.valid(),
        results.len() == before.pending.len(),
        before.members.len() <= usize::MAX,
        forall|k: int| 0 <= k < before.members.len() ==> #[trigger] before.members[k].budget <= most,
        forall|p: int|
            0 <= p < before.pending.len() ==> before.members[#[trigger] before.pending[p] as int].attempts
                == rounds,
    ensures
        ({
            let after = before.after(results);
            &&& after.valid()
            &&& forall|k: int|
                0 <= k < after.members.len() ==> #[trigger] after.members[k].budget <= most
            &&& forall|p: int|
                0 <= p < after.pending.len() ==> after.members[#[trigger] after.pending[p] as int].attempts
                    == rounds + 1
            &&& rounds + 1 >= most ==> after.pending.len() == 0
        }),
{
    let after = before.after(results);
    let keep = before.again(results);
    lemma_after_valid(before, results);
    assert forall|k: int| 0 <= k < after.members.len() implies #[trigger] after.members[k].budget
        <= most by {
        assert(before.members[k].budget <= most);
    }
    assert forall|p: int| 0 <= p < after.pending.len() implies after.members[
        #[trigger] after.pending[p] as int].attempts == rounds + 1 && rounds + 1 < most by {
        lemma_kept_contains(before.pending, keep, after.pending[p]);
        assert(after.pending.contains(after.pending[p]));
        let q = choose|q: int|
            0 <= q < before.pending.len() && keep[q] && #[trigger] before.pending[q]
                == after.pending[p];
        lemma_round_of_member(before, results, q);
        assert(before.members[before.pending[q] as int].budget <= most);
    }
    if after.pending.len() > 0 {
        let first = after.pending[0];
    }
}

/// A batch that is over has handed a result to every input that it began with, and failed if any
/// of these is an error.
pub proof fn finished_batch_answers_every_input<I, O, S>(
    before: BatchJobState<I, O, S>,
    results: Seq<Result<O, Error<S>>>,
    k: int,
)
    requires
        before.valid(),
        results.len() == before.pending.len(),
        before.members.len() <= usize::MAX,
        before.after(results).pending.len() == 0,
        0 <= k < before.members.len(),
    ensures
        before.after(results).members[k].setter.result is Some,
        before.after(results).status == JobStatus::Failed <==> any_delivery_failed(
            before.after(results).members,
        ),
        before.after(results).status == JobStatus::Failed || before.after(results).status
            == JobStatus::Completed,
{
    lemma_after_valid(before, results);
    assert(before.after(results).members[k].is_pending() <==> before.after(
        results,
    ).pending.contains(k as usize));
}

/// Whether these are the rounds of a batch: what it was before each and after the last, what the
/// task came to in each, and the results that it gave those that waited.
pub open spec fn are_rounds<I, O, S>(
    states: Seq<BatchJobState<I, O, S>>,
    attempts: Seq<Attempt<Vec<Result<O, Error<S>>>, Error<S>>>,
    results: Seq<Seq<Result<O, Error<S>>>>,
) -> bool {
    &&& states.len() == attempts.len() + 1
    &&& results.len() == attempts.len()
    &&& forall|r: int|
        #![trigger attempts[r]]
        0 <= r < attempts.len() ==> is_round(states[r], attempts[r], results[r], states[r + 1])
}

/// In how many of the first `n` rounds the member of this number was run.
pub open spec fn runs_of<I, O, S>(states: Seq<BatchJobState<I, O, S>>, n: int, k: int) -> int
    decreases n,
{
    if n <= 0 {
        0
    } else if states[n - 1].pending.contains(k as usize) {
        runs_of(states, n - 1, k) + 1
    } else {
        runs_of(states, n - 1, k)
    }
}

/// The result that the member of this number got when those that wait got these.
pub open spec fn result_of<I, O, S>(
    state: BatchJobState<I, O, S>,
    results: Seq<Result<O, Error<S>>>,
    k: int,
) -> Result<O, Error<S>> {
    results[state.pending.index_of(k as usize)]
}

/// Whether the member of this number was run in round `r`, got the result that it ended with, and
/// was handed it.
pub open spec fn settles_in<I, O, S>(
    states: Seq<BatchJobState<I, O, S>>,
    results: Seq<Seq<Result<O, Error<S>>>>,
    k: int,
    r: int,
) -> bool {
    let member = states[r].members[k];
    let result = result_of(states[r], results[r], k);
    &&& states[r].pending.contains(k as usize)
    &&& !member.again(result)
    &&& states[r + 1].members[k].setter.result == Some(result)
    &&& handed(member.setter.channel, result)
}

/// What one round does to the member of a number.
proof fn lemma_round<I, O, S>(
    before: BatchJobState<I, O, S>,
    attempt: Attempt<Vec<Result<O, Error<S>>>, Error<S>>,
    results: Seq<Result<O, Error<S>>>,
    after: BatchJobState<I, O, S>,
    k: int,
)
    requires
        is_round(before, attempt, results, after),
        0 <= k < before.members.len(),
    ensures
        after.valid(),
        after.members.len() == before.members.len(),
        before.members[k].is_pending() <==> before.pending.contains(k as usize),
        after.members[k].is_pending() <==> after.pending.contains(k as usize),
        before.pending.contains(k as usize) ==> {
            let result = result_of(before, results, k);
            &&& after.members[k] == before.members[k].after(result)
            &&& !before.members[k].again(result) ==> handed(before.members[k].setter.channel, result)
        },
        !before.pending.contains(k as usize) ==> after.members[k] == before.members[k],
{
    lemma_after_valid(before, results);
    assert(before.members[k].is_pending() <==> before.pending.contains(k as usize));
    assert(after.members[k].is_pending() <==> after.pending.contains(k as usize));
    if before.pending.contains(k as usize) {
        let p = before.pending.index_of(k as usize);
        assert(before.pending[p] == k as usize);
        assert(before.again(results)[p] == before.members[k].again(results[p]));
    }
}

/// A member that has a result keeps it and is not run again.
proof fn lemma_settled_stays<I, O, S>(
    states: Seq<BatchJobState<I, O, S>>,
    attempts: Seq<Attempt<Vec<Result<O, Error<S>>>, Error<S>>>,
    results: Seq<Seq<Result<O, Error<S>>>>,
    k: int,
    from: int,
    to: int,
)
    requires
        are_rounds(states, attempts, results),
        0 <= k < states[0].members.len(),
        states[from].valid(),
        states[from].members.len() == states[0].members.len() <= usize::MAX,
        0 <= from <= to < states.len(),
        states[from].members[k].setter.result is Some,
    ensures
        states[to].members[k] == states[from].members[k],
        !states[to].pending.contains(k as usize),
        states[to].members.len() == states[0].members.len(),
    decreases to,
{
    if from == to {
        assert(!states[from].members[k].is_pending());
    } else {
        lemma_settled_stays(states, attempts, results, k, from, to - 1);
        lemma_round(states[to - 1], attempts[to - 1], results[to - 1], states[to], k);
    }
}

/// What holds of the member of a number after `n` rounds.
proof fn lemma_rounds<I, O, S>(
    states: Seq<BatchJobState<I, O, S>>,
    attempts: Seq<Attempt<Vec<Result<O, Error<S>>>, Error<S>>>,
    results: Seq<Seq<Result<O, Error<S>>>>,
    k: int,
    n: int,
)
    requires
        are_rounds(states, attempts, results),
        states[0].valid(),
        0 <= k < states[0].members.len() <= usize::MAX,
        states[0].members[k].attempts == 0,
        states[0].members[k].is_pending(),
        0 <= n < states.len(),
    ensures
        states[n].valid(),
        states[n].members.len() == states[0].members.len(),
        states[n].members[k].attempts == runs_of(states, n, k),
        states[n].members[k].budget == states[0].members[k].budget,
        states[n].members[k].setter.channel == states[0].members[k].setter.channel,
        states[n].members[k].setter.result is Some ==> exists|r: int|
            0 <= r < n && #[trigger] settles_in(states, results, k, r)
                && states[n].members[k] == states[r + 1].members[k],
    decreases n,
{
    if n > 0 {
        lemma_rounds(states, attempts, results, k, n - 1);
        lemma_round(states[n - 1], attempts[n - 1], results[n - 1], states[n], k);
        if states[n].members[k].setter.result is Some {
            if states[n - 1].pending.contains(k as usize) {
                assert(settles_in(states, results, k, n - 1));
            } else {
                let r = choose|r: int|
                    0 <= r < n - 1 && #[trigger] settles_in(states, results, k, r)
                        && states[n - 1].members[k] == states[r + 1].members[k];
                assert(settles_in(states, results, k, r));
            }
        }
    }
}

/// However many rounds a batch goes through, an input is run in no more of them than its budget
/// permits. The future of one that is done was handed the result of the last run that it took part
/// in: a value or an error that is no error of the task, or else the error of the run that used up
/// the budget.
pub proof fn input_gets_the_result_of_its_last_run<I, O, S>(
    states: Seq<BatchJobState<I, O, S>>,
    attempts: Seq<Attempt<Vec<Result<O, Error<S>>>, Error<S>>>,
    results: Seq<Seq<Result<O, Error<S>>>>,
    k: int,
)
    requires
        are_rounds(states, attempts, results),
        states[0].valid(),
        0 <= k < states[0].members.len() <= usize::MAX,
        states[0].members[k].attempts == 0,
        states[0].members[k].is_pending(),
    ensures
        ({
            let n = attempts.len() as int;
            let first = states[0].members[k];
            let last = states[n].members[k];
            &&& runs_of(states, n, k) <= first.budget
            &&& last.setter.channel == first.setter.channel
            &&& last.is_pending() <==> states[n].pending.contains(k as usize)
            &&& !last.is_pending() ==> exists|r: int|
                {
                    let result = result_of(states[r], results[r], k);
                    &&& 0 <= r < n
                    &&& #[trigger] settles_in(states, results, k, r)
                    &&& last.setter.result == Some(result)
                    &&& handed(first.setter.channel, result)
                    &&& result is Err && result->Err_0 is TaskExecution ==> runs_of(states, n, k)
                        == first.budget
                    &&& forall|later: int|
                        r < later <= n ==> !(#[trigger] states[later]).pending.contains(k as usize)
                }
        }),
{
    let n = attempts.len() as int;
    let first = states[0].members[k];
    let last = states[n].members[k];
    lemma_rounds(states, attempts, results, k, n);
    assert(last.valid());
    assert(last.is_pending() <==> states[n].pending.contains(k as usize));
    if !last.is_pending() {
        let r = choose|r: int|
            0 <= r < n && #[trigger] settles_in(states, results, k, r) && last
                == states[r + 1].members[k];
        lemma_rounds(states, attempts, results, k, r);
        lemma_rounds(states, attempts, results, k, r + 1);
        assert(states[r].members[k].valid());
        assert forall|later: int| r < later <= n implies !(
        #[trigger] states[later]).pending.contains(k as usize) by {
            lemma_settled_stays(states, attempts, results, k, r + 1, later);
        }
        let result = result_of(states[r], results[r], k);
        lemma_round(states[r], attempts[r], results[r], states[r + 1], k);
        assert(last.setter.result == Some(result));
    }
}

/// An input that gave a value is in no later run, however many there are, and its future was
/// handed that value.
pub proof fn value_ends_its_input<I, O, S>(
    states: Seq<BatchJobState<I, O, S>>,
    attempts: Seq<Attempt<Vec<Result<O, Error<S>>>, Error<S>>>,
    results: Seq<Seq<Result<O, Error<S>>>>,
    k: int,
    r: int,
    later: int,
)
    requires
        are_rounds(states, attempts, results),
        states[0].valid(),
        0 <= k < states[0].members.len() <= usize::MAX,
        states[0].members[k].attempts == 0,
        states[0].members[k].is_pending(),
        0 <= r < attempts.len(),
        states[r].pending.contains(k as usize),
        result_of(states[r], results[r], k) is Ok,
        r < later <= attempts.len(),
    ensures
        !states[later].pending.contains(k as usize),
        states[later].members[k].setter.result == Some(result_of(states[r], results[r], k)),
        handed(states[0].members[k].setter.channel, result_of(states[r], results[r], k)),
{
    lemma_rounds(states, attempts, results, k, r);
    lemma_rounds(states, attempts, results, k, r + 1);
    lemma_round(states[r], attempts[r], results[r], states[r + 1], k);
    lemma_settled_stays(states, attempts, results, k, r + 1, later);
}

/// What is kept of two sequences by the same choice stays together.
proof fn lemma_kept_together<A>(
    items: Seq<A>,
    numbers: Seq<usize>,
    all: Seq<A>,
    keep: Seq<bool>,
)
    requires
        items.len() == numbers.len(),
        forall|p: int|
            0 <= p < numbers.len() ==> #[trigger] numbers[p] < all.len() && items[p]
                == all[numbers[p] as int],
    ensures
        kept(items, keep).len() == kept(numbers, keep).len(),
        forall|p: int|
            0 <= p < kept(numbers, keep).len() ==> #[trigger] kept(numbers, keep)[p] < all.len()
                && kept(items, keep)[p] == all[kept(numbers, keep)[p] as int],
    decreases items.len(),
{
    if items.len() > 0 {
        let n = items.len() - 1;
        assert(numbers[n] < all.len());
        lemma_kept_together(items.drop_last(), numbers.drop_last(), all, keep);
    }
}

/// Inputs stay with their members: in every round, the input at a place is the one that the member
/// at that place began with. So the results of a round, which come in the order of the inputs, reach
/// the futures of the inputs that they are the results of.
pub proof fn inputs_stay_with_their_members<I, O, S>(
    states: Seq<BatchJobState<I, O, S>>,
    attempts: Seq<Attempt<Vec<Result<O, Error<S>>>, Error<S>>>,
    results: Seq<Seq<Result<O, Error<S>>>>,
    r: int,
    p: int,
)
    requires
        are_rounds(states, attempts, results),
        states[0].valid(),
        states[0].inputs.len() == states[0].members.len(),
        forall|k: int|
            0 <= k < states[0].pending.len() ==> #[trigger] states[0].pending[k] as int == k,
        0 <= r < states.len(),
        0 <= p < states[r].pending.len(),
    ensures
        states[r].inputs.len() == states[r].pending.len(),
        states[r].pending[p] < states[0].inputs.len(),
        states[r].inputs[p] == states[0].inputs[states[r].pending[p] as int],
        r < attempts.len() ==> {
            let k = states[r].pending[p] as int;
            let before = states[r].members[k];
            let after = states[r + 1].members[k];
            let result = results[r][p];
            let retried = result is Err && result->Err_0 is TaskExecution && before.attempts + 1
                < before.budget;
            &&& results[r].len() == states[r].inputs.len()
            &&& after.attempts == before.attempts + 1
            &&& after.budget == before.budget
            &&& retried ==> after.setter == before.setter
            &&& !retried ==> {
                &&& after.setter.result == Some(result)
                &&& after.setter.channel == before.setter.channel
                &&& handed(before.setter.channel, result)
            }
            &&& retried <==> states[r + 1].pending.contains(k as usize)
        },
    decreases r,
{
    lemma_inputs_stay(states, attempts, results, r);
    assert(states[r].pending[p] < states[0].inputs.len());
    if r < attempts.len() {
        let k = states[r].pending[p];
        let round = attempts[r];
        assert(is_round(states[r], round, results[r], states[r + 1]));
        lemma_round_of_member(states[r], results[r], p);
        assert(states[r].again(results[r])[p] == states[r].members[k as int].again(results[r][p]));
        lemma_round(states[r], round, results[r], states[r + 1], k as int);
        assert(states[r].members[k as int].valid());
    }
}

/// What [`inputs_stay_with_their_members`] says of all places of a round.
proof fn lemma_inputs_stay<I, O, S>(
    states: Seq<BatchJobState<I, O, S>>,
    attempts: Seq<Attempt<Vec<Result<O, Error<S>>>, Error<S>>>,
    results: Seq<Seq<Result<O, Error<S>>>>,
    r: int,
)
    requires
        are_rounds(states, attempts, results),
        states[0].valid(),
        states[0].inputs.len() == states[0].members.len(),
        forall|k: int|
            0 <= k < states[0].pending.len() ==> #[trigger] states[0].pending[k] as int == k,
        0 <= r < states.len(),
    ensures
        states[r].inputs.len() == states[r].pending.len(),
        forall|p: int|
            0 <= p < states[r].pending.len() ==> #[trigger] states[r].pending[p]
                < states[0].inputs.len() && states[r].inputs[p]
                == states[0].inputs[states[r].pending[p] as int],
    decreases r,
{
    if r > 0 {
        lemma_inputs_stay(states, attempts, results, r - 1);
        let round = attempts[r - 1];
        let before = states[r - 1];
        assert(is_round(before, round, results[r - 1], states[r]));
        lemma_kept_together(
            before.inputs,
            before.pending,
            states[0].inputs,
            before.again(results[r - 1]),
        );
    }
}

/// The inputs that are run together in a round are those that have no result yet, each once, in the
/// order in which they were gathered.
pub proof fn round_runs_what_has_no_result<I, O, S>(batch: BatchJobState<I, O, S>, k: int)
    requires
        batch.valid(),
        0 <= k < batch.members.len() <= usize::MAX,
    ensures
        batch.inputs.len() == batch.pending.len(),
        batch.members[k].setter.result is None <==> exists|p: int|
            0 <= p < batch.pending.len() && #[trigger] batch.pending[p] == k,
        forall|p: int, q: int|
            0 <= p < q < batch.pending.len() ==> #[trigger] batch.pending[p]
                < #[trigger] batch.pending[q],
{
    assert(batch.members[k].is_pending() <==> batch.pending.contains(k as usize));
    if exists|p: int| 0 <= p < batch.pending.len() && #[trigger] batch.pending[p] == k {
        let p = choose|p: int| 0 <= p < batch.pending.len() && #[trigger] batch.pending[p] == k;
        assert(batch.pending[p] == k as usize);
        assert(batch.pending.contains(k as usize));
    }
}

/// What a round of a task comes to for each input: a task that returns a result for each gives the
/// input at a place the result at that place. One that returns too few or too many, an error for
/// all, or panics, gives every input the same error.
pub proof fn results_keep_the_places_of_their_inputs<O, S>(
    attempt: Attempt<Vec<Result<O, Error<S>>>, Error<S>>,
    n: int,
    results: Seq<Result<O, Error<S>>>,
    p: int,
)
    requires
        answers(attempt, n, results),
        0 <= p < n <= usize::MAX,
    ensures
        results.len() == n,
        match attempt {
            Attempt::Returned(Ok(returned)) => if returned@.len() == n {
                results[p] == returned@[p]
            } else {
                results[p] matches Err(Error::BatchSizeMismatch { expected, actual }) && expected
                    == n && actual == returned@.len()
            },
            Attempt::Returned(Err(error)) => results[p] == Err::<O, Error<S>>(error),
            Attempt::Panicked(panic) => {
                &&& results[p] matches Err(Error::TaskPanic(message)) && message@ == match panic {
                    PanicPayload::Literal(text) => text@,
                    PanicPayload::Owned(text) => text@,
                    PanicPayload::Opaque => "unknown panic"@,
                }
                &&& results[p] == results[0]
            },
        },
{
    let result = results[p];
    let first = results[0];
    if let Attempt::Returned(Ok(returned)) = attempt {
        assert(returned.len() == returned@.len());
    }
}

/// An input may be run as often as it asked for, and once where it asked for less. It is run again
/// only for an error of the task and only while that permits it; otherwise its future is told the
/// result. A batch is over when no input is left to run, and has failed if the future of any input
/// was told an error.
pub proof fn each_input_is_run_as_often_as_it_asked<I, O, S>(
    max_retries: int,
    setter: SetterState<O, S>,
    member: DeliveryState<O, S>,
    result: Result<O, Error<S>>,
    before: BatchJobState<I, O, S>,
    results: Seq<Result<O, Error<S>>>,
)
    requires
        0 <= max_retries,
        member.setter.result is None,
        before.valid(),
        before.members.len() <= usize::MAX,
        results.len() == before.pending.len(),
    ensures
        ({
            let fresh = DeliveryState::fresh(max_retries, setter);
            &&& fresh.budget >= 1
            &&& fresh.budget == max_retries || (max_retries == 0 && fresh.budget == 1)
            &&& fresh.attempts == 0
            &&& fresh.setter == setter
        }),
        ({
            let after = member.after(result);
            let retried = result is Err && result->Err_0 is TaskExecution && member.attempts + 1
                < member.budget;
            &&& member.again(result) <==> retried
            &&& after.attempts == member.attempts + 1
            &&& after.budget == member.budget
            &&& after.setter.channel == member.setter.channel
            &&& after.setter.result == if retried {
                None
            } else {
                Some(result)
            }
        }),
        ({
            let after = before.after(results);
            &&& after.inputs.len() > 0 ==> after.status == before.status
            &&& after.inputs.len() == 0 ==> {
                ||| after.status == JobStatus::Failed && exists|k: int|
                    0 <= k < after.members.len() && (#[trigger] after.members[k]).setter.result
                        is Some && after.members[k].setter.result->0 is Err
                ||| after.status == JobStatus::Completed && forall|k: int|
                    0 <= k < after.members.len() ==> (#[trigger] after.members[k]).setter.result
                        is Some && after.members[k].setter.result->0 is Ok
            }
        }),
{
    let after = before.after(results);
    lemma_after_valid(before, results);
    if after.inputs.len() == 0 {
        if after.status == JobStatus::Failed {
            let k = choose|k: int|
                0 <= k < after.members.len() && #[trigger] after.members[k].failed();
            assert(after.members[k].failed());
        } else {
            assert forall|k: int| 0 <= k < after.members.len() implies (
            #[trigger] after.members[k]).setter.result is Some && after.members[k].setter.result->0
                is Ok by {
                assert(after.members[k].is_pending() <==> after.pending.contains(k as usize));
                assert(!after.members[k].failed());
            }
        }
    }
}

} // verus!
