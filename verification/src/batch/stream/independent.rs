//! Stream batches that prepare once and then run one stream for each member.

use std::collections::VecDeque;

use futures::channel::mpsc;
use vstd::prelude::*;

use crate::batch::stream::member::{finishes, states, MemberState, StreamBatchMember};
use crate::batch::stream::mode::{batch_status_of, status_of, StreamBatchMode};
use crate::batch::stream::traits::IndependentBatchStreamTask;
use crate::channel::{accepted, full, lemma_took_more, lost, took, Sent};
use crate::error::{Error, PanicPayload};
use crate::job::JobStatus;
use crate::task::{
    delivered, gives, lemma_delivered_more, lemma_took_delivered, offers_of, report, reports, Attempt,
    Driven, StreamPoll,
};

verus! {

/// Runs a batch from a shared preparation and one stream for each member.
#[derive(Debug, Clone, Copy)]
pub struct Independent;

impl<B: IndependentBatchStreamTask> StreamBatchMode<B> for Independent {
    type Input = B::Input;

    type Item = B::Item;

    type Error = B::Error;
}

/// Where an independent batch is.
pub enum IndependentPhase {
    /// The batch is being prepared.
    Preparing,
    /// The members' streams are being run.
    Running {
        /// How many of them are not done.
        left: int,
        /// Whether any of those that are done failed.
        failed: bool,
    },
    /// The batch is over.
    Over(JobStatus),
}

/// How far an independent batch is, as a mathematical value.
pub struct IndependentState {
    /// How many members the batch has.
    pub members: int,
    /// How many of them departed while the batch was being prepared.
    pub departed: int,
    /// Where the batch is.
    pub phase: IndependentPhase,
}

impl IndependentState {
    /// A batch that begins with this many members. Without any it is over at once.
    pub open spec fn begin(members: int) -> Self {
        IndependentState {
            members,
            departed: 0,
            phase: if members == 0 {
                IndependentPhase::Over(JobStatus::Completed)
            } else {
                IndependentPhase::Preparing
            },
        }
    }

    /// What holds of every batch.
    pub open spec fn valid(self) -> bool {
        &&& 0 <= self.departed <= self.members
        &&& self.phase is Preparing ==> self.departed < self.members
        &&& self.phase is Running ==> 0 < self.phase->left <= self.members
    }

    /// The batch after a member departed while it was being prepared, or after it turned out
    /// that no member is left who could. It is given up when nobody is left to prepare for.
    pub open spec fn after_departure(self, departure: Option<usize>) -> Self {
        if departure is None {
            IndependentState { phase: IndependentPhase::Over(JobStatus::Failed), ..self }
        } else if self.departed + 1 == self.members {
            IndependentState {
                departed: self.departed + 1,
                phase: IndependentPhase::Over(JobStatus::Failed),
                ..self
            }
        } else {
            IndependentState { departed: self.departed + 1, ..self }
        }
    }

    /// The batch after the preparation, when there are `inputs` for the members.
    pub open spec fn after_preparation(self, prepared: bool, inputs: int) -> Self {
        let left = if inputs <= self.members {
            inputs
        } else {
            self.members
        };
        IndependentState {
            phase: if !prepared {
                IndependentPhase::Over(JobStatus::Failed)
            } else if left == 0 {
                IndependentPhase::Over(JobStatus::Completed)
            } else {
                IndependentPhase::Running { left, failed: false }
            },
            ..self
        }
    }

    /// The batch after a member is done.
    pub open spec fn after_member(self, failed: bool) -> Self {
        let failed = failed || self.phase->failed;
        IndependentState {
            phase: if self.phase->left == 1 {
                IndependentPhase::Over(status_of(failed))
            } else {
                IndependentPhase::Running { left: self.phase->left - 1, failed }
            },
            ..self
        }
    }

    /// The batch after several members are done, one after the other.
    pub open spec fn after_members(self, failures: Seq<bool>) -> Self
        decreases failures.len(),
    {
        if failures.len() == 0 {
            self
        } else {
            self.after_members(failures.drop_last()).after_member(failures.last())
        }
    }

    /// The status of the batch, once it is over.
    pub open spec fn status(self) -> Option<JobStatus> {
        match self.phase {
            IndependentPhase::Over(status) => Some(status),
            _ => None,
        }
    }
}

/// An independent batch that is being run.
pub struct IndependentRun {
    members: usize,
    departed: usize,
    left: usize,
    failed: bool,
    status: Option<JobStatus>,
}

impl View for IndependentRun {
    type V = IndependentState;

    closed spec fn view(&self) -> IndependentState {
        IndependentState {
            members: self.members as int,
            departed: self.departed as int,
            phase: match self.status {
                Some(status) => IndependentPhase::Over(status),
                None => if self.left == 0 {
                    IndependentPhase::Preparing
                } else {
                    IndependentPhase::Running { left: self.left as int, failed: self.failed }
                },
            },
        }
    }
}

impl IndependentRun {
    /// A batch that begins with this many members.
    pub fn new(members: usize) -> (run: Self)
        ensures
            run@ == IndependentState::begin(members as int),
            run@.valid(),
    {
        IndependentRun {
            members,
            departed: 0,
            left: 0,
            failed: false,
            status: if members == 0 {
                Some(JobStatus::Completed)
            } else {
                None
            },
        }
    }

    /// The status of the batch, once it is over.
    pub fn status(&self) -> (status: Option<JobStatus>)
        ensures
            status == self@.status(),
    {
        self.status
    }

    /// Whether the batch is being prepared. It is prepared once at most.
    pub fn is_preparing(&self) -> (preparing: bool)
        ensures
            preparing == (self@.phase is Preparing),
    {
        self.status.is_none() && self.left == 0
    }

    /// Records a departure while the batch is being prepared.
    pub fn departs(&mut self, departure: Option<usize>)
        requires
            old(self)@.valid(),
            old(self)@.phase is Preparing,
        ensures
            final(self)@ == old(self)@.after_departure(departure),
            final(self)@.valid(),
    {
        if departure.is_none() {
            self.status = Some(JobStatus::Failed);
            return;
        }
        self.departed += 1;
        if self.departed == self.members {
            self.status = Some(JobStatus::Failed);
        }
    }

    /// Records what came of the preparation, when there are `inputs` for the members. Hands out
    /// what was prepared, or else the error that every member ends with.
    pub fn prepared<P, E: std::fmt::Display>(
        &mut self,
        attempt: Attempt<P, E>,
        inputs: usize,
    ) -> (prepared: Result<P, Error<E>>)
        requires
            old(self)@.valid(),
            old(self)@.phase is Preparing,
        ensures
            final(self)@ == old(self)@.after_preparation(is_prepared(attempt), inputs as int),
            !(final(self)@.phase is Preparing),
            final(self)@.valid(),
            prepared is Ok <==> is_prepared(attempt),
            match prepared {
                Ok(shared) => attempt == Attempt::<P, E>::Returned(Ok(shared)),
                Err(error) => preparation_error(attempt, error),
            },
    {
        let prepared = Independent::prepared(attempt);
        if prepared.is_err() {
            self.status = Some(JobStatus::Failed);
            return prepared;
        }
        self.left = if inputs <= self.members {
            inputs
        } else {
            self.members
        };
        self.failed = false;
        if self.left == 0 {
            self.status = Some(JobStatus::Completed);
        }
        prepared
    }

    /// Records that a member is done, and whether it failed.
    pub fn member_done(&mut self, failed: bool)
        requires
            old(self)@.valid(),
            old(self)@.phase is Running,
        ensures
            final(self)@ == old(self)@.after_member(failed),
            final(self)@.valid(),
    {
        self.failed = failed || self.failed;
        self.left -= 1;
        if self.left == 0 {
            self.status = Some(batch_status_of(self.failed));
        }
    }
}

/// Whether `error` is how a job reports a preparation that came to `attempt`.
pub open spec fn preparation_error<P, E: std::fmt::Display>(
    attempt: Attempt<P, E>,
    error: Error<E>,
) -> bool {
    match attempt {
        Attempt::Returned(Ok(_)) => false,
        Attempt::Returned(Err(source)) => error.is_execution_of(source),
        Attempt::Panicked(panic) => error.is_panic_of(panic),
    }
}

/// Whether the preparation succeeded.
pub open spec fn is_prepared<P, E>(attempt: Attempt<P, E>) -> bool {
    attempt is Returned && attempt->Returned_0 is Ok
}

impl Independent {
    /// What was prepared, or the error that every member ends with.
    pub fn prepared<P, E: std::fmt::Display>(attempt: Attempt<P, E>) -> (prepared: Result<
        P,
        Error<E>,
    >)
        ensures
            match prepared {
                Ok(shared) => attempt == Attempt::<P, E>::Returned(Ok(shared)),
                Err(error) => preparation_error(attempt, error),
            },
            prepared is Ok <==> is_prepared(attempt),
    {
        match attempt {
            Attempt::Returned(Ok(shared)) => Ok(shared),
            Attempt::Returned(Err(error)) => Err(Error::task_execution(error)),
            Attempt::Panicked(panic) => Err(Error::from_panic(panic)),
        }
    }

    /// Ends every member with the same error.
    pub fn fail_all<T, S>(members: &mut Vec<StreamBatchMember<T, S>>, error: Error<S>)
        ensures
            states(final(members)@) == states(old(members)@).map_values(
                |state: MemberState<T, S>| state.finish(Err(error)),
            ),
            forall|i: int|
                0 <= i < old(members)@.len() ==> finishes(
                    states(old(members)@)[i],
                    Err(error),
                    #[trigger] states(final(members)@)[i],
                ),
    {
        let mut i: usize = 0;
        while i < members.len()
            invariant
                i <= members@.len(),
                members@.len() == old(members)@.len(),
                forall|k: int|
                    0 <= k < i ==> finishes(
                        old(members)@[k]@,
                        Err(error),
                        (#[trigger] members@[k])@,
                    ),
                forall|k: int| i <= k < members@.len() ==> members@[k] == old(members)@[k],
            decreases members@.len() - i,
        {
            members[i].finish(Err(error.clone()));
            i += 1;
        }
        assert(states(members@) =~= states(old(members)@).map_values(
            |state: MemberState<T, S>| state.finish(Err(error)),
        ));
    }
}

/// What to do next while a member's stream runs.
pub enum MemberStep<T, S> {
    /// Ask the stream for its next item.
    Poll,
    /// Send the item, once the consumer has room for it.
    Send(Result<T, Error<S>>),
    /// Stop: the member has its outcome. Says whether that is an error.
    Done(bool),
}

impl<T, E: std::fmt::Display> StreamBatchMember<T, E> {
    /// Begins to run the member. One whose consumer is gone is done at once; says whether it
    /// failed.
    pub fn begin(&mut self) -> (done: Option<bool>)
        ensures
            done is None <==> old(self)@.is_open(),
            done is None ==> final(self)@ == old(self)@,
            done is Some ==> {
                &&& finishes(old(self)@, Err(Error::ConsumerCancelled), final(self)@)
                &&& done->0 == final(self)@.failed()
            },
    {
        if !self.is_open() {
            self.finish(Err(Error::consumer_cancelled()));
            return Some(self.failed());
        }
        None
    }

    /// Ends the member with a panic, of its stream or of making it. Says whether it failed.
    pub fn panicked(&mut self, panic: PanicPayload) -> (failed: bool)
        ensures
            exists|error: Error<E>|
                #[trigger] error.is_panic_of(panic) && finishes(
                    old(self)@,
                    Err(error),
                    final(self)@,
                ),
            failed == final(self)@.failed(),
    {
        self.finish(Err(Error::from_panic(panic)));
        self.failed()
    }

    /// Goes on after the member's stream was asked for an item. An error in the place of an
    /// item is sent like an item.
    pub fn polled(&mut self, poll: StreamPoll<T, E>) -> (step: MemberStep<T, E>)
        ensures
            match poll {
                StreamPoll::Item(item) => {
                    &&& step is Send
                    &&& reports(item, step->Send_0)
                    &&& final(self)@ == old(self)@
                },
                StreamPoll::End => {
                    &&& finishes(old(self)@, Ok(()), final(self)@)
                    &&& step == MemberStep::<T, E>::Done(final(self)@.failed())
                },
                StreamPoll::Panicked(panic) => {
                    &&& exists|error: Error<E>|
                        #[trigger] error.is_panic_of(panic) && finishes(
                            old(self)@,
                            Err(error),
                            final(self)@,
                        )
                    &&& step == MemberStep::<T, E>::Done(final(self)@.failed())
                },
            },
    {
        match poll {
            StreamPoll::Item(item) => MemberStep::Send(report(item)),
            StreamPoll::End => {
                self.finish(Ok(()));
                MemberStep::Done(self.failed())
            },
            StreamPoll::Panicked(panic) => MemberStep::Done(self.panicked(panic)),
        }
    }

    /// Goes on after an item was sent. One for which there was no room is sent again. A member
    /// that cannot be sent an item any more is done.
    pub fn sent(&mut self, sent: Result<Sent<Result<T, Error<E>>>, Error<E>>) -> (step: MemberStep<
        T,
        E,
    >)
        ensures
            match sent {
                Ok(Sent::Done) => step is Poll && final(self)@ == old(self)@,
                Ok(Sent::Wait(item)) => {
                    &&& step == MemberStep::<T, E>::Send(item)
                    &&& final(self)@ == old(self)@
                },
                Err(error) => {
                    &&& finishes(old(self)@, Err(error), final(self)@)
                    &&& step == MemberStep::<T, E>::Done(final(self)@.failed())
                },
            },
    {
        match sent {
            Ok(Sent::Done) => MemberStep::Poll,
            Ok(Sent::Wait(item)) => MemberStep::Send(item),
            Err(error) => {
                self.finish(Err(error));
                MemberStep::Done(self.failed())
            },
        }
    }
}

/// A member after its channel took these items, with the sending end being `end` then.
pub open spec fn fed<T, S>(
    member: MemberState<T, S>,
    items: Seq<Result<T, Error<S>>>,
    end: mpsc::Sender<Result<T, Error<S>>>,
) -> MemberState<T, S> {
    MemberState { end: Some(end), sent: member.sent + items, ..member }
}

/// Whether a member that was attached `before` can be `after` once its stream gave `polls`, its
/// channel took `items`, with the sending end being in turn each of `ends`, and it came to `run`:
/// each item is one that the stream gave, in order. The first poll that gave no item decides the
/// outcome. An item for a consumer that is gone cancels the member; one for which the channel is
/// full comes back, and the member has no outcome yet. Neither has it where the polls ran out.
pub open spec fn runs_stream<T, E: std::fmt::Display>(
    before: MemberState<T, E>,
    polls: Seq<StreamPoll<T, E>>,
    items: Seq<Result<T, Error<E>>>,
    ends: Seq<mpsc::Sender<Result<T, Error<E>>>>,
    run: Driven<bool, T, E>,
    after: MemberState<T, E>,
) -> bool {
    let fed = fed(before, items, ends.last());
    let n = items.len() as int;
    &&& n <= polls.len()
    &&& n > 0 ==> before.is_open()
    &&& took(ends, items)
    &&& before.end == Some(ends[0])
    &&& forall|i: int| 0 <= i < items.len() ==> gives(polls[i], #[trigger] items[i])
    &&& match run {
        Driven::Starved => n == polls.len() && after == fed,
        Driven::Blocked { item, polls: rest } => {
            &&& n < polls.len()
            &&& before.is_open()
            &&& gives(polls[n], item)
            &&& rest@ == polls.skip(n + 1)
            &&& after.end is Some
            &&& full(ends.last(), item, after.end->0)
            &&& after == fed.keep(after.end->0)
        },
        Driven::Over(failed) => {
            &&& n < polls.len()
            &&& failed == after.failed()
            &&& match polls[n] {
                StreamPoll::Item(item) => {
                    &&& before.is_open() ==> exists|
                        wrapped: Result<T, Error<E>>,
                        end: mpsc::Sender<Result<T, Error<E>>>,
                    | reports(item, wrapped) && #[trigger] lost(ends.last(), wrapped, end)
                    &&& finishes(fed, Err(Error::ConsumerCancelled), after)
                },
                StreamPoll::End => finishes(fed, Ok(()), after),
                StreamPoll::Panicked(panic) => exists|error: Error<E>|
                    #[trigger] error.is_panic_of(panic) && finishes(fed, Err(error), after),
            }
        },
    }
}

impl Independent {
    /// Begins to run a member, and runs it on what its stream gives, in order, as
    /// [`Independent::go_on`] does. `construction` is the panic of making the stream, if there
    /// was one. A member whose consumer is gone is over at once.
    pub fn run_member<T, E: std::fmt::Display>(
        member: &mut StreamBatchMember<T, E>,
        construction: Option<PanicPayload>,
        polls: VecDeque<StreamPoll<T, E>>,
    ) -> (run: Driven<bool, T, E>)
        ensures
            if !old(member)@.is_open() {
                &&& run == Driven::<bool, T, E>::Over(final(member)@.failed())
                &&& finishes(old(member)@, Err(Error::ConsumerCancelled), final(member)@)
            } else if construction is Some {
                &&& run == Driven::<bool, T, E>::Over(final(member)@.failed())
                &&& exists|error: Error<E>|
                    #[trigger] error.is_panic_of(construction->0) && finishes(
                        old(member)@,
                        Err(error),
                        final(member)@,
                    )
            } else {
                exists|
                    items: Seq<Result<T, Error<E>>>,
                    ends: Seq<mpsc::Sender<Result<T, Error<E>>>>,
                |
                    #[trigger] runs_stream(
                        old(member)@,
                        polls@,
                        items,
                        ends,
                        run,
                        final(member)@,
                    )
            },
    {
        if let Some(failed) = member.begin() {
            return Driven::Over(failed);
        }
        if let Some(panic) = construction {
            return Driven::Over(member.panicked(panic));
        }
        Independent::go_on(member, polls)
    }

    /// Runs a member that was begun on what its stream gives, in order, until it has an outcome
    /// or the consumer has no room for an item. That item comes back with what the stream gave
    /// after it. A member that was let go of is over.
    pub fn go_on<T, E: std::fmt::Display>(
        member: &mut StreamBatchMember<T, E>,
        polls: VecDeque<StreamPoll<T, E>>,
    ) -> (run: Driven<bool, T, E>)
        ensures
            if old(member)@.end is None {
                &&& run == Driven::<bool, T, E>::Over(final(member)@.failed())
                &&& final(member)@ == old(member)@
            } else {
                exists|
                    items: Seq<Result<T, Error<E>>>,
                    ends: Seq<mpsc::Sender<Result<T, Error<E>>>>,
                |
                    #[trigger] runs_stream(
                        old(member)@,
                        polls@,
                        items,
                        ends,
                        run,
                        final(member)@,
                    )
            },
    {
        if !member.is_attached() {
            return Driven::Over(member.failed());
        }
        let mut pending = polls;
        let ghost start = old(member)@;
        let ghost mut items: Seq<Result<T, Error<E>>> = Seq::empty();
        let ghost mut ends: Seq<mpsc::Sender<Result<T, Error<E>>>> = seq![start.end->0];
        assert(fed(start, items, ends.last()).sent =~= start.sent);
        loop
            invariant
                start == old(member)@,
                start.end is Some,
                items.len() <= polls@.len(),
                items.len() > 0 ==> start.is_open(),
                pending@ == polls@.skip(items.len() as int),
                took(ends, items),
                ends[0] == start.end->0,
                member@ == fed(start, items, ends.last()),
                forall|i: int|
                    0 <= i < items.len() ==> gives(polls@[i], #[trigger] items[i]),
            ensures
                items.len() == polls@.len(),
            decreases pending@.len(),
        {
            match pending.pop_front() {
                None => {
                    break;
                },
                Some(poll) => {
                    assert(polls@.skip(items.len() as int)[0] == polls@[items.len() as int]);
                    assert(polls@.skip(items.len() as int).drop_first() =~= polls@.skip(
                        items.len() as int + 1,
                    ));
                    match member.polled(poll) {
                        MemberStep::Poll => {},
                        MemberStep::Send(item) => {
                            let sent = member.send(item);
                            let ghost end = member@.end->0;
                            match member.sent(sent) {
                                MemberStep::Poll => {},
                                MemberStep::Send(unsent) => {
                                    let run = Driven::Blocked { item: unsent, polls: pending };
                                    assert(runs_stream(start, polls@, items, ends, run, member@));
                                    return run;
                                },
                                MemberStep::Done(failed) => {
                                    let run = Driven::Over(failed);
                                    assert(start.is_open() ==> lost(ends.last(), item, end));
                                    assert(runs_stream(start, polls@, items, ends, run, member@));
                                    return run;
                                },
                            }
                            proof {
                                lemma_took_more(ends, items, item, end);
                                assert(fed(start, items.push(item), end).sent =~= fed(
                                    start,
                                    items,
                                    ends.last(),
                                ).sent.push(item));
                                ends = ends.push(end);
                                items = items.push(item);
                            }
                        },
                        MemberStep::Done(failed) => {
                            let run = Driven::Over(failed);
                            assert(runs_stream(start, polls@, items, ends, run, member@));
                            return run;
                        },
                    }
                },
            }
        }
        let run = Driven::Starved;
        assert(runs_stream(start, polls@, items, ends, run, member@));
        run
    }
}

/// A preparation that fails ends every member that has no outcome with the same reason; what
/// members were sent stays.
pub proof fn failed_preparation_reaches_every_member<P, T, E: std::fmt::Display>(
    attempt: Attempt<P, E>,
    error: Error<E>,
    before: Seq<MemberState<T, E>>,
    after: Seq<MemberState<T, E>>,
    i: int,
)
    requires
        preparation_error(attempt, error),
        after == before.map_values(|state: MemberState<T, E>| state.finish(Err(error))),
        0 <= i < before.len(),
        before[i].valid(),
    ensures
        after[i].valid(),
        after[i].life.outcome == crate::future::first_of(
            before[i].life.outcome,
            Err::<(), Error<E>>(error),
        ),
        after[i].sent == before[i].sent,
{
}

/// A member that is over has an outcome, whatever its stream did, and what its channel took
/// stays: the items that were taken before it began, and then those of the stream. One that is not
/// over is open.
pub proof fn finished_member_is_settled<T, E: std::fmt::Display>(
    before: MemberState<T, E>,
    polls: Seq<StreamPoll<T, E>>,
    items: Seq<Result<T, Error<E>>>,
    ends: Seq<mpsc::Sender<Result<T, Error<E>>>>,
    run: Driven<bool, T, E>,
    after: MemberState<T, E>,
)
    requires
        before.valid(),
        before.is_open(),
        runs_stream(before, polls, items, ends, run, after),
    ensures
        after.valid(),
        after.sent == before.sent + items,
        run is Over ==> after.life.outcome is Some && !after.is_open(),
        run is Over ==> (after.failed() <==> !(polls[items.len() as int] is End)),
        !(run is Over) ==> after.is_open(),
{
}

/// A consumer that stays gets every item of its stream, in order, and then the outcome: the member
/// is over only when the stream has given its last item. Only a member whose channel has lost its
/// receiver is over before that.
pub proof fn member_whose_consumer_stays_gets_every_item<T, E: std::fmt::Display>(
    before: MemberState<T, E>,
    polls: Seq<StreamPoll<T, E>>,
    items: Seq<Result<T, Error<E>>>,
    ends: Seq<mpsc::Sender<Result<T, Error<E>>>>,
    run: Driven<bool, T, E>,
    after: MemberState<T, E>,
)
    requires
        before.valid(),
        before.is_open(),
        runs_stream(before, polls, items, ends, run, after),
        run is Over,
        forall|item: Result<T, Error<E>>, end: mpsc::Sender<Result<T, Error<E>>>|
            !(#[trigger] lost(ends.last(), item, end)),
    ensures
        delivered(polls, items, offers_of(ends)),
        after.sent == before.sent + items,
        !(polls[items.len() as int] is Item),
        polls[items.len() as int] is End ==> after.life.outcome == Some(Ok::<(), Error<E>>(())),
        polls[items.len() as int] is Panicked ==> {
            &&& after.life.outcome is Some
            &&& after.life.outcome->0 is Err
            &&& after.life.outcome->0->Err_0.is_panic_of(polls[items.len() as int]->Panicked_0)
        },
{
    lemma_took_delivered(polls, items, ends);
}

/// Waiting for room loses no item, however often it happens: when the item that a full channel gave
/// back is taken at last, and the member goes on with what its stream gave after it, the channel
/// has taken all items so far in the order in which the stream gave them. A member that is blocked
/// again is where it was blocked before, only further on.
pub proof fn blocked_member_loses_no_item<T, E: std::fmt::Display>(
    before: MemberState<T, E>,
    polls: Seq<StreamPoll<T, E>>,
    items: Seq<Result<T, Error<E>>>,
    offers: Seq<(mpsc::Sender<Result<T, Error<E>>>, mpsc::Sender<Result<T, Error<E>>>)>,
    item: Result<T, Error<E>>,
    offer: (mpsc::Sender<Result<T, Error<E>>>, mpsc::Sender<Result<T, Error<E>>>),
    resumed: MemberState<T, E>,
    more: Seq<Result<T, Error<E>>>,
    ends: Seq<mpsc::Sender<Result<T, Error<E>>>>,
    run: Driven<bool, T, E>,
    after: MemberState<T, E>,
)
    requires
        delivered(polls, items, offers),
        items.len() < polls.len(),
        gives(polls[items.len() as int], item),
        accepted(offer.0, item, offer.1),
        resumed.valid(),
        resumed.is_open(),
        resumed.sent == (before.sent + items).push(item),
        runs_stream(resumed, polls.skip(items.len() as int + 1), more, ends, run, after),
    ensures
        ({
            let all = items.push(item) + more;
            &&& delivered(polls, all, offers.push(offer) + offers_of(ends))
            &&& after.sent == before.sent + all
            &&& run is Starved ==> all.len() == polls.len()
            &&& run matches Driven::Blocked { item: next, polls: rest } ==> {
                &&& all.len() < polls.len()
                &&& gives(polls[all.len() as int], next)
                &&& rest@ == polls.skip(all.len() as int + 1)
            }
            &&& run is Over ==> all.len() < polls.len()
            &&& run is Over && polls[all.len() as int] is End ==> after.life.outcome == Some(
                Ok::<(), Error<E>>(()),
            )
        }),
{
    let n = items.len() as int;
    let rest = polls.skip(n + 1);
    let all = items.push(item) + more;
    lemma_took_delivered(rest, more, ends);
    lemma_delivered_more(polls, items, offers, item, offer, more, offers_of(ends));
    assert(after.sent =~= before.sent + all);
    if more.len() < rest.len() {
        assert(rest[more.len() as int] == polls[all.len() as int]);
        assert(rest.skip(more.len() as int + 1) =~= polls.skip(all.len() as int + 1));
    }
}

/// While the batch is being prepared it takes the departure of every member to give it up, and
/// not one less.
pub proof fn last_departure_gives_up(state: IndependentState, departure: Option<usize>)
    requires
        state.valid(),
        state.phase is Preparing,
    ensures
        departure is Some && state.departed + 1 < state.members
            ==> state.after_departure(departure).phase is Preparing,
        departure is Some && state.departed + 1 == state.members
            ==> state.after_departure(departure).status() == Some(JobStatus::Failed),
{
}

/// Once every member is done the batch is over, and it failed if any member did, in whatever
/// order they ended.
pub proof fn status_counts_every_member(state: IndependentState, failures: Seq<bool>)
    requires
        state.phase is Running,
        !state.phase->failed,
        failures.len() <= state.phase->left,
    ensures
        failures.len() < state.phase->left ==> state.after_members(failures).phase == (
        IndependentPhase::Running {
            left: state.phase->left - failures.len(),
            failed: failures.contains(true),
        }),
        failures.len() == state.phase->left && failures.len() > 0 ==> state.after_members(
            failures,
        ).status() == Some(status_of(failures.contains(true))),
    decreases failures.len(),
{
    if failures.len() > 0 {
        let most = failures.drop_last();
        status_counts_every_member(state, most);
        assert(failures =~= most.push(failures.last()));
        if most.contains(true) {
            let k = choose|k: int| 0 <= k < most.len() && most[k];
            assert(failures[k]);
        }
        if failures.last() {
            assert(failures[failures.len() - 1]);
        }
        if failures.contains(true) && !failures.last() {
            let k = choose|k: int| 0 <= k < failures.len() && failures[k];
            assert(most[k]);
        }
    } else {
        assert(!failures.contains(true));
    }
}

/// A run of a member stops for one of these reasons alone: its stream ended, it panicked, its
/// consumer is gone, its channel is full, or there is nothing more to go on with. Only the first
/// three give the member its outcome: success, the panic, or that it was cancelled. The items before
/// that were all passed on, each as the stream gave it.
pub proof fn member_stops_for_a_reason<T, E: std::fmt::Display>(
    before: MemberState<T, E>,
    polls: Seq<StreamPoll<T, E>>,
    items: Seq<Result<T, Error<E>>>,
    ends: Seq<mpsc::Sender<Result<T, Error<E>>>>,
    run: Driven<bool, T, E>,
    after: MemberState<T, E>,
)
    requires
        runs_stream(before, polls, items, ends, run, after),
        before.valid(),
        before.is_open(),
    ensures
        after.sent == before.sent + items,
        items.len() <= polls.len(),
        forall|i: int|
            #![trigger polls[i]]
            #![trigger items[i]]
            0 <= i < items.len() ==> polls[i] is Item && reports(polls[i]->Item_0, items[i]),
        took(ends, items),
        before.end == Some(ends[0]),
        ({
            let n = items.len() as int;
            match run {
                Driven::Starved => {
                    &&& n == polls.len()
                    &&& after.life == before.life
                    &&& after.end == Some(ends.last())
                },
                Driven::Blocked { item, polls: rest } => {
                    &&& n < polls.len()
                    &&& polls[n] matches StreamPoll::Item(given) && reports(given, item)
                    &&& rest@ == polls.skip(n + 1)
                    &&& after.life == before.life
                    &&& after.end is Some
                    &&& full(ends.last(), item, after.end->0)
                },
                Driven::Over(failed) => {
                    &&& n < polls.len()
                    &&& after.end is None
                    &&& after.life.closed
                    &&& after.life.outcome is Some
                    &&& failed == after.life.outcome->0 is Err
                    &&& match polls[n] {
                        StreamPoll::Item(given) => {
                            &&& after.life.outcome == Some(
                                Err::<(), Error<E>>(Error::ConsumerCancelled),
                            )
                            &&& exists|
                                item: Result<T, Error<E>>,
                                end: mpsc::Sender<Result<T, Error<E>>>,
                            | reports(given, item) && #[trigger] lost(ends.last(), item, end)
                        },
                        StreamPoll::End => after.life.outcome == Some(Ok::<(), Error<E>>(())),
                        StreamPoll::Panicked(panic) => {
                            &&& after.life.outcome matches Some(Err(Error::TaskPanic(message)))
                                && message@ == panic.text()
                        },
                    }
                },
            }
        }),
{
    assert forall|i: int|
        #![trigger polls[i]]
        #![trigger items[i]]
        0 <= i < items.len() implies polls[i] is Item && reports(polls[i]->Item_0, items[i]) by {
        assert(gives(polls[i], items[i]));
    }
}

/// The batch after several members departed while it was being prepared, one after the other.
pub open spec fn after_departures(members: int, departures: Seq<usize>) -> IndependentState
    decreases departures.len(),
{
    if departures.len() == 0 {
        IndependentState::begin(members)
    } else {
        after_departures(members, departures.drop_last()).after_departure(Some(departures.last()))
    }
}

/// A batch without members is completed at once. Any other is being prepared, until as many members
/// departed as it has, and has failed then.
pub proof fn batch_is_prepared_while_anybody_is_left(members: int, departures: Seq<usize>)
    requires
        0 <= members,
        departures.len() <= members,
    ensures
        members == 0 ==> after_departures(members, departures).status() == Some(
            JobStatus::Completed,
        ),
        members > 0 && departures.len() < members ==> {
            &&& after_departures(members, departures).phase is Preparing
            &&& after_departures(members, departures).status() is None
        },
        members > 0 && departures.len() == members ==> after_departures(
            members,
            departures,
        ).status() == Some(JobStatus::Failed),
        after_departures(members, departures).departed == departures.len(),
        after_departures(members, departures).members == members,
        departures.len() < members ==> after_departures(members, departures).after_departure(
            None,
        ).status() == Some(JobStatus::Failed),
    decreases departures.len(),
{
    if departures.len() > 0 {
        batch_is_prepared_while_anybody_is_left(members, departures.drop_last());
    }
}

/// A batch whose preparation failed has failed, and its members are told why: what the preparation
/// returned, or its panic. After one that succeeded, as many members are run as there are inputs for,
/// and when all of them are done the batch has failed if any of them did, and is completed otherwise.
pub proof fn prepared_batch_runs_every_member<P, E: std::fmt::Display>(
    state: IndependentState,
    attempt: Attempt<P, E>,
    inputs: int,
    failures: Seq<bool>,
    error: Error<E>,
)
    requires
        state.valid(),
        state.phase is Preparing,
        0 <= inputs,
    ensures
        is_prepared(attempt) <==> (attempt matches Attempt::Returned(Ok(_))),
        preparation_error(attempt, error) ==> match attempt {
            Attempt::Returned(Ok(_)) => false,
            Attempt::Returned(Err(failure)) => error matches Error::TaskExecution {
                message: _,
                source,
            } && *source == failure,
            Attempt::Panicked(panic) => error matches Error::TaskPanic(message) && message@
                == panic.text(),
        },
        state.after_preparation(false, inputs).status() == Some(JobStatus::Failed),
        ({
            let running = state.after_preparation(true, inputs);
            let after = running.after_members(failures);
            &&& inputs == 0 ==> running.status() == Some(JobStatus::Completed)
            &&& inputs > 0 ==> running.status() is None && running.phase is Running
            &&& inputs > 0 && (failures.len() < inputs && failures.len() < state.members)
                ==> after.status() is None
            &&& inputs > 0 && failures.len() > 0 && failures.len() <= inputs && failures.len()
                <= state.members && (failures.len() == inputs || failures.len() == state.members)
                ==> {
                ||| after.status() == Some(JobStatus::Failed) && exists|k: int|
                    0 <= k < failures.len() && #[trigger] failures[k]
                ||| after.status() == Some(JobStatus::Completed) && forall|k: int|
                    0 <= k < failures.len() ==> !(#[trigger] failures[k])
            }
        }),
{
    let running = state.after_preparation(true, inputs);
    if inputs > 0 {
        if failures.len() <= running.phase->left {
            status_counts_every_member(running, failures);
        }
        if failures.contains(true) {
            let k = choose|k: int| 0 <= k < failures.len() && failures[k];
            assert(failures[k]);
        } else {
            assert forall|k: int| 0 <= k < failures.len() implies !(#[trigger] failures[k]) by {
                if failures[k] {
                    assert(failures.contains(true));
                }
            }
        }
    }
}

/// A member whose consumer left while it was being run is sent nothing any more and keeps the outcome
/// that it has, if any. It is over when its stream gives anything: an item cancels it, and the end of
/// the stream or its panic is its outcome unless it has one.
pub proof fn member_without_a_consumer_is_sent_nothing<T, E: std::fmt::Display>(
    before: MemberState<T, E>,
    polls: Seq<StreamPoll<T, E>>,
    items: Seq<Result<T, Error<E>>>,
    ends: Seq<mpsc::Sender<Result<T, Error<E>>>>,
    run: Driven<bool, T, E>,
    after: MemberState<T, E>,
)
    requires
        runs_stream(before, polls, items, ends, run, after),
        before.valid(),
        before.life.closed,
    ensures
        items.len() == 0,
        after.sent == before.sent,
        run is Starved <==> polls.len() == 0,
        run is Starved ==> after.life == before.life,
        polls.len() > 0 ==> {
            &&& run is Over
            &&& after.end is None
            &&& after.life.outcome is Some
            &&& before.life.outcome is Some ==> after.life.outcome == before.life.outcome
            &&& before.life.outcome is None ==> match polls[0] {
                StreamPoll::Item(_) => after.life.outcome == Some(
                    Err::<(), Error<E>>(Error::ConsumerCancelled),
                ),
                StreamPoll::End => after.life.outcome == Some(Ok::<(), Error<E>>(())),
                StreamPoll::Panicked(panic) => after.life.outcome matches Some(
                    Err(Error::TaskPanic(message)),
                ) && message@ == panic.text(),
            }
        },
{
    assert(after.sent =~= before.sent);
}

} // verus!
