//! Stream batches that are run from one stream of events for all members.

use std::collections::VecDeque;

use futures::channel::mpsc;
use vstd::prelude::*;
use vstd::set_lib::set_int_range;

use crate::batch::stream::member::{
    any_member_failed, finishes, states, MemberSendError, MemberState, StreamBatchMember,
};
use crate::batch::stream::mode::{all_valid, batch_status, batch_status_of, StreamBatchMode};
use crate::batch::stream::traits::{BatchStreamEvent, MultiplexedBatchStreamTask};
use crate::channel::{accepted, lemma_took_more, took, tried, TrySendError};
use crate::error::Error;
use crate::executable::reports_each;
use crate::job::JobStatus;
use crate::task::{report, reports};

verus! {

/// How many events are handled before other tasks get a turn.
pub const ROUTE_BUDGET: usize = 64;

/// Runs a batch from one stream of events for all members.
#[derive(Debug, Clone, Copy)]
pub struct Multiplexed;

impl<B: MultiplexedBatchStreamTask> StreamBatchMode<B> for Multiplexed {
    type Input = B::Input;

    type Item = B::Item;

    type Error = B::Error;
}

/// What happens while a multiplexed batch runs.
pub enum MultiplexedEvent<T, E> {
    /// The stream of the member of this index was closed.
    Departed(usize),
    /// There is no member whose stream could be closed.
    NoneLeft,
    /// The task produced an event.
    Produced(BatchStreamEvent<T, E>),
    /// The task has no more events.
    Exhausted,
}

/// What to do next while a multiplexed batch runs.
#[derive(Debug, Clone, Copy, PartialEq, Eq, Structural)]
pub enum MultiplexedAction {
    /// Let other tasks have a turn, then ask again.
    Yield,
    /// Wait for the next event; a departure goes before what the task produced.
    Wait,
    /// Stop: the batch is over.
    Conclude,
}

/// How far a multiplexed batch is, as a mathematical value.
pub struct MultiplexedState {
    /// How many members have not departed.
    pub remaining: int,
    /// How many events were handled since other tasks had a turn.
    pub routed: int,
    /// Whether the batch ended before all members departed.
    pub ended: bool,
}

impl MultiplexedState {
    /// A batch that begins with this many members.
    pub open spec fn begin(members: int) -> Self {
        MultiplexedState { remaining: members, routed: 0, ended: false }
    }

    /// What holds of every batch.
    pub open spec fn valid(self) -> bool {
        0 <= self.remaining && 0 <= self.routed <= ROUTE_BUDGET
    }

    /// Whether the batch is over.
    pub open spec fn is_over(self) -> bool {
        self.ended || self.remaining <= 0
    }

    /// What to do next.
    pub open spec fn action(self) -> MultiplexedAction {
        if self.is_over() {
            MultiplexedAction::Conclude
        } else if self.routed == ROUTE_BUDGET {
            MultiplexedAction::Yield
        } else {
            MultiplexedAction::Wait
        }
    }

    /// The batch after it was asked what to do: a turn for others starts the count again.
    pub open spec fn asked(self) -> Self {
        if self.action() == MultiplexedAction::Yield {
            MultiplexedState { routed: 0, ..self }
        } else {
            self
        }
    }

    /// The batch after an event.
    pub open spec fn after<T, E>(self, event: MultiplexedEvent<T, E>) -> Self {
        match event {
            MultiplexedEvent::Departed(_) => MultiplexedState {
                remaining: self.remaining - 1,
                routed: self.routed + 1,
                ..self
            },
            MultiplexedEvent::Produced(_) => MultiplexedState { routed: self.routed + 1, ..self },
            MultiplexedEvent::NoneLeft => MultiplexedState { ended: true, ..self },
            MultiplexedEvent::Exhausted => MultiplexedState { ended: true, ..self },
        }
    }
}

/// Whether a member that is open `before` is `after` once its channel gave this answer when it was
/// offered an item: a member whose channel is full ends because its consumer lags, one whose
/// channel lost its receiver because its consumer is gone.
pub open spec fn settles_send<T, S>(
    before: MemberState<T, S>,
    item: Result<T, Error<S>>,
    end: mpsc::Sender<Result<T, Error<S>>>,
    answer: Result<(), TrySendError<Result<T, Error<S>>>>,
    after: MemberState<T, S>,
) -> bool {
    &&& tried(before.end->0, item, end, answer)
    &&& match answer {
        Ok(_) => after == before.accept(item, end),
        Err(TrySendError::Full(_)) => finishes(before, Err(Error::ConsumerLag), after),
        Err(TrySendError::Closed(_)) => finishes(before, Err(Error::ConsumerCancelled), after),
    }
}

/// Whether a member that was `before` can be `after` once it was routed an item. A member that
/// is not open is left alone. An open one offers the item to its channel, whose answer decides.
pub open spec fn routes_item<T, E: std::fmt::Display>(
    before: MemberState<T, E>,
    item: Result<T, E>,
    after: MemberState<T, E>,
) -> bool {
    if before.is_open() {
        exists|
            wrapped: Result<T, Error<E>>,
            end: mpsc::Sender<Result<T, Error<E>>>,
            answer: Result<(), TrySendError<Result<T, Error<E>>>>,
        |
            reports(item, wrapped) && #[trigger] settles_send(before, wrapped, end, answer, after)
    } else {
        after == before
    }
}

/// Whether a member that was `before` is `after` once it was routed its outcome. A member that
/// is not open is left alone.
pub open spec fn routes_outcome<T, E: std::fmt::Display>(
    before: MemberState<T, E>,
    outcome: Result<(), E>,
    after: MemberState<T, E>,
) -> bool {
    if before.is_open() {
        exists|wrapped: Result<(), Error<E>>|
            #[trigger] reports(outcome, wrapped) && finishes(before, wrapped, after)
    } else {
        after == before
    }
}

/// What a batch tells a member.
pub enum MemberCommand<T, E> {
    /// The member's stream was closed.
    Depart,
    /// The task produced an item.
    Item(Result<T, E>),
    /// The task produced the outcome.
    Outcome(Result<(), E>),
}

/// Whether a member that was `before` can be `after` once it was told this.
pub open spec fn obeys<T, E: std::fmt::Display>(
    before: MemberState<T, E>,
    command: MemberCommand<T, E>,
    after: MemberState<T, E>,
) -> bool {
    match command {
        MemberCommand::Depart => finishes(before, Err(Error::ConsumerCancelled), after),
        MemberCommand::Item(item) => routes_item(before, item, after),
        MemberCommand::Outcome(outcome) => routes_outcome(before, outcome, after),
    }
}

/// Whom an event concerns, and what they are told.
pub enum Dispatch<T, E> {
    /// The member of this index, if there is one.
    To(usize, MemberCommand<T, E>),
    /// All members, who are done.
    CompleteAll,
    /// Nobody.
    Nobody,
}

/// Whom an event concerns, and what they are told.
pub open spec fn dispatch<T, E>(event: MultiplexedEvent<T, E>) -> Dispatch<T, E> {
    match event {
        MultiplexedEvent::Departed(index) => Dispatch::To(index, MemberCommand::Depart),
        MultiplexedEvent::NoneLeft => Dispatch::Nobody,
        MultiplexedEvent::Produced(BatchStreamEvent::Item { index, item }) => Dispatch::To(
            index,
            MemberCommand::Item(item),
        ),
        MultiplexedEvent::Produced(BatchStreamEvent::Finished { index, outcome }) => Dispatch::To(
            index,
            MemberCommand::Outcome(outcome),
        ),
        MultiplexedEvent::Exhausted => Dispatch::CompleteAll,
    }
}

/// Whether the members can go from `before` to `after` by an event.
pub open spec fn routes<T, E: std::fmt::Display>(
    before: Seq<MemberState<T, E>>,
    event: MultiplexedEvent<T, E>,
    after: Seq<MemberState<T, E>>,
) -> bool {
    &&& after.len() == before.len()
    &&& match dispatch(event) {
        Dispatch::To(index, command) => forall|i: int|
            #![trigger after[i]]
            0 <= i < before.len() ==> if i == index {
                obeys(before[i], command, after[i])
            } else {
                after[i] == before[i]
            },
        Dispatch::CompleteAll => forall|i: int|
            #![trigger after[i]]
            0 <= i < before.len() ==> finishes(before[i], Ok(()), after[i]),
        Dispatch::Nobody => after == before,
    }
}

impl<T, S> StreamBatchMember<T, S> {
    /// Ends the member if its channel did not take an item: a consumer that made no room lags,
    /// one that is gone has cancelled.
    pub fn settle_send(&mut self, sent: Result<(), MemberSendError<T, S>>)
        ensures
            match sent {
                Ok(_) => final(self)@ == old(self)@,
                Err(MemberSendError::Full(_)) => finishes(
                    old(self)@,
                    Err(Error::ConsumerLag),
                    final(self)@,
                ),
                Err(MemberSendError::Closed(_)) => finishes(
                    old(self)@,
                    Err(Error::ConsumerCancelled),
                    final(self)@,
                ),
            },
    {
        match sent {
            Ok(()) => {},
            Err(MemberSendError::Full(_)) => self.finish(Err(Error::consumer_lag())),
            Err(MemberSendError::Closed(_)) => self.finish(Err(Error::consumer_cancelled())),
        }
    }
}

impl<T, E: std::fmt::Display> StreamBatchMember<T, E> {
    /// Routes an item to the member.
    pub fn route_item(&mut self, item: Result<T, E>)
        ensures
            routes_item(old(self)@, item, final(self)@),
    {
        if self.is_open() {
            let wrapped = report(item);
            let sent = self.try_send(wrapped);
            let ghost tried = self@;
            self.settle_send(sent);
            proof {
                let answer = choose|answer: Result<(), TrySendError<Result<T, Error<E>>>>|
                    {
                        &&& #[trigger] tried.is_answered(old(self)@, wrapped, answer)
                        &&& sent is Ok <==> answer is Ok
                        &&& answer is Err ==> sent->Err_0 == MemberSendError::refusal(
                            answer->Err_0,
                        )
                    };
                assert(settles_send(old(self)@, wrapped, tried.end->0, answer, self@));
            }
        }
    }

    /// Routes its outcome to the member.
    pub fn route_outcome(&mut self, outcome: Result<(), E>)
        ensures
            routes_outcome(old(self)@, outcome, final(self)@),
    {
        if self.is_open() {
            let wrapped = report(outcome);
            self.finish(wrapped);
        }
    }

    /// Does as the batch tells it.
    pub fn obey(&mut self, command: MemberCommand<T, E>)
        ensures
            obeys(old(self)@, command, final(self)@),
    {
        match command {
            MemberCommand::Depart => self.finish(Err(Error::consumer_cancelled())),
            MemberCommand::Item(item) => self.route_item(item),
            MemberCommand::Outcome(outcome) => self.route_outcome(outcome),
        }
    }
}

/// A multiplexed batch that is being run.
pub struct MultiplexedRun {
    remaining: usize,
    routed: usize,
    ended: bool,
}

impl View for MultiplexedRun {
    type V = MultiplexedState;

    closed spec fn view(&self) -> MultiplexedState {
        MultiplexedState {
            remaining: self.remaining as int,
            routed: self.routed as int,
            ended: self.ended,
        }
    }
}

impl MultiplexedRun {
    /// A batch that begins with this many members.
    pub fn new(members: usize) -> (run: Self)
        ensures
            run@ == MultiplexedState::begin(members as int),
            run@.valid(),
    {
        MultiplexedRun { remaining: members, routed: 0, ended: false }
    }

    /// What to do next.
    pub fn next(&mut self) -> (action: MultiplexedAction)
        requires
            old(self)@.valid(),
        ensures
            action == old(self)@.action(),
            final(self)@ == old(self)@.asked(),
            final(self)@.valid(),
    {
        if self.ended || self.remaining == 0 {
            return MultiplexedAction::Conclude;
        }
        if self.routed == ROUTE_BUDGET {
            self.routed = 0;
            return MultiplexedAction::Yield;
        }
        MultiplexedAction::Wait
    }

    /// Records an event, and says whom it concerns.
    pub fn record<T, E>(&mut self, event: MultiplexedEvent<T, E>) -> (told: Dispatch<T, E>)
        requires
            old(self)@.valid(),
            old(self)@.action() == MultiplexedAction::Wait,
        ensures
            final(self)@ == old(self)@.after(event),
            final(self)@.valid(),
            told == dispatch(event),
    {
        match event {
            MultiplexedEvent::Departed(index) => {
                self.remaining -= 1;
                self.routed += 1;
                Dispatch::To(index, MemberCommand::Depart)
            },
            MultiplexedEvent::NoneLeft => {
                self.ended = true;
                Dispatch::Nobody
            },
            MultiplexedEvent::Produced(BatchStreamEvent::Item { index, item }) => {
                self.routed += 1;
                Dispatch::To(index, MemberCommand::Item(item))
            },
            MultiplexedEvent::Produced(BatchStreamEvent::Finished { index, outcome }) => {
                self.routed += 1;
                Dispatch::To(index, MemberCommand::Outcome(outcome))
            },
            MultiplexedEvent::Exhausted => {
                self.ended = true;
                Dispatch::CompleteAll
            },
        }
    }

    /// Handles an event: records it and lets the members know. An event for an index that no
    /// member has is ignored.
    pub fn step<T, E: std::fmt::Display>(
        &mut self,
        members: &mut Vec<StreamBatchMember<T, E>>,
        event: MultiplexedEvent<T, E>,
    )
        requires
            old(self)@.valid(),
            old(self)@.action() == MultiplexedAction::Wait,
        ensures
            final(self)@ == old(self)@.after(event),
            final(self)@.valid(),
            routes(states(old(members)@), event, states(final(members)@)),
    {
        match self.record(event) {
            Dispatch::To(index, command) => {
                if index < members.len() {
                    members[index].obey(command);
                }
            },
            Dispatch::Nobody => {},
            Dispatch::CompleteAll => {
                let mut i: usize = 0;
                while i < members.len()
                    invariant
                        i <= members@.len(),
                        members@.len() == old(members)@.len(),
                        forall|k: int|
                            0 <= k < i ==> finishes(
                                old(members)@[k]@,
                                Ok(()),
                                (#[trigger] members@[k])@,
                            ),
                        forall|k: int|
                            i <= k < members@.len() ==> members@[k] == old(members)@[k],
                    decreases members@.len() - i,
                {
                    members[i].finish(Ok(()));
                    i += 1;
                }
            },
        }
    }
}

impl Multiplexed {
    /// The status of a batch that is over: it failed if any member did.
    pub fn conclude<T, S>(members: &Vec<StreamBatchMember<T, S>>) -> (status: JobStatus)
        ensures
            status == batch_status(states(members@)),
    {
        batch_status_of(any_member_failed(members))
    }
}

/// Whether the event is meant for the member of this index.
pub open spec fn concerns<T, E>(event: MultiplexedEvent<T, E>, index: int) -> bool {
    match event {
        MultiplexedEvent::Departed(i) => i == index,
        MultiplexedEvent::NoneLeft => false,
        MultiplexedEvent::Produced(BatchStreamEvent::Item { index: i, .. }) => i == index,
        MultiplexedEvent::Produced(BatchStreamEvent::Finished { index: i, .. }) => i == index,
        MultiplexedEvent::Exhausted => true,
    }
}

/// An event changes no member but the one that it is meant for: lag and
/// departure stay with their member. An event for an index that no member has changes nothing.
pub proof fn event_is_member_local<T, E: std::fmt::Display>(
    before: Seq<MemberState<T, E>>,
    event: MultiplexedEvent<T, E>,
    after: Seq<MemberState<T, E>>,
    i: int,
)
    requires
        routes(before, event, after),
        0 <= i < before.len(),
        !concerns(event, i),
    ensures
        after[i] == before[i],
{
}

/// Events keep members valid.
pub proof fn event_keeps_members_valid<T, E: std::fmt::Display>(
    before: Seq<MemberState<T, E>>,
    event: MultiplexedEvent<T, E>,
    after: Seq<MemberState<T, E>>,
)
    requires
        routes(before, event, after),
        all_valid(before),
    ensures
        all_valid(after),
{
    assert forall|i: int| 0 <= i < after.len() implies #[trigger] after[i].valid() by {
        assert(before[i].valid());
    }
}

/// A member ends because its consumer lags only where its channel was full when it was offered the
/// item that the member was routed.
pub proof fn lag_comes_of_a_full_channel<T, E: std::fmt::Display>(
    before: MemberState<T, E>,
    item: Result<T, E>,
    after: MemberState<T, E>,
)
    requires
        before.valid(),
        before.is_open(),
        routes_item(before, item, after),
        after.life.outcome == Some(Err::<(), Error<E>>(Error::ConsumerLag)),
    ensures
        exists|
            wrapped: Result<T, Error<E>>,
            end: mpsc::Sender<Result<T, Error<E>>>,
            answer: Result<(), TrySendError<Result<T, Error<E>>>>,
        |
            {
                &&& reports(item, wrapped)
                &&& #[trigger] tried(before.end->0, wrapped, end, answer)
                &&& answer is Err
                &&& answer->Err_0 is Full
            },
{
}

/// The items that a member's channel has taken stay, in order, whatever comes after: lag and
/// departure end the member and take nothing back. At most one item is added, and only to a
/// member that was open.
pub proof fn accepted_items_are_kept<T, E: std::fmt::Display>(
    before: Seq<MemberState<T, E>>,
    event: MultiplexedEvent<T, E>,
    after: Seq<MemberState<T, E>>,
    i: int,
)
    requires
        routes(before, event, after),
        0 <= i < before.len(),
    ensures
        before[i].sent.is_prefix_of(after[i].sent),
        after[i].sent.len() <= before[i].sent.len() + 1,
        !before[i].is_open() ==> after[i].sent == before[i].sent,
{
    assert(after[i].sent == before[i].sent || after[i].sent.drop_last() =~= before[i].sent);
}

/// A member that has an outcome keeps it, and takes no more items.
pub proof fn outcome_is_kept<T, E: std::fmt::Display>(
    before: Seq<MemberState<T, E>>,
    event: MultiplexedEvent<T, E>,
    after: Seq<MemberState<T, E>>,
    i: int,
)
    requires
        routes(before, event, after),
        0 <= i < before.len(),
        before[i].valid(),
        before[i].life.outcome is Some,
    ensures
        after[i].life == before[i].life,
        after[i].sent == before[i].sent,
{
    let state = after[i];
}

/// A departure settles its member, and the end of the task settles every member.
pub proof fn departure_and_end_settle<T, E: std::fmt::Display>(
    before: Seq<MemberState<T, E>>,
    event: MultiplexedEvent<T, E>,
    after: Seq<MemberState<T, E>>,
    i: int,
)
    requires
        routes(before, event, after),
        0 <= i < before.len(),
        before[i].valid(),
        event is Departed ==> event->Departed_0 == i,
        event is Departed || event is Exhausted,
    ensures
        after[i].life.outcome is Some,
{
    let state = after[i];
}

/// Whether the members can go from `before` to `after` by what consumers do on their own:
/// each of them may have left.
pub open spec fn consumers_may_leave<T, S>(
    before: Seq<MemberState<T, S>>,
    after: Seq<MemberState<T, S>>,
) -> bool {
    &&& after.len() == before.len()
    &&& forall|i: int|
        #![trigger after[i]]
        0 <= i < before.len() ==> after[i] == before[i] || after[i] == before[i].receiver_gone()
}

/// One event in the course of a multiplexed batch that is not over.
pub open spec fn is_course_step<T, E: std::fmt::Display>(
    members: int,
    progress: MultiplexedState,
    seen: Seq<MemberState<T, E>>,
    event: MultiplexedEvent<T, E>,
    left: Seq<MemberState<T, E>>,
    next: MultiplexedState,
) -> bool {
    &&& seen.len() == members
    &&& !progress.is_over()
    &&& next == progress.asked().after(event)
    &&& routes(seen, event, left)
}

/// The course of a multiplexed batch: how far it was before each event and at the end, and the
/// members before and after each event. Consumers may leave in between.
pub open spec fn is_course<T, E: std::fmt::Display>(
    members: int,
    events: Seq<MultiplexedEvent<T, E>>,
    progress: Seq<MultiplexedState>,
    seen: Seq<Seq<MemberState<T, E>>>,
    left: Seq<Seq<MemberState<T, E>>>,
) -> bool {
    &&& progress.len() == events.len() + 1
    &&& seen.len() == events.len()
    &&& left.len() == events.len()
    &&& progress[0] == MultiplexedState::begin(members)
    &&& forall|k: int|
        #![trigger events[k]]
        0 <= k < events.len() ==> is_course_step(
            members,
            progress[k],
            seen[k],
            events[k],
            left[k],
            progress[k + 1],
        )
    &&& forall|k: int|
        #![trigger seen[k]]
        0 < k < events.len() ==> consumers_may_leave(left[k - 1], seen[k])
}

/// Whether each event of a course finds the members as the one before left them: no consumer
/// leaves in between.
pub open spec fn undisturbed<T, S>(
    seen: Seq<Seq<MemberState<T, S>>>,
    left: Seq<Seq<MemberState<T, S>>>,
) -> bool {
    forall|k: int| #![trigger seen[k]] 0 < k < seen.len() ==> seen[k] == left[k - 1]
}

/// The members that departed in the first `n` events.
pub open spec fn departed<T, E>(events: Seq<MultiplexedEvent<T, E>>, n: int) -> Set<int>
    decreases n,
{
    if n <= 0 {
        Set::empty()
    } else {
        match events[n - 1] {
            MultiplexedEvent::Departed(index) => departed(events, n - 1).insert(index as int),
            _ => departed(events, n - 1),
        }
    }
}

/// Whether every departure is of a member, and no member departs twice.
pub open spec fn departs_once<T, E>(events: Seq<MultiplexedEvent<T, E>>, members: int) -> bool {
    forall|k: int|
        0 <= k < events.len() ==> ((#[trigger] events[k]) matches MultiplexedEvent::Departed(index)
            ==> index < members && !departed(events, k).contains(index as int))
}

/// The course of a batch goes on with one more event.
proof fn lemma_course_goes_on<T, E: std::fmt::Display>(
    members: int,
    events: Seq<MultiplexedEvent<T, E>>,
    progress: Seq<MultiplexedState>,
    seen: Seq<Seq<MemberState<T, E>>>,
    left: Seq<Seq<MemberState<T, E>>>,
    before: Seq<MemberState<T, E>>,
    event: MultiplexedEvent<T, E>,
    after: Seq<MemberState<T, E>>,
)
    requires
        is_course(members, events, progress, seen, left),
        !progress.last().is_over(),
        before.len() == members,
        events.len() > 0 ==> consumers_may_leave(left.last(), before),
        routes(before, event, after),
    ensures
        is_course(
            members,
            events.push(event),
            progress.push(progress.last().asked().after(event)),
            seen.push(before),
            left.push(after),
        ),
{
    let n = events.len() as int;
    let events2 = events.push(event);
    let progress2 = progress.push(progress.last().asked().after(event));
    let seen2 = seen.push(before);
    let left2 = left.push(after);
    assert forall|k: int| #![trigger events2[k]] 0 <= k < events2.len() implies is_course_step(
        members,
        progress2[k],
        seen2[k],
        events2[k],
        left2[k],
        progress2[k + 1],
    ) by {
        if k < n {
            assert(events2[k] == events[k]);
        }
    }
    assert forall|k: int| #![trigger seen2[k]] 0 < k < events2.len() implies consumers_may_leave(
        left2[k - 1],
        seen2[k],
    ) by {
        if k < n {
            assert(seen2[k] == seen[k]);
        }
    }
    assert(progress2[0] == progress[0]);
}

impl Multiplexed {
    /// Runs a batch on the events that are given, in order, until it is over or the events are.
    /// Events that come after the end of the batch are not looked at.
    pub fn run<T, E: std::fmt::Display>(
        members: &mut Vec<StreamBatchMember<T, E>>,
        events: VecDeque<MultiplexedEvent<T, E>>,
    ) -> (status: JobStatus)
        ensures
            exists|n: int, progress: Seq<MultiplexedState>, seen: Seq<Seq<MemberState<T, E>>>, left:
                Seq<Seq<MemberState<T, E>>>|
                {
                    &&& 0 <= n <= events@.len()
                    &&& #[trigger] is_course(
                        old(members)@.len() as int,
                        events@.take(n),
                        progress,
                        seen,
                        left,
                    )
                    &&& undisturbed(seen, left)
                    &&& n == events@.len() || progress.last().is_over()
                    &&& n > 0 ==> seen[0] == states(old(members)@)
                    &&& n > 0 ==> states(final(members)@) == left.last()
                    &&& n == 0 ==> states(final(members)@) == states(old(members)@)
                },
            status == batch_status(states(final(members)@)),
    {
        let mut run = MultiplexedRun::new(members.len());
        let mut pending = events;
        let ghost mut n: int = 0;
        let ghost mut progress: Seq<MultiplexedState> = seq![run@];
        let ghost mut seen: Seq<Seq<MemberState<T, E>>> = Seq::empty();
        let ghost mut left: Seq<Seq<MemberState<T, E>>> = Seq::empty();
        let ghost size = members@.len() as int;
        loop
            invariant
                run@.valid(),
                run@ == progress.last() || run@ == progress.last().asked(),
                0 <= n <= events@.len(),
                pending@ == events@.skip(n),
                size == members@.len(),
                size == old(members)@.len(),
                is_course(size, events@.take(n), progress, seen, left),
                undisturbed(seen, left),
                n > 0 ==> seen[0] == states(old(members)@),
                n > 0 ==> states(members@) == left.last(),
                n == 0 ==> members@ == old(members)@,
            ensures
                n == events@.len() || progress.last().is_over(),
            decreases pending@.len(), run@.routed,
        {
            match run.next() {
                MultiplexedAction::Yield => {
                    continue;
                },
                MultiplexedAction::Conclude => {
                    break;
                },
                MultiplexedAction::Wait => {
                    match pending.pop_front() {
                        None => {
                            break;
                        },
                        Some(event) => {
                            let ghost before = states(members@);
                            run.step(members, event);
                            proof {
                                assert(events@.skip(n)[0] == events@[n]);
                                assert(events@.take(n + 1) =~= events@.take(n).push(event));
                                assert(events@.skip(n).drop_first() =~= events@.skip(n + 1));
                                let after = states(members@);
                                lemma_course_goes_on(
                                    size,
                                    events@.take(n),
                                    progress,
                                    seen,
                                    left,
                                    before,
                                    event,
                                    after,
                                );
                                progress = progress.push(run@);
                                seen = seen.push(before);
                                left = left.push(after);
                                n = n + 1;
                            }
                        },
                    }
                },
            }
        }
        Multiplexed::conclude(members)
    }
}

/// What holds in the course of a batch after `n` events.
proof fn lemma_course<T, E: std::fmt::Display>(
    members: int,
    events: Seq<MultiplexedEvent<T, E>>,
    progress: Seq<MultiplexedState>,
    seen: Seq<Seq<MemberState<T, E>>>,
    left: Seq<Seq<MemberState<T, E>>>,
    n: int,
)
    requires
        is_course(members, events, progress, seen, left),
        departs_once(events, members),
        0 <= members,
        events.len() > 0 ==> all_valid(seen[0]),
        0 <= n <= events.len(),
    ensures
        progress[n].valid(),
        departed(events, n).finite(),
        departed(events, n).subset_of(set_int_range(0, members)),
        progress[n].remaining == members - departed(events, n).len(),
        n > 0 ==> left[n - 1].len() == members && all_valid(left[n - 1]),
        n > 0 ==> forall|i: int| #[trigger]
            departed(events, n).contains(i) ==> left[n - 1][i].life.outcome is Some,
    decreases n,
{
    if n > 0 {
        let k = n - 1;
        lemma_course(members, events, progress, seen, left, k);
        let event = events[k];
        assert(all_valid(seen[k])) by {
            if k > 0 {
                assert(consumers_may_leave(left[k - 1], seen[k]));
                assert forall|i: int| 0 <= i < seen[k].len() implies #[trigger] seen[k][i].valid() by {
                    assert(left[k - 1][i].valid());
                }
            }
        }
        event_keeps_members_valid(seen[k], event, left[k]);
        assert forall|i: int| #[trigger] departed(events, n).contains(i) implies left[k][i].life.outcome is Some by {
            assert(set_int_range(0, members).contains(i));
            if departed(events, k).contains(i) {
                assert(consumers_may_leave(left[k - 1], seen[k]));
                let state = seen[k][i];
                assert(left[k - 1][i].valid());
                outcome_is_kept(seen[k], event, left[k], i);
            } else {
                departure_and_end_settle(seen[k], event, left[k], i);
            }
        }
    }
}

/// When a batch is over, because every member departed or because the task has no more events,
/// every member has an outcome.
pub proof fn finished_batch_settles_every_member<T, E: std::fmt::Display>(
    members: int,
    events: Seq<MultiplexedEvent<T, E>>,
    progress: Seq<MultiplexedState>,
    seen: Seq<Seq<MemberState<T, E>>>,
    left: Seq<Seq<MemberState<T, E>>>,
    i: int,
)
    requires
        is_course(members, events, progress, seen, left),
        departs_once(events, members),
        all_valid(seen[0]),
        0 <= i < members,
        progress.last().is_over(),
        !(events.last() is NoneLeft),
    ensures
        left.last()[i].life.outcome is Some,
{
    let n = events.len() as int;
    lemma_course(members, events, progress, seen, left, n);
    assert(n > 0) by {
        if n == 0 {
            assert(progress[0] == MultiplexedState::begin(members));
        }
    }
    lemma_course(members, events, progress, seen, left, n - 1);
    let event = events[n - 1];
    if event is Exhausted {
        if n > 1 {
            assert(consumers_may_leave(left[n - 2], seen[n - 1]));
            assert(left[n - 2][i].valid());
            let state = seen[n - 1][i];
        } else {
            assert(seen[0][i].valid());
        }
        departure_and_end_settle(seen[n - 1], event, left[n - 1], i);
    } else {
        assert(!progress[n - 1].is_over());
        assert(departed(events, n).len() == members);
        vstd::set_lib::lemma_int_range(0, members);
        vstd::set_lib::lemma_subset_equality(departed(events, n), set_int_range(0, members));
        assert(departed(events, n).contains(i));
    }
}

/// The outcome that these events give the member of this index: the first that is meant for it.
pub open spec fn own_outcome<T, E>(events: Seq<MultiplexedEvent<T, E>>, index: int) -> Option<
    Result<(), E>,
>
    decreases events.len(),
{
    if events.len() == 0 {
        None
    } else if own_outcome(events.drop_last(), index) is Some {
        own_outcome(events.drop_last(), index)
    } else {
        match events.last() {
            MultiplexedEvent::Produced(
                BatchStreamEvent::Finished { index: i, outcome },
            ) if i == index => Some(outcome),
            _ => None,
        }
    }
}

/// The items that these events give the member of this index: those that are meant for it and come
/// before its outcome, in order.
pub open spec fn own_items<T, E>(events: Seq<MultiplexedEvent<T, E>>, index: int) -> Seq<
    Result<T, E>,
>
    decreases events.len(),
{
    if events.len() == 0 {
        Seq::empty()
    } else {
        let most = own_items(events.drop_last(), index);
        match events.last() {
            MultiplexedEvent::Produced(
                BatchStreamEvent::Item { index: i, item },
            ) if i == index && own_outcome(events.drop_last(), index) is None => most.push(item),
            _ => most,
        }
    }
}

/// Whether a channel takes this item when it is offered, as a job reports it.
pub open spec fn has_room_for<T, E: std::fmt::Display>(
    channel: mpsc::Sender<Result<T, Error<E>>>,
    item: Result<T, E>,
) -> bool {
    forall|
        wrapped: Result<T, Error<E>>,
        end: mpsc::Sender<Result<T, Error<E>>>,
        answer: Result<(), TrySendError<Result<T, Error<E>>>>,
    |
        reports(item, wrapped) && #[trigger] tried(channel, wrapped, end, answer) ==> answer is Ok
}

/// Whether the consumer of the member of this index stays, and its channel takes what it is
/// offered: the consumer leaves neither between events nor by one that comes before the member's
/// outcome, and the channel has room for every item that comes for the member while it is open.
pub open spec fn is_served<T, E: std::fmt::Display>(
    events: Seq<MultiplexedEvent<T, E>>,
    seen: Seq<Seq<MemberState<T, E>>>,
    left: Seq<Seq<MemberState<T, E>>>,
    index: int,
) -> bool {
    &&& forall|k: int| #![trigger seen[k]] 0 < k < seen.len() ==> seen[k][index] == left[k - 1][index]
    &&& forall|k: int|
        #![trigger events[k]]
        0 <= k < events.len() && concerns(events[k], index) ==> {
            &&& events[k] is Departed ==> own_outcome(events.take(k), index) is Some
            &&& events[k] is Produced && events[k]->Produced_0 is Item && seen[k][index].is_open()
                ==> has_room_for(seen[k][index].end->0, events[k]->Produced_0->item)
        }
}

/// What a member was before the first event of a course, or after the last of the first `n`.
spec fn member_after<T, S>(
    seen: Seq<Seq<MemberState<T, S>>>,
    left: Seq<Seq<MemberState<T, S>>>,
    index: int,
    n: int,
) -> MemberState<T, S> {
    if n <= 0 {
        seen[0][index]
    } else {
        left[n - 1][index]
    }
}

/// What a member that is served has got after `n` events: the items that its channel took, and the
/// sending end before each and after the last.
proof fn lemma_served<T, E: std::fmt::Display>(
    members: int,
    events: Seq<MultiplexedEvent<T, E>>,
    progress: Seq<MultiplexedState>,
    seen: Seq<Seq<MemberState<T, E>>>,
    left: Seq<Seq<MemberState<T, E>>>,
    i: int,
    n: int,
) -> (got: (Seq<Result<T, Error<E>>>, Seq<mpsc::Sender<Result<T, Error<E>>>>))
    requires
        is_course(members, events, progress, seen, left),
        is_served(events, seen, left, i),
        events.len() > 0,
        0 <= i < members,
        seen[0][i].valid(),
        seen[0][i].is_open(),
        0 <= n <= events.len(),
    ensures
        ({
            let first = seen[0][i];
            let now = member_after(seen, left, i, n);
            let outcome = own_outcome(events.take(n), i);
            let ended = n > 0 && events[n - 1] is Exhausted;
            &&& reports_each(own_items(events.take(n), i), got.0)
            &&& took(got.1, got.0)
            &&& got.1[0] == first.end->0
            &&& now.sent == first.sent + got.0
            &&& now.valid()
            &&& outcome is None && !ended ==> now.life == first.life && now.end == Some(
                got.1.last(),
            )
            &&& outcome is Some || ended ==> {
                &&& now.end is None
                &&& now.life.outcome is Some
                &&& first.life.carried_out(now.life)
                &&& now.life == first.life.terminal(now.life.outcome->0)
            }
            &&& outcome is Some ==> reports(outcome->0, now.life.outcome->0)
            &&& outcome is None && ended ==> now.life.outcome == Some(Ok::<(), Error<E>>(()))
        }),
    decreases n,
{
    let first = seen[0][i];
    if n == 0 {
        let items: Seq<Result<T, Error<E>>> = Seq::empty();
        assert(first.sent + items =~= first.sent);
        (items, seq![first.end->0])
    } else {
        let k = n - 1;
        let (items, ends) = lemma_served(members, events, progress, seen, left, i, k);
        let before = seen[k][i];
        let after = left[k][i];
        let event = events[k];
        assert(events.take(n).drop_last() =~= events.take(k));
        assert(is_course_step(members, progress[k], seen[k], event, left[k], progress[k + 1]));
        assert(before == member_after(seen, left, i, k));
        assert(after == member_after(seen, left, i, n));
        if k > 0 {
            let previous = events[k - 1];
            assert(!progress[k].is_over());
            assert(!(previous is Exhausted));
        }
        if before.is_open() && event is Produced && event->Produced_0 is Item && concerns(event, i) {
            assert(routes_item(before, event->Produced_0->item, after));
            let (wrapped, end, answer) = choose|
                wrapped: Result<T, Error<E>>,
                end: mpsc::Sender<Result<T, Error<E>>>,
                answer: Result<(), TrySendError<Result<T, Error<E>>>>,
            |
                reports(event->Produced_0->item, wrapped) && #[trigger] settles_send(
                    before,
                    wrapped,
                    end,
                    answer,
                    after,
                );
            assert(answer is Ok);
            assert(accepted(ends.last(), wrapped, end));
            lemma_took_more(ends, items, wrapped, end);
            assert(first.sent + items.push(wrapped) =~= (first.sent + items).push(wrapped));
            (items.push(wrapped), ends.push(end))
        } else {
            (items, ends)
        }
    }
}

/// A member whose consumer stays, and whose channel takes what it is offered, gets exactly the
/// items that are meant for it and come before its outcome, in order, whatever other members get.
/// Its consumer is told that outcome, or success where the task has no more events before there is
/// one. As long as there is neither, the member is open.
pub proof fn served_member_gets_its_own_items_and_outcome<T, E: std::fmt::Display>(
    members: int,
    events: Seq<MultiplexedEvent<T, E>>,
    progress: Seq<MultiplexedState>,
    seen: Seq<Seq<MemberState<T, E>>>,
    left: Seq<Seq<MemberState<T, E>>>,
    i: int,
)
    requires
        is_course(members, events, progress, seen, left),
        is_served(events, seen, left, i),
        events.len() > 0,
        0 <= i < members,
        seen[0][i].valid(),
        seen[0][i].is_open(),
    ensures
        ({
            let first = seen[0][i];
            let last = left.last()[i];
            let outcome = own_outcome(events, i);
            &&& exists|
                items: Seq<Result<T, Error<E>>>,
                ends: Seq<mpsc::Sender<Result<T, Error<E>>>>,
            |
                {
                    &&& reports_each(own_items(events, i), items)
                    &&& last.sent == first.sent + items
                    &&& first.end == Some(ends[0])
                    &&& #[trigger] took(ends, items)
                }
            &&& outcome is Some ==> {
                &&& last.life.outcome is Some
                &&& reports(outcome->0, last.life.outcome->0)
            }
            &&& outcome is None && events.last() is Exhausted ==> last.life.outcome == Some(
                Ok::<(), Error<E>>(()),
            )
            &&& outcome is None && !(events.last() is Exhausted) ==> last.is_open()
            &&& last.life.outcome is Some ==> {
                &&& first.life.carried_out(last.life)
                &&& last.life == first.life.terminal(last.life.outcome->0)
            }
        }),
{
    let n = events.len() as int;
    let (items, ends) = lemma_served(members, events, progress, seen, left, i, n);
    assert(events.take(n) =~= events);
    assert(took(ends, items));
}

/// How many events were handled since a turn for others, as long as there was none.
proof fn lemma_routed_counts<T, E: std::fmt::Display>(
    members: int,
    events: Seq<MultiplexedEvent<T, E>>,
    progress: Seq<MultiplexedState>,
    seen: Seq<Seq<MemberState<T, E>>>,
    left: Seq<Seq<MemberState<T, E>>>,
    from: int,
    n: int,
)
    requires
        is_course(members, events, progress, seen, left),
        0 <= from,
        0 <= n,
        from + n < events.len(),
        forall|j: int| from <= j < from + n ==> !((#[trigger] progress[j]).action() is Yield),
    ensures
        progress[from + n].routed == progress[from].routed + n,
    decreases n,
{
    if n > 0 {
        lemma_routed_counts(members, events, progress, seen, left, from, n - 1);
        let k = from + n - 1;
        let event = events[k];
        let next = events[k + 1];
        assert(!(progress[k].action() is Yield));
        assert(!progress[k + 1].is_over());
    }
}

/// The count of handled events stays within the budget.
proof fn lemma_routed_bounded<T, E: std::fmt::Display>(
    members: int,
    events: Seq<MultiplexedEvent<T, E>>,
    progress: Seq<MultiplexedState>,
    seen: Seq<Seq<MemberState<T, E>>>,
    left: Seq<Seq<MemberState<T, E>>>,
    n: int,
)
    requires
        is_course(members, events, progress, seen, left),
        0 <= n <= events.len(),
    ensures
        0 <= progress[n].routed <= ROUTE_BUDGET,
    decreases n,
{
    if n > 0 {
        lemma_routed_bounded(members, events, progress, seen, left, n - 1);
        let event = events[n - 1];
    }
}

/// However fast events come, other tasks get a turn before the budget is exceeded: among any
/// budget of events and the next, one is preceded by a turn for others.
pub proof fn others_get_a_turn<T, E: std::fmt::Display>(
    members: int,
    events: Seq<MultiplexedEvent<T, E>>,
    progress: Seq<MultiplexedState>,
    seen: Seq<Seq<MemberState<T, E>>>,
    left: Seq<Seq<MemberState<T, E>>>,
    from: int,
)
    requires
        is_course(members, events, progress, seen, left),
        0 <= from,
        from + ROUTE_BUDGET < events.len(),
    ensures
        exists|j: int|
            from <= j <= from + ROUTE_BUDGET && (#[trigger] progress[j]).action() is Yield,
{
    if forall|j: int|
        from <= j < from + ROUTE_BUDGET ==> !((#[trigger] progress[j]).action() is Yield) {
        lemma_routed_counts(members, events, progress, seen, left, from, ROUTE_BUDGET as int);
        lemma_routed_bounded(members, events, progress, seen, left, from);
        lemma_routed_bounded(members, events, progress, seen, left, from + ROUTE_BUDGET);
        let event = events[from + ROUTE_BUDGET];
        assert(progress[from + ROUTE_BUDGET].action() is Yield);
    }
}

/// What an event does to the member of an index, by what the event says. An item is offered to the
/// channel of an open member, as a job reports it: a channel that takes it keeps the member open, a
/// full one ends the member because its consumer lags, and one that lost its receiver because its
/// consumer is gone. An outcome ends an open member, a departure ends a member whose stream was
/// closed, and when the task has no more events every member is done. Whoever has an outcome keeps
/// it, and what the channel took before stays.
pub proof fn event_does_what_it_says<T, E: std::fmt::Display>(
    before: Seq<MemberState<T, E>>,
    event: MultiplexedEvent<T, E>,
    after: Seq<MemberState<T, E>>,
    i: int,
)
    requires
        routes(before, event, after),
        all_valid(before),
        0 <= i < before.len(),
    ensures
        after.len() == before.len(),
        ({
            let (was, now) = (before[i], after[i]);
            let open = was.end is Some && !was.life.closed && was.life.outcome is None;
            match event {
                MultiplexedEvent::Produced(BatchStreamEvent::Item { index, item }) => {
                    if index == i && open {
                        exists|
                            wrapped: Result<T, Error<E>>,
                            end: mpsc::Sender<Result<T, Error<E>>>,
                            answer: Result<(), TrySendError<Result<T, Error<E>>>>,
                        |
                            {
                                &&& reports(item, wrapped)
                                &&& #[trigger] tried(was.end->0, wrapped, end, answer)
                                &&& match answer {
                                    Ok(_) => {
                                        &&& now.sent == was.sent.push(wrapped)
                                        &&& now.end == Some(end)
                                        &&& now.life == was.life
                                    },
                                    Err(TrySendError::Full(_)) => {
                                        &&& now.sent == was.sent
                                        &&& now.end is None
                                        &&& now.life.closed
                                        &&& now.life.outcome == Some(
                                            Err::<(), Error<E>>(Error::ConsumerLag),
                                        )
                                    },
                                    Err(TrySendError::Closed(_)) => {
                                        &&& now.sent == was.sent
                                        &&& now.end is None
                                        &&& now.life.closed
                                        &&& now.life.outcome == Some(
                                            Err::<(), Error<E>>(Error::ConsumerCancelled),
                                        )
                                    },
                                }
                            }
                    } else {
                        now == was
                    }
                },
                MultiplexedEvent::Produced(BatchStreamEvent::Finished { index, outcome }) => {
                    if index == i && open {
                        &&& now.sent == was.sent
                        &&& now.end is None
                        &&& now.life.closed
                        &&& now.life.outcome is Some
                        &&& reports(outcome, now.life.outcome->0)
                    } else {
                        now == was
                    }
                },
                MultiplexedEvent::Departed(index) => if index == i && was.end is Some {
                    &&& now.sent == was.sent
                    &&& now.end is None
                    &&& now.life.closed
                    &&& now.life.outcome == if was.life.outcome is Some {
                        was.life.outcome
                    } else {
                        Some(Err::<(), Error<E>>(Error::ConsumerCancelled))
                    }
                } else {
                    now == was
                },
                MultiplexedEvent::Exhausted => if was.end is Some {
                    &&& now.sent == was.sent
                    &&& now.end is None
                    &&& now.life.closed
                    &&& now.life.outcome == if was.life.outcome is Some {
                        was.life.outcome
                    } else {
                        Some(Ok::<(), Error<E>>(()))
                    }
                } else {
                    now == was
                },
                MultiplexedEvent::NoneLeft => now == was,
            }
        }),
        before[i].life.carried_out(after[i].life),
{
    assert(before[i].valid());
    let state = after[i];
}

/// A member is ended by an item only because its channel did not take that item. One whose channel
/// has room for it stays open, whatever its index.
pub proof fn item_is_offered_to_its_member<T, E: std::fmt::Display>(
    before: Seq<MemberState<T, E>>,
    index: usize,
    item: Result<T, E>,
    after: Seq<MemberState<T, E>>,
)
    requires
        routes(
            before,
            MultiplexedEvent::Produced(BatchStreamEvent::Item { index, item }),
            after,
        ),
        index < before.len(),
        before[index as int].is_open(),
        has_room_for(before[index as int].end->0, item),
    ensures
        after[index as int].is_open(),
        after[index as int].life == before[index as int].life,
        exists|wrapped: Result<T, Error<E>>|
            #[trigger] reports(item, wrapped) && after[index as int].sent
                == before[index as int].sent.push(wrapped),
{
    let state = after[index as int];
}

/// How many of the first `n` events are departures.
pub open spec fn departures<T, E>(events: Seq<MultiplexedEvent<T, E>>, n: int) -> int
    decreases n,
{
    if n <= 0 {
        0
    } else if events[n - 1] is Departed {
        departures(events, n - 1) + 1
    } else {
        departures(events, n - 1)
    }
}

/// What is known of how far a batch is after `n` events.
proof fn lemma_progress<T, E: std::fmt::Display>(
    members: int,
    events: Seq<MultiplexedEvent<T, E>>,
    progress: Seq<MultiplexedState>,
    seen: Seq<Seq<MemberState<T, E>>>,
    left: Seq<Seq<MemberState<T, E>>>,
    n: int,
)
    requires
        is_course(members, events, progress, seen, left),
        0 <= n <= events.len(),
    ensures
        progress[n].remaining == members - departures(events, n),
        progress[n].ended <==> exists|k: int|
            0 <= k < n && ((#[trigger] events[k]) is Exhausted || events[k] is NoneLeft),
        0 <= progress[n].routed <= n,
    decreases n,
{
    if n > 0 {
        lemma_progress(members, events, progress, seen, left, n - 1);
        let event = events[n - 1];
        assert(is_course_step(
            members,
            progress[n - 1],
            seen[n - 1],
            event,
            left[n - 1],
            progress[n],
        ));
    }
}

/// A batch is over once every member departed, or the task has no more events or nobody is left who
/// could depart, and not before.
pub proof fn batch_goes_on_until_nobody_is_left<T, E: std::fmt::Display>(
    members: int,
    events: Seq<MultiplexedEvent<T, E>>,
    progress: Seq<MultiplexedState>,
    seen: Seq<Seq<MemberState<T, E>>>,
    left: Seq<Seq<MemberState<T, E>>>,
    n: int,
)
    requires
        is_course(members, events, progress, seen, left),
        0 <= n <= events.len(),
    ensures
        progress[n].action() is Conclude <==> departures(events, n) >= members || exists|k: int|
            0 <= k < n && ((#[trigger] events[k]) is Exhausted || events[k] is NoneLeft),
        progress[n].is_over() <==> progress[n].action() is Conclude,
{
    lemma_progress(members, events, progress, seen, left, n);
}

/// How many events were handled since a turn for others.
proof fn lemma_since_a_turn<T, E: std::fmt::Display>(
    members: int,
    events: Seq<MultiplexedEvent<T, E>>,
    progress: Seq<MultiplexedState>,
    seen: Seq<Seq<MemberState<T, E>>>,
    left: Seq<Seq<MemberState<T, E>>>,
    from: int,
    n: int,
)
    requires
        is_course(members, events, progress, seen, left),
        0 <= from < n <= events.len(),
        progress[from].action() is Yield,
    ensures
        progress[n].routed <= n - from,
    decreases n,
{
    let event = events[n - 1];
    assert(is_course_step(members, progress[n - 1], seen[n - 1], event, left[n - 1], progress[n]));
    if n - 1 > from {
        lemma_since_a_turn(members, events, progress, seen, left, from, n - 1);
    }
}

/// However fast events come, other tasks get a turn after sixty-four of them at the latest, and not
/// before as many were handled.
pub proof fn turn_comes_with_every_sixty_fourth_event<T, E: std::fmt::Display>(
    members: int,
    events: Seq<MultiplexedEvent<T, E>>,
    progress: Seq<MultiplexedState>,
    seen: Seq<Seq<MemberState<T, E>>>,
    left: Seq<Seq<MemberState<T, E>>>,
    from: int,
    to: int,
)
    requires
        is_course(members, events, progress, seen, left),
        0 <= from < to <= events.len(),
    ensures
        progress[to].action() is Yield ==> to >= 64,
        progress[from].action() is Yield && progress[to].action() is Yield ==> to - from >= 64,
        to == from + 64 && to < events.len() ==> exists|j: int|
            from <= j <= to && (#[trigger] progress[j]).action() is Yield,
{
    lemma_progress(members, events, progress, seen, left, to);
    if progress[from].action() is Yield {
        lemma_since_a_turn(members, events, progress, seen, left, from, to);
    }
    if to == from + 64 && to < events.len() {
        others_get_a_turn(members, events, progress, seen, left, from);
    }
}

/// Whether the channel of the member of this index has room for every item that comes for it in a
/// course, and its consumer does not depart before its outcome.
pub open spec fn channel_keeps_up<T, E: std::fmt::Display>(
    events: Seq<MultiplexedEvent<T, E>>,
    seen: Seq<Seq<MemberState<T, E>>>,
    index: int,
) -> bool {
    forall|k: int|
        #![trigger events[k]]
        0 <= k < events.len() ==> match events[k] {
            MultiplexedEvent::Departed(i) => i == index ==> own_outcome(events.take(k), index)
                is Some,
            MultiplexedEvent::Produced(
                BatchStreamEvent::Item { index: i, item },
            ) => i == index && seen[k][index].end is Some ==> has_room_for(
                seen[k][index].end->0,
                item,
            ),
            _ => true,
        }
}

/// In a batch that nobody interferes with, a member whose channel keeps up gets exactly the items
/// that are meant for it and come before its outcome, in order, and that outcome, or success where
/// the task has no more events before there is one.
pub proof fn undisturbed_batch_serves_its_members<T, E: std::fmt::Display>(
    members: int,
    events: Seq<MultiplexedEvent<T, E>>,
    progress: Seq<MultiplexedState>,
    seen: Seq<Seq<MemberState<T, E>>>,
    left: Seq<Seq<MemberState<T, E>>>,
    i: int,
)
    requires
        is_course(members, events, progress, seen, left),
        undisturbed(seen, left),
        channel_keeps_up(events, seen, i),
        events.len() > 0,
        0 <= i < members,
        seen[0][i].valid(),
        seen[0][i].end is Some,
        !seen[0][i].life.closed,
    ensures
        ({
            let first = seen[0][i];
            let last = left.last()[i];
            let outcome = own_outcome(events, i);
            &&& exists|items: Seq<Result<T, Error<E>>>|
                {
                    &&& #[trigger] reports_each(own_items(events, i), items)
                    &&& last.sent == first.sent + items
                }
            &&& match outcome {
                Some(outcome) => last.life.outcome is Some && reports(
                    outcome,
                    last.life.outcome->0,
                ),
                None => if events.last() is Exhausted {
                    last.life.outcome == Some(Ok::<(), Error<E>>(()))
                } else {
                    last.life.outcome is None && !last.life.closed && last.end is Some
                },
            }
        }),
{
    served_member_gets_its_own_items_and_outcome(members, events, progress, seen, left, i);
}

} // verus!
