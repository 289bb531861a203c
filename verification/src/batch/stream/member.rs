//! The members of a stream batch.

use event_listener::EventListener;
use futures::channel::mpsc;
use vstd::prelude::*;

use crate::channel::{accepted, full, lost, offer, tried, Sent, TrySendError};
use crate::error::Error;
use crate::future::JobStreamSetter;
use crate::lifecycle::{LifecycleState, StreamLifecycle};
use crate::signal::listens;

verus! {

/// Why a member did not take an item. Either way the item comes back.
pub enum MemberSendError<T, S> {
    /// The consumer has not made room.
    Full(Result<T, Error<S>>),
    /// The member takes no more items.
    Closed(Result<T, Error<S>>),
}

impl<T, S> MemberSendError<T, S> {
    /// The item that was not taken.
    pub open spec fn item(self) -> Result<T, Error<S>> {
        match self {
            MemberSendError::Full(item) => item,
            MemberSendError::Closed(item) => item,
        }
    }

    /// The error of a member whose channel did not take an item.
    pub open spec fn refusal(error: TrySendError<Result<T, Error<S>>>) -> Self {
        match error {
            TrySendError::Full(item) => MemberSendError::Full(item),
            TrySendError::Closed(item) => MemberSendError::Closed(item),
        }
    }

    /// The error of a member whose channel did not take an item.
    pub fn refused(error: TrySendError<Result<T, Error<S>>>) -> (refusal: Self)
        ensures
            refusal == Self::refusal(error),
    {
        match error {
            TrySendError::Full(item) => MemberSendError::Full(item),
            TrySendError::Closed(item) => MemberSendError::Closed(item),
        }
    }
}

/// The way from a stream batch to one consumer.
#[verifier::reject_recursive_types(T)]
#[verifier::reject_recursive_types(S)]
pub struct StreamDelivery<T, S> {
    setter: JobStreamSetter<T, S>,
}

impl<T, S> StreamDelivery<T, S> {
    /// The items that were sent before the batch began.
    pub closed spec fn sent(&self) -> Seq<Result<T, Error<S>>> {
        self.setter.sent()
    }

    /// Where the stream is in its life.
    pub closed spec fn life(&self) -> LifecycleState<S> {
        self.setter.life()
    }

    /// The sending end of the consumer's channel.
    pub closed spec fn end(&self) -> Option<mpsc::Sender<Result<T, Error<S>>>> {
        self.setter.end()
    }

    /// A delivery through `setter`.
    pub fn new(setter: JobStreamSetter<T, S>) -> (delivery: Self)
        ensures
            delivery.sent() == setter.sent(),
            delivery.life() == setter.life(),
            delivery.end() == setter.end(),
    {
        StreamDelivery { setter }
    }

    /// The life of the stream.
    pub fn lifecycle(&self) -> (lifecycle: &StreamLifecycle<S>)
        ensures
            lifecycle@ == self.life(),
    {
        self.setter.lifecycle()
    }
}

/// What a [`StreamBatchMember`] is, as a mathematical value.
#[verifier::reject_recursive_types(T)]
#[verifier::reject_recursive_types(S)]
pub struct MemberState<T, S> {
    /// The sending end of the consumer's channel, while the member is attached: while it can be
    /// given items and an outcome.
    pub end: Option<mpsc::Sender<Result<T, Error<S>>>>,
    /// The items that the consumer's channel has taken, oldest first.
    pub sent: Seq<Result<T, Error<S>>>,
    /// Where the member's stream is in its life.
    pub life: LifecycleState<S>,
}

impl<T, S> MemberState<T, S> {
    /// Whether the member takes items.
    pub open spec fn is_open(self) -> bool {
        self.end is Some && self.life.is_open()
    }

    /// Whether the member ended with an error.
    pub open spec fn failed(self) -> bool {
        self.life.failed()
    }

    /// The member after its channel took an item, with the sending end being `end` then.
    pub open spec fn accept(
        self,
        item: Result<T, Error<S>>,
        end: mpsc::Sender<Result<T, Error<S>>>,
    ) -> Self {
        MemberState { end: Some(end), sent: self.sent.push(item), ..self }
    }

    /// The member after its channel did not take an item, with the sending end being `end` then.
    pub open spec fn keep(self, end: mpsc::Sender<Result<T, Error<S>>>) -> Self {
        MemberState { end: Some(end), ..self }
    }

    /// Whether this is the member after its channel gave this answer when it was offered an
    /// item.
    pub open spec fn is_answered(
        self,
        before: Self,
        item: Result<T, Error<S>>,
        answer: Result<(), TrySendError<Result<T, Error<S>>>>,
    ) -> bool {
        &&& before.end is Some
        &&& self.end is Some
        &&& tried(before.end->0, item, self.end->0, answer)
        &&& self == if answer is Ok {
            before.accept(item, self.end->0)
        } else {
            before.keep(self.end->0)
        }
    }

    /// The member after it was given an outcome. Once it is detached nothing reaches it.
    pub open spec fn finish(self, outcome: Result<(), Error<S>>) -> Self {
        if self.end is Some {
            MemberState { end: None, life: self.life.terminal(outcome), ..self }
        } else {
            self
        }
    }

    /// The member after an outcome was claimed for its stream, attached or not.
    pub open spec fn terminal(self, outcome: Result<(), Error<S>>) -> Self {
        MemberState { life: self.life.terminal(outcome), ..self }
    }

    /// The member after its consumer left.
    pub open spec fn receiver_gone(self) -> Self {
        MemberState { life: self.life.receiver_gone(), ..self }
    }

    /// What holds of every member: its stream is in a valid place in its life, and a member
    /// that was detached has an outcome.
    pub open spec fn valid(self) -> bool {
        &&& self.life.valid()
        &&& self.end is None ==> self.life.outcome is Some
    }
}

/// One input's share of a stream batch.
#[verifier::reject_recursive_types(T)]
#[verifier::reject_recursive_types(S)]
pub struct StreamBatchMember<T, S> {
    delivery: Option<mpsc::Sender<Result<T, Error<S>>>>,
    sent: Ghost<Seq<Result<T, Error<S>>>>,
    lifecycle: StreamLifecycle<S>,
}

impl<T, S> View for StreamBatchMember<T, S> {
    type V = MemberState<T, S>;

    closed spec fn view(&self) -> MemberState<T, S> {
        MemberState {
            end: self.delivery,
            sent: self.sent@,
            life: self.lifecycle@,
        }
    }
}

impl<T, S> StreamBatchMember<T, S> {
    /// A member that delivers through `delivery`.
    pub fn new(delivery: StreamDelivery<T, S>) -> (member: Self)
        ensures
            member@ == (MemberState {
                end: delivery.end(),
                sent: delivery.sent(),
                life: delivery.life(),
            }),
    {
        let sent: Ghost<Seq<Result<T, Error<S>>>> = Ghost(delivery.setter.sent());
        let (sender, lifecycle) = delivery.setter.into_parts();
        StreamBatchMember { delivery: sender, sent, lifecycle }
    }

    /// Whether the member takes items.
    pub fn is_open(&self) -> (open: bool)
        ensures
            open == self@.is_open(),
    {
        self.delivery.is_some() && self.lifecycle.is_open()
    }

    /// Whether the member was not let go of yet.
    pub fn is_attached(&self) -> (attached: bool)
        ensures
            attached == (self@.end is Some),
    {
        self.delivery.is_some()
    }

    /// Whether the member's stream is open, attached or not.
    pub fn is_live(&self) -> (live: bool)
        ensures
            live == self@.life.is_open(),
    {
        self.lifecycle.is_open()
    }

    /// What to wait for before the member's stream is closed: nothing, once it is.
    pub fn closed(&self) -> (wait: Option<EventListener>)
        ensures
            wait is None <==> self@.life.closed,
            wait is Some ==> listens(self@.life.signal.event, wait->0),
    {
        self.lifecycle.closed()
    }

    /// Whether the member ended with an error.
    pub fn failed(&self) -> (failed: bool)
        ensures
            failed == self@.failed(),
    {
        self.lifecycle.failed()
    }

    /// The sending end of the channel, on which room for an item is awaited. A member that is
    /// not open has none to offer.
    pub fn channel(&mut self) -> (sender: Option<&mut mpsc::Sender<Result<T, Error<S>>>>)
        ensures
            sender is Some <==> old(self)@.is_open(),
            match sender {
                Some(sender) => {
                    &&& old(self)@.end == Some(*sender)
                    &&& final(self)@ == old(self)@.keep(*final(sender))
                },
                None => final(self)@ == old(self)@,
            },
    {
        if !self.is_open() {
            return None;
        }
        self.delivery.as_mut()
    }

    /// Sends one item. A full channel gives it back, to be sent again once there is room. Only a
    /// member that is not open, or whose channel lost its receiver, fails.
    pub fn send(&mut self, item: Result<T, Error<S>>) -> (sent: Result<
        Sent<Result<T, Error<S>>>,
        Error<S>,
    >)
        ensures
            !old(self)@.is_open() ==> sent is Err && final(self)@ == old(self)@,
            old(self)@.is_open() ==> final(self)@.end is Some,
            match sent {
                Ok(Sent::Done) => {
                    &&& accepted(old(self)@.end->0, item, final(self)@.end->0)
                    &&& final(self)@ == old(self)@.accept(item, final(self)@.end->0)
                },
                Ok(Sent::Wait(back)) => {
                    &&& back == item
                    &&& full(old(self)@.end->0, item, final(self)@.end->0)
                    &&& final(self)@ == old(self)@.keep(final(self)@.end->0)
                },
                Err(error) => {
                    &&& error == Error::<S>::ConsumerCancelled
                    &&& old(self)@.is_open() ==> {
                        &&& lost(old(self)@.end->0, item, final(self)@.end->0)
                        &&& final(self)@ == old(self)@.keep(final(self)@.end->0)
                    }
                },
            },
    {
        match self.try_send(item) {
            Ok(()) => Ok(Sent::Done),
            Err(MemberSendError::Full(item)) => Ok(Sent::Wait(item)),
            Err(MemberSendError::Closed(_)) => Err(Error::consumer_cancelled()),
        }
    }

    /// Sends one item if there is room for it now. A member that is not open, a full channel
    /// and one without a receiver give the item back.
    pub fn try_send(&mut self, item: Result<T, Error<S>>) -> (sent: Result<
        (),
        MemberSendError<T, S>,
    >)
        ensures
            !old(self)@.is_open() ==> {
                &&& sent == Err::<(), _>(MemberSendError::Closed(item))
                &&& final(self)@ == old(self)@
            },
            old(self)@.is_open() ==> exists|answer: Result<(), TrySendError<Result<T, Error<S>>>>|
                {
                    &&& #[trigger] final(self)@.is_answered(old(self)@, item, answer)
                    &&& sent is Ok <==> answer is Ok
                    &&& answer is Err ==> {
                        &&& answer->Err_0.value() == item
                        &&& sent->Err_0 == MemberSendError::refusal(answer->Err_0)
                    }
                },
            sent is Err ==> sent->Err_0.item() == item,
    {
        if !self.is_open() {
            return Err(MemberSendError::Closed(item));
        }
        match self.delivery.take() {
            Some(sender) => {
                let (sender, answer) = offer(sender, item);
                self.delivery = Some(sender);
                match answer {
                    Ok(()) => {
                        self.sent = Ghost(self.sent@.push(item));
                        assert(self@.is_answered(old(self)@, item, answer));
                        Ok(())
                    },
                    Err(error) => {
                        assert(self@.is_answered(old(self)@, item, answer));
                        Err(MemberSendError::refused(error))
                    },
                }
            },
            None => Err(MemberSendError::Closed(item)),
        }
    }

    /// Gives the member its outcome and lets go of its channel. Only the first call does.
    pub fn finish(&mut self, outcome: Result<(), Error<S>>)
        ensures
            finishes(old(self)@, outcome, final(self)@),
    {
        if let Some(_delivery) = self.delivery.take() {
            self.lifecycle.set_terminal(outcome);
        }
    }

    /// Claims an outcome for the member's stream, whether or not the member was let go of.
    /// Says whether this call claimed it.
    pub fn set_terminal(&mut self, outcome: Result<(), Error<S>>) -> (claimed: bool)
        ensures
            claimed == (old(self)@.life.outcome is None),
            final(self)@ == old(self)@.terminal(outcome),
            old(self)@.life.carried_out(final(self)@.life),
    {
        self.lifecycle.set_terminal(outcome)
    }

    /// Records that the consumer left.
    pub fn receiver_dropped(&mut self)
        ensures
            final(self)@ == old(self)@.receiver_gone(),
            old(self)@.life.carried_out(final(self)@.life),
    {
        self.lifecycle.receiver_dropped()
    }
}

/// Whether a member goes from `before` to `after` when it is given this outcome, and its consumer
/// was told.
pub open spec fn finishes<T, S>(
    before: MemberState<T, S>,
    outcome: Result<(), Error<S>>,
    after: MemberState<T, S>,
) -> bool {
    &&& after == before.finish(outcome)
    &&& before.life.carried_out(after.life)
}

/// The states of several members.
pub open spec fn states<T, S>(members: Seq<StreamBatchMember<T, S>>) -> Seq<MemberState<T, S>> {
    members.map_values(|member: StreamBatchMember<T, S>| member@)
}

/// Which members of a stream batch are open.
#[verifier::reject_recursive_types(T)]
#[verifier::reject_recursive_types(S)]
pub struct StreamBatchActivity<'a, T, S> {
    members: &'a Vec<StreamBatchMember<T, S>>,
}

impl<'a, T, S> View for StreamBatchActivity<'a, T, S> {
    type V = Seq<LifecycleState<S>>;

    /// Where the members' streams are in their lives, by index.
    closed spec fn view(&self) -> Seq<LifecycleState<S>> {
        self.members@.map_values(|member: StreamBatchMember<T, S>| member@.life)
    }
}

impl<'a, T, S> StreamBatchActivity<'a, T, S> {
    /// The activity of the given members.
    pub fn new(members: &'a Vec<StreamBatchMember<T, S>>) -> (activity: Self)
        ensures
            activity@ == states(members@).map_values(|state: MemberState<T, S>| state.life),
    {
        let activity = StreamBatchActivity { members };
        assert(activity@ =~= states(members@).map_values(|state: MemberState<T, S>| state.life));
        activity
    }

    /// The number of members.
    pub fn len(&self) -> (len: usize)
        ensures
            len == self@.len(),
    {
        self.members.len()
    }

    /// Whether there is no member.
    pub fn is_empty(&self) -> (empty: bool)
        ensures
            empty == (self@.len() == 0),
    {
        self.members.len() == 0
    }

    /// Whether there is a member of this index whose stream is open.
    pub fn is_open(&self, index: usize) -> (open: bool)
        ensures
            open == (index < self@.len() && self@[index as int].is_open()),
    {
        index < self.members.len() && self.members[index].is_live()
    }

    /// What to wait for before the stream of the member of this index is closed: nothing, once
    /// it is, and nothing where there is no such member.
    pub fn closed(&self, index: usize) -> (wait: Option<EventListener>)
        ensures
            wait is Some <==> index < self@.len() && !self@[index as int].closed,
            wait is Some ==> listens(self@[index as int].signal.event, wait->0),
    {
        if index < self.members.len() {
            self.members[index].closed()
        } else {
            None
        }
    }

    /// What to wait for before each member's stream is closed, by index.
    pub fn closures(&self) -> (waits: Vec<Option<EventListener>>)
        ensures
            waits@.len() == self@.len(),
            forall|i: int| 0 <= i < self@.len() ==> (waits@[i] is None <==> self@[i].closed),
            forall|i: int|
                0 <= i < self@.len() && waits@[i] is Some ==> listens(
                    self@[i].signal.event,
                    (#[trigger] waits@[i])->0,
                ),
    {
        let mut waits: Vec<Option<EventListener>> = Vec::new();
        let mut i: usize = 0;
        while i < self.members.len()
            invariant
                i <= self.members@.len(),
                waits@.len() == i,
                forall|k: int| 0 <= k < i ==> (waits@[k] is None <==> self@[k].closed),
                forall|k: int|
                    0 <= k < i && waits@[k] is Some ==> listens(
                        self@[k].signal.event,
                        (#[trigger] waits@[k])->0,
                    ),
            decreases self.members@.len() - i,
        {
            waits.push(self.members[i].closed());
            i += 1;
        }
        waits
    }
}

/// The members of a stream batch.
#[verifier::reject_recursive_types(T)]
#[verifier::reject_recursive_types(S)]
pub struct StreamBatchContext<T, S> {
    members: Vec<StreamBatchMember<T, S>>,
}

impl<T, S> View for StreamBatchContext<T, S> {
    type V = Seq<MemberState<T, S>>;

    /// The members' states, by index.
    closed spec fn view(&self) -> Seq<MemberState<T, S>> {
        states(self.members@)
    }
}

impl<T, S> StreamBatchContext<T, S> {
    /// A batch with one member for each delivery, in order.
    pub fn new(deliveries: Vec<StreamDelivery<T, S>>) -> (context: Self)
        ensures
            context@.len() == deliveries@.len(),
            forall|i: int|
                0 <= i < deliveries@.len() ==> context@[i] == (MemberState {
                    end: deliveries@[i].end(),
                    sent: deliveries@[i].sent(),
                    life: deliveries@[i].life(),
                }),
    {
        let mut members: Vec<StreamBatchMember<T, S>> = Vec::new();
        for delivery in iter: deliveries
            invariant
                iter.seq() == deliveries@,
                members@.len() == iter.index(),
                forall|i: int|
                    0 <= i < members@.len() ==> members@[i]@ == (MemberState {
                        end: deliveries@[i].end(),
                        sent: deliveries@[i].sent(),
                        life: deliveries@[i].life(),
                    }),
        {
            members.push(StreamBatchMember::new(delivery));
        }
        StreamBatchContext { members }
    }

    /// Which members are open.
    pub fn activity(&self) -> (activity: StreamBatchActivity<'_, T, S>)
        ensures
            activity@ == self@.map_values(|state: MemberState<T, S>| state.life),
    {
        StreamBatchActivity::new(&self.members)
    }

    /// The members.
    pub fn members(&mut self) -> (members: &mut Vec<StreamBatchMember<T, S>>)
        ensures
            states(members@) == old(self)@,
            final(self)@ == states(final(members)@),
    {
        &mut self.members
    }

    /// The members.
    pub fn into_members(self) -> (members: Vec<StreamBatchMember<T, S>>)
        ensures
            states(members@) == self@,
    {
        self.members
    }

    /// Ends every member that has no outcome with `error`.
    pub fn fail_unfinished(&mut self, error: Error<S>)
        ensures
            final(self)@ == old(self)@.map_values(
                |state: MemberState<T, S>| state.terminal(Err(error)),
            ),
            forall|i: int|
                0 <= i < old(self)@.len() ==> old(self)@[i].life.carried_out(
                    (#[trigger] final(self)@[i]).life,
                ),
    {
        let mut i: usize = 0;
        while i < self.members.len()
            invariant
                i <= self.members@.len(),
                self.members@.len() == old(self).members@.len(),
                forall|k: int|
                    0 <= k < i ==> {
                        &&& self.members@[k]@ == old(self).members@[k]@.terminal(Err(error))
                        &&& old(self).members@[k]@.life.carried_out(self.members@[k]@.life)
                    },
                forall|k: int| i <= k < self.members@.len() ==> self.members@[k] == old(self).members@[k],
            decreases self.members@.len() - i,
        {
            self.members[i].set_terminal(Err(error.clone()));
            i += 1;
        }
        assert(self@ =~= old(self)@.map_values(
            |state: MemberState<T, S>| state.terminal(Err(error)),
        ));
    }

    /// Whether any member ended with an error.
    pub fn has_failure(&self) -> (failure: bool)
        ensures
            failure == any_failed(self@),
    {
        any_member_failed(&self.members)
    }
}

/// Whether any member ended with an error.
pub open spec fn any_failed<T, S>(states: Seq<MemberState<T, S>>) -> bool {
    exists|i: int| 0 <= i < states.len() && #[trigger] states[i].failed()
}

/// Whether any of the members ended with an error.
pub fn any_member_failed<T, S>(members: &Vec<StreamBatchMember<T, S>>) -> (failure: bool)
    ensures
        failure == any_failed(states(members@)),
{
    let mut i: usize = 0;
    while i < members.len()
        invariant
            i <= members@.len(),
            forall|k: int| 0 <= k < i ==> !(#[trigger] states(members@)[k].failed()),
        decreases members@.len() - i,
    {
        if members[i].failed() {
            assert(states(members@)[i as int].failed());
            return true;
        }
        i += 1;
    }
    false
}

/// What can happen to a member. One that is let go of is given an outcome once, and its channel is
/// let go of with it; one that was let go of before is left alone. An outcome that is claimed for its
/// stream, and a consumer that leaves, leave the channel and what it took as they are. What a channel
/// says when it does not take an item is what the sender is told.
pub proof fn member_is_let_go_of_once<T, S>(
    member: MemberState<T, S>,
    outcome: Result<(), Error<S>>,
    item: Result<T, Error<S>>,
    end: mpsc::Sender<Result<T, Error<S>>>,
    error: TrySendError<Result<T, Error<S>>>,
)
    requires
        member.valid(),
    ensures
        member.is_open() <==> member.end is Some && !member.life.closed && member.life.outcome
            is None,
        member.failed() <==> (member.life.outcome matches Some(Err(_))),
        member.end is None ==> member.finish(outcome) == member,
        member.end is Some ==> {
            let after = member.finish(outcome);
            &&& after.end is None
            &&& after.sent == member.sent
            &&& after.life == member.life.terminal(outcome)
            &&& !after.is_open()
        },
        member.terminal(outcome).end == member.end,
        member.terminal(outcome).sent == member.sent,
        member.terminal(outcome).life == member.life.terminal(outcome),
        member.receiver_gone().end == member.end,
        member.receiver_gone().sent == member.sent,
        member.receiver_gone().life == member.life.receiver_gone(),
        member.accept(item, end).end == Some(end),
        member.accept(item, end).sent.len() == member.sent.len() + 1,
        member.accept(item, end).sent.last() == item,
        member.accept(item, end).sent.drop_last() == member.sent,
        member.accept(item, end).life == member.life,
        member.keep(end).end == Some(end),
        member.keep(end).sent == member.sent,
        member.keep(end).life == member.life,
        match error {
            TrySendError::Full(back) => MemberSendError::refusal(error) == MemberSendError::<
                T,
                S,
            >::Full(back),
            TrySendError::Closed(back) => MemberSendError::refusal(error) == MemberSendError::<
                T,
                S,
            >::Closed(back),
        },
{
    assert(member.accept(item, end).sent.drop_last() =~= member.sent);
}

} // verus!
