//! Futures of results and streams of items, and the lifecycle that a stream goes through.

use futures::channel::{mpsc, oneshot};
use vstd::prelude::*;

use crate::channel::{
    accepted, answers_closed, ask_closed, full, hand_over, handed, lost, made_with, max_buffer,
    offer, open_channel, open_oneshot, paired, tried, Sent, TrySendError,
};
use crate::error::Error;
use crate::lifecycle::{LifecycleState, StreamLifecycle};

verus! {

/// What is in effect after `next` was offered where `first` may already stand: the first
/// offer wins.
pub open spec fn first_of<A>(first: Option<A>, next: A) -> Option<A> {
    match first {
        Some(value) => Some(value),
        None => Some(next),
    }
}

/// What a [`JobFutureSetter`] is, as a mathematical value.
#[verifier::reject_recursive_types(T)]
#[verifier::reject_recursive_types(S)]
pub struct SetterState<T, S> {
    /// The sending end of the channel that the setter was made with.
    pub channel: oneshot::Sender<Result<T, Error<S>>>,
    /// The result that was handed over, if one was.
    pub result: Option<Result<T, Error<S>>>,
}

impl<T, S> SetterState<T, S> {
    /// The setter after it was given a result to hand over.
    pub open spec fn set(self, result: Result<T, Error<S>>) -> Self {
        SetterState { result: first_of(self.result, result), ..self }
    }
}

/// Hands the result of a job to its [`JobFuture`], once.
#[verifier::reject_recursive_types(T)]
#[verifier::reject_recursive_types(S)]
pub struct JobFutureSetter<T, S> {
    sender: Option<oneshot::Sender<Result<T, Error<S>>>>,
    spent: Ghost<(oneshot::Sender<Result<T, Error<S>>>, Result<T, Error<S>>)>,
}

impl<T, S> View for JobFutureSetter<T, S> {
    type V = SetterState<T, S>;

    closed spec fn view(&self) -> SetterState<T, S> {
        match self.sender {
            Some(sender) => SetterState { channel: sender, result: None },
            None => SetterState { channel: self.spent@.0, result: Some(self.spent@.1) },
        }
    }
}

impl<T, S> JobFutureSetter<T, S> {
    fn new(sender: oneshot::Sender<Result<T, Error<S>>>) -> (setter: Self)
        ensures
            setter@ == (SetterState::<T, S> { channel: sender, result: None }),
    {
        let spent: Ghost<(oneshot::Sender<Result<T, Error<S>>>, Result<T, Error<S>>)> = Ghost(
            (sender, Err(Error::FutureClosed)),
        );
        JobFutureSetter { sender: Some(sender), spent }
    }

    /// Hands over the result. Only the first call does; a later one changes nothing.
    pub fn set_result(&mut self, result: Result<T, Error<S>>)
        ensures
            final(self)@ == old(self)@.set(result),
            old(self)@.result is None ==> handed(old(self)@.channel, result),
    {
        if let Some(sender) = self.sender.take() {
            self.spent = Ghost((sender, result));
            hand_over(sender, result);
        }
    }
}

/// How the result of a job is got from a [`JobFuture`].
#[verifier::reject_recursive_types(T)]
#[verifier::reject_recursive_types(S)]
pub enum Awaited<T, S> {
    /// The result is known.
    Ready(Result<T, Error<S>>),
    /// The result will come through the channel.
    Wait(oneshot::Receiver<Result<T, Error<S>>>),
}

/// What a [`JobFuture`] is, as a mathematical value.
#[verifier::reject_recursive_types(T)]
#[verifier::reject_recursive_types(S)]
pub struct FutureState<T, S> {
    /// The result that is stored, if one is.
    pub stored: Option<Result<T, Error<S>>>,
    /// The channel that the result will come through, unless somebody waits on it already.
    pub channel: Option<oneshot::Receiver<Result<T, Error<S>>>>,
    /// Whether the future was closed.
    pub closed: bool,
}

impl<T, S> FutureState<T, S> {
    /// Whether nobody has asked for the result yet.
    pub open spec fn is_fresh(self) -> bool {
        self.stored is None && self.channel is Some && !self.closed
    }

    /// Whether what the future waits for comes from this setter, which has handed over nothing.
    pub open spec fn waits_on(self, setter: SetterState<T, S>) -> bool {
        &&& self.channel is Some
        &&& paired(setter.channel, self.channel->0)
        &&& setter.result is None
    }

    /// What one who asks for the result gets: a stored result, or else the channel. A closed
    /// future and one whose channel was taken have neither.
    pub open spec fn given(self) -> Awaited<T, S> {
        match self.stored {
            Some(result) => Awaited::Ready(result),
            None => if self.closed || self.channel is None {
                Awaited::Ready(Err(Error::FutureClosed))
            } else {
                Awaited::Wait(self.channel->0)
            },
        }
    }

    /// The future after somebody asked for the result.
    pub open spec fn taken(self) -> Self {
        FutureState {
            stored: None,
            channel: if self.stored is None && !self.closed {
                None
            } else {
                self.channel
            },
            closed: self.closed,
        }
    }

    /// The future after it was closed.
    pub open spec fn close(self) -> Self {
        FutureState { stored: None, channel: None, closed: true }
    }
}

/// The consumer's side of a job's result.
#[verifier::reject_recursive_types(T)]
#[verifier::reject_recursive_types(S)]
pub struct JobFuture<T, S> {
    result: Option<Result<T, Error<S>>>,
    receiver: Option<oneshot::Receiver<Result<T, Error<S>>>>,
    closed: bool,
}

impl<T, S> View for JobFuture<T, S> {
    type V = FutureState<T, S>;

    closed spec fn view(&self) -> FutureState<T, S> {
        FutureState { stored: self.result, channel: self.receiver, closed: self.closed }
    }
}

impl<T, S> JobFuture<T, S> {
    /// A future that waits for its result, and the setter that hands the result over.
    pub fn new() -> (pair: (Self, JobFutureSetter<T, S>))
        ensures
            pair.0@.is_fresh(),
            pair.0@.waits_on(pair.1@),
    {
        let (sender, receiver) = open_oneshot();
        (
            JobFuture { result: None, receiver: Some(receiver), closed: false },
            JobFutureSetter::new(sender),
        )
    }

    /// Takes what gives the result: a stored result, or else the channel.
    pub fn result(&mut self) -> (awaited: Awaited<T, S>)
        ensures
            awaited == old(self)@.given(),
            final(self)@ == old(self)@.taken(),
    {
        if let Some(result) = self.result.take() {
            return Awaited::Ready(result);
        }
        if self.closed {
            return Awaited::Ready(Err(Error::future_closed()));
        }
        match self.receiver.take() {
            Some(receiver) => Awaited::Wait(receiver),
            None => Awaited::Ready(Err(Error::future_closed())),
        }
    }

    /// The result that the channel gave. A setter that went away without a result leaves the
    /// future closed.
    pub fn received(received: Result<Result<T, Error<S>>, oneshot::Canceled>) -> (result: Result<
        T,
        Error<S>,
    >)
        ensures
            result == match received {
                Ok(result) => result,
                Err(_) => Err(Error::FutureClosed),
            },
    {
        match received {
            Ok(result) => result,
            Err(_) => Err(Error::future_closed()),
        }
    }

    /// Closes the future: whatever it held is gone, and nobody gets a result from it.
    pub fn close(&mut self)
        ensures
            final(self)@ == old(self)@.close(),
    {
        self.closed = true;
        self.receiver = None;
        self.result = None;
    }
}

/// Several futures that are awaited together.
#[verifier::reject_recursive_types(T)]
#[verifier::reject_recursive_types(S)]
pub struct JobFutureSet<T, S> {
    futures: Vec<JobFuture<T, S>>,
}

impl<T, S> View for JobFutureSet<T, S> {
    type V = Seq<JobFuture<T, S>>;

    /// The futures of the set, in order.
    closed spec fn view(&self) -> Seq<JobFuture<T, S>> {
        self.futures@
    }
}

impl<T, S> JobFutureSet<T, S> {
    /// A set of the given futures.
    pub fn new(futures: Vec<JobFuture<T, S>>) -> (set: Self)
        ensures
            set@ == futures@,
    {
        JobFutureSet { futures }
    }

    /// The futures of the set.
    pub fn into_futures(self) -> (futures: Vec<JobFuture<T, S>>)
        ensures
            futures@ == self@,
    {
        self.futures
    }

    /// The futures of the set.
    pub fn as_futures(&self) -> (futures: &Vec<JobFuture<T, S>>)
        ensures
            futures@ == self@,
    {
        &self.futures
    }

    /// The futures of the set, to be changed in place.
    pub fn as_futures_mut(&mut self) -> (futures: &mut Vec<JobFuture<T, S>>)
        ensures
            futures@ == old(self)@,
            final(self)@ == final(futures)@,
    {
        &mut self.futures
    }
}

impl<T, S> vstd::std_specs::convert::FromSpecImpl<Vec<JobFuture<T, S>>> for JobFutureSet<T, S> {
    open spec fn obeys_from_spec() -> bool {
        true
    }

    closed spec fn from_spec(futures: Vec<JobFuture<T, S>>) -> Self {
        JobFutureSet { futures }
    }
}

impl<T, S> From<Vec<JobFuture<T, S>>> for JobFutureSet<T, S> {
    fn from(futures: Vec<JobFuture<T, S>>) -> (set: Self)
        ensures
            set@ == futures@,
    {
        JobFutureSet { futures }
    }
}

/// Whether a stream can have this capacity: room for one item at least, and no more than a
/// channel can hold.
pub open spec fn valid_capacity(capacity: int) -> bool {
    1 <= capacity && capacity - 1 < max_buffer()
}

/// Whether the items that go in at `end` come out of `stream`, through a channel of the given
/// capacity: one sender adds room for one item to the channel's buffer.
pub open spec fn is_channel<T, S>(
    stream: JobStream<T, S>,
    end: Option<mpsc::Sender<Result<T, Error<S>>>>,
    capacity: usize,
) -> bool {
    end is Some && made_with((capacity - 1) as usize, end->0, stream.channel())
}

/// The consumer's side of the items of a streaming job.
#[verifier::reject_recursive_types(T)]
#[verifier::reject_recursive_types(S)]
pub struct JobStream<T, S> {
    receiver: mpsc::Receiver<Result<T, Error<S>>>,
}

impl<T, S> JobStream<T, S> {
    /// A stream of the given capacity whose outcome nobody is told, and the setter that sends
    /// its items.
    pub fn new(capacity: usize) -> (made: Result<(Self, JobStreamSetter<T, S>), Error<S>>)
        ensures
            made is Ok <==> valid_capacity(capacity as int),
            made is Ok ==> {
                &&& is_channel(made->Ok_0.0, made->Ok_0.1.end(), capacity)
                &&& made->Ok_0.1.sent() == Seq::<Result<T, Error<S>>>::empty()
                &&& made->Ok_0.1.life() == LifecycleState::<S>::fresh(
                    None,
                    None,
                    made->Ok_0.1.life().signal.event,
                )
            },
            made is Err ==> made->Err_0 == Error::<S>::InvalidStreamCapacity(capacity),
    {
        Self::with_lifecycle(capacity, StreamLifecycle::new(None, None))
    }

    /// A stream of the given capacity that lives through `lifecycle`.
    pub fn with_lifecycle(capacity: usize, lifecycle: StreamLifecycle<S>) -> (made: Result<
        (Self, JobStreamSetter<T, S>),
        Error<S>,
    >)
        ensures
            made is Ok <==> valid_capacity(capacity as int),
            made is Ok ==> {
                &&& is_channel(made->Ok_0.0, made->Ok_0.1.end(), capacity)
                &&& made->Ok_0.1.sent() == Seq::<Result<T, Error<S>>>::empty()
                &&& made->Ok_0.1.life() == lifecycle@
            },
            made is Err ==> made->Err_0 == Error::<S>::InvalidStreamCapacity(capacity),
    {
        match capacity.checked_sub(1) {
            Some(buffer) if buffer < usize::MAX / 4 => Ok(Self::with_buffer(buffer, lifecycle)),
            _ => Err(Error::invalid_stream_capacity(capacity)),
        }
    }

    /// A stream over a channel with the given buffer. Its one sender adds room for one item.
    fn with_buffer(buffer: usize, lifecycle: StreamLifecycle<S>) -> (made: (
        Self,
        JobStreamSetter<T, S>,
    ))
        requires
            buffer < max_buffer(),
        ensures
            made.1.end() is Some,
            made_with(buffer, made.1.end()->0, made.0.channel()),
            made.1.sent() == Seq::<Result<T, Error<S>>>::empty(),
            made.1.life() == lifecycle@,
    {
        let (sender, receiver) = open_channel(buffer);
        (JobStream { receiver }, JobStreamSetter::new(sender, lifecycle))
    }

    /// The channel that the items come through.
    pub closed spec fn channel(&self) -> mpsc::Receiver<Result<T, Error<S>>> {
        self.receiver
    }

    /// The channel that the items come through.
    pub fn into_receiver(self) -> (receiver: mpsc::Receiver<Result<T, Error<S>>>)
        ensures
            receiver == self.channel(),
    {
        self.receiver
    }
}

/// Sends the items of a streaming job to its [`JobStream`].
#[verifier::reject_recursive_types(T)]
#[verifier::reject_recursive_types(S)]
pub struct JobStreamSetter<T, S> {
    sender: Option<mpsc::Sender<Result<T, Error<S>>>>,
    sent: Ghost<Seq<Result<T, Error<S>>>>,
    lifecycle: StreamLifecycle<S>,
}

impl<T, S> JobStreamSetter<T, S> {
    /// The items that the channel has taken, oldest first.
    pub closed spec fn sent(&self) -> Seq<Result<T, Error<S>>> {
        self.sent@
    }

    /// Where the stream is in its life.
    pub closed spec fn life(&self) -> LifecycleState<S> {
        self.lifecycle@
    }

    /// The channel's sending end.
    pub closed spec fn end(&self) -> Option<mpsc::Sender<Result<T, Error<S>>>> {
        self.sender
    }

    fn new(sender: mpsc::Sender<Result<T, Error<S>>>, lifecycle: StreamLifecycle<S>) -> (setter:
        Self)
        ensures
            setter.end() == Some(sender),
            setter.sent() == Seq::<Result<T, Error<S>>>::empty(),
            setter.life() == lifecycle@,
    {
        JobStreamSetter { sender: Some(sender), sent: Ghost(Seq::empty()), lifecycle }
    }

    /// The life of the stream.
    pub fn lifecycle(&self) -> (lifecycle: &StreamLifecycle<S>)
        ensures
            lifecycle@ == self.life(),
    {
        &self.lifecycle
    }

    /// The life of the stream, to be moved on.
    pub fn lifecycle_mut(&mut self) -> (lifecycle: &mut StreamLifecycle<S>)
        ensures
            lifecycle@ == old(self).life(),
            final(self).life() == final(lifecycle)@,
            final(self).sent() == old(self).sent(),
            final(self).end() == old(self).end(),
    {
        &mut self.lifecycle
    }

    /// The sending end of the channel, on which room for an item is awaited.
    pub fn channel(&mut self) -> (sender: Option<&mut mpsc::Sender<Result<T, Error<S>>>>)
        ensures
            match sender {
                Some(sender) => {
                    &&& old(self).end() == Some(*sender)
                    &&& final(self).end() == Some(*final(sender))
                },
                None => old(self).end() is None && final(self).end() is None,
            },
            final(self).life() == old(self).life(),
            final(self).sent() == old(self).sent(),
    {
        self.sender.as_mut()
    }

    /// Sends one item. A full channel gives it back, to be sent again once there is room. Only a
    /// channel that lost its receiver fails.
    pub fn send(&mut self, item: Result<T, Error<S>>) -> (sent: Result<
        Sent<Result<T, Error<S>>>,
        Error<S>,
    >)
        ensures
            final(self).life() == old(self).life(),
            final(self).end() is Some <==> old(self).end() is Some,
            old(self).end() is None ==> sent is Err,
            match sent {
                Ok(Sent::Done) => {
                    &&& accepted(old(self).end()->0, item, final(self).end()->0)
                    &&& final(self).sent() == old(self).sent().push(item)
                },
                Ok(Sent::Wait(back)) => {
                    &&& back == item
                    &&& full(old(self).end()->0, item, final(self).end()->0)
                    &&& final(self).sent() == old(self).sent()
                },
                Err(error) => {
                    &&& error == Error::<S>::FutureClosed
                    &&& old(self).end() is Some ==> lost(
                        old(self).end()->0,
                        item,
                        final(self).end()->0,
                    )
                    &&& final(self).sent() == old(self).sent()
                },
            },
    {
        match self.try_send(item) {
            Ok(()) => Ok(Sent::Done),
            Err(TrySendError::Full(item)) => Ok(Sent::Wait(item)),
            Err(TrySendError::Closed(_)) => Err(Error::future_closed()),
        }
    }

    /// Sends one item if there is room for it now. An item that is not taken comes back.
    pub fn try_send(&mut self, item: Result<T, Error<S>>) -> (sent: Result<
        (),
        TrySendError<Result<T, Error<S>>>,
    >)
        ensures
            final(self).life() == old(self).life(),
            final(self).end() is Some <==> old(self).end() is Some,
            old(self).end() is Some ==> tried(
                old(self).end()->0,
                item,
                final(self).end()->0,
                sent,
            ),
            old(self).end() is None ==> sent == Err::<(), _>(TrySendError::Closed(item)),
            sent is Ok ==> final(self).sent() == old(self).sent().push(item),
            sent is Err ==> {
                &&& sent->Err_0.value() == item
                &&& final(self).sent() == old(self).sent()
            },
    {
        match self.sender.take() {
            Some(sender) => {
                let (sender, sent) = offer(sender, item);
                self.sender = Some(sender);
                if sent.is_ok() {
                    self.sent = Ghost(self.sent@.push(item));
                }
                sent
            },
            None => Err(TrySendError::Closed(item)),
        }
    }

    /// Whether the receiver of the channel is gone, as the sending end of the channel says.
    pub fn is_closed(&self) -> (closed: bool)
        ensures
            match self.end() {
                Some(end) => answers_closed(end, closed),
                None => closed,
            },
    {
        match &self.sender {
            Some(sender) => ask_closed(sender),
            None => true,
        }
    }

    /// The sending end of the channel, and the life of the stream.
    pub(crate) fn into_parts(self) -> (parts: (
        Option<mpsc::Sender<Result<T, Error<S>>>>,
        StreamLifecycle<S>,
    ))
        ensures
            parts.0 == self.end(),
            parts.1@ == self.life(),
    {
        (self.sender, self.lifecycle)
    }
}

/// Whether `handle` is the consumer's side of a stream whose items go in at `end` and that is at
/// the beginning of the life `life`: of the given capacity, with the outcome going to the handle,
/// and ending with `drop_error` when the consumer leaves.
pub open spec fn connected<T, S>(
    handle: JobStreamHandle<T, S>,
    end: Option<mpsc::Sender<Result<T, Error<S>>>>,
    life: LifecycleState<S>,
    capacity: usize,
    drop_error: Option<Error<S>>,
) -> bool {
    &&& is_channel(handle.items(), end, capacity)
    &&& life == LifecycleState::fresh(life.report, drop_error, life.signal.event)
    &&& life.report is Some
    &&& handle.outcome().is_fresh()
    &&& handle.outcome().waits_on(life.report->0)
}

/// The consumer's side of a streaming job: its items, and the future of its outcome.
#[verifier::reject_recursive_types(T)]
#[verifier::reject_recursive_types(S)]
pub struct JobStreamHandle<T, S> {
    items: JobStream<T, S>,
    result: JobFuture<(), S>,
}

impl<T, S> JobStreamHandle<T, S> {
    /// The items of the stream.
    pub closed spec fn items(&self) -> JobStream<T, S> {
        self.items
    }

    /// The future of the outcome.
    pub closed spec fn outcome(&self) -> FutureState<(), S> {
        self.result@
    }

    /// A handle for a stream of the given capacity, and the setter that sends its items and
    /// reports its outcome. `receiver_drop_error` is the outcome when the consumer leaves
    /// before there is one.
    pub fn new(capacity: usize, receiver_drop_error: Option<Error<S>>) -> (made: Result<
        (Self, JobStreamSetter<T, S>),
        Error<S>,
    >)
        ensures
            made is Ok <==> valid_capacity(capacity as int),
            made is Ok ==> {
                &&& connected(
                    made->Ok_0.0,
                    made->Ok_0.1.end(),
                    made->Ok_0.1.life(),
                    capacity,
                    receiver_drop_error,
                )
                &&& made->Ok_0.1.sent() == Seq::<Result<T, Error<S>>>::empty()
            },
            made is Err ==> made->Err_0 == Error::<S>::InvalidStreamCapacity(capacity),
    {
        let (result, setter) = JobFuture::new();
        match JobStream::with_lifecycle(
            capacity,
            StreamLifecycle::new(Some(setter), receiver_drop_error),
        ) {
            Ok((items, sender)) => Ok((JobStreamHandle { items, result }, sender)),
            Err(error) => Err(error),
        }
    }

    /// Takes what gives the outcome of the stream, as [`JobFuture::result`] does.
    pub fn result(&mut self) -> (awaited: Awaited<(), S>)
        ensures
            final(self).items() == old(self).items(),
            awaited == old(self).outcome().given(),
            final(self).outcome() == old(self).outcome().taken(),
    {
        self.result.result()
    }

    /// Splits the handle into the items and the future of the outcome.
    pub fn split(self) -> (parts: (JobStream<T, S>, JobFuture<(), S>))
        ensures
            parts.0 == self.items(),
            parts.1@ == self.outcome(),
    {
        (self.items, self.result)
    }
}

/// A future gives its result to one who asks. Whoever asks after that is told that the future
/// is closed, and so is everybody who asks once it was closed.
pub proof fn result_is_given_once<T, S>(state: FutureState<T, S>)
    ensures
        state.is_fresh() ==> state.given() is Wait,
        state.is_fresh() ==> state.taken().given() == Awaited::<T, S>::Ready(
            Err(Error::FutureClosed),
        ),
        state.close().given() == Awaited::<T, S>::Ready(Err(Error::FutureClosed)),
        state.close().taken() == state.close(),
        state.taken().taken().given() == Awaited::<T, S>::Ready(Err(Error::FutureClosed)),
{
}

/// Whether a setter goes from `before` to `after` when it is given a result.
pub open spec fn sets<T, S>(
    before: SetterState<T, S>,
    result: Result<T, Error<S>>,
    after: SetterState<T, S>,
) -> bool {
    &&& after == before.set(result)
    &&& before.result is None ==> handed(before.channel, result)
}

/// A future gives the result that was set first. The one who asks first waits on the channel to
/// which the setter handed that result, and nothing else; whoever asks after that is told that
/// the future is closed. What comes out of the channel is what they are given, and a future whose
/// setter went away without a result is closed.
pub proof fn future_gives_what_was_set_first<T, S>(
    future: FutureState<T, S>,
    setter: SetterState<T, S>,
    first: Result<T, Error<S>>,
    second: Result<T, Error<S>>,
    after_first: SetterState<T, S>,
    after_second: SetterState<T, S>,
)
    requires
        future.is_fresh(),
        future.waits_on(setter),
        sets(setter, first, after_first),
        sets(after_first, second, after_second),
    ensures
        after_second == after_first,
        after_second.result == Some(first),
        handed(setter.channel, first),
        future.given() == Awaited::<T, S>::Wait(future.channel->0),
        paired(setter.channel, future.channel->0),
        future.taken().given() == Awaited::<T, S>::Ready(Err(Error::FutureClosed)),
        future.taken().taken().given() == Awaited::<T, S>::Ready(Err(Error::FutureClosed)),
        future.close().given() == Awaited::<T, S>::Ready(Err(Error::FutureClosed)),
{
}

/// The handle of a stream is told the first outcome that is claimed: its future waits on the
/// channel to which that outcome, and no later one, is handed.
pub proof fn handle_is_told_the_first_outcome<T, S>(
    handle: JobStreamHandle<T, S>,
    end: Option<mpsc::Sender<Result<T, Error<S>>>>,
    life: LifecycleState<S>,
    capacity: usize,
    drop_error: Option<Error<S>>,
    first: Result<(), Error<S>>,
    second: Result<(), Error<S>>,
)
    requires
        connected(handle, end, life, capacity, drop_error),
        life.carried_out(life.terminal(first)),
    ensures
        handle.outcome().given() is Wait,
        paired(life.report->0.channel, handle.outcome().given()->Wait_0),
        handed(life.report->0.channel, first),
        life.terminal(first).terminal(second) == life.terminal(first),
        life.terminal(first).receiver_gone() == life.terminal(first),
        !life.terminal(first).is_open(),
        life.terminal(first).failed() <==> first is Err,
{
    crate::lifecycle::first_outcome_wins(life, first, second);
}

/// What one who asks a future gets: the result that is stored, and that once; or else the channel
/// that it will come through, and that once; or else that the future is closed. Closing a future
/// takes both away.
pub proof fn future_gives_what_it_has<T, S>(
    future: FutureState<T, S>,
    setter: SetterState<T, S>,
    result: Result<T, Error<S>>,
)
    ensures
        match (future.stored, future.channel) {
            (Some(stored), _) => {
                &&& future.given() == Awaited::<T, S>::Ready(stored)
                &&& future.taken().stored is None
                &&& future.taken().channel == future.channel
            },
            (None, Some(channel)) if !future.closed => {
                &&& future.given() == Awaited::<T, S>::Wait(channel)
                &&& future.taken().stored is None
                &&& future.taken().channel is None
            },
            _ => {
                &&& future.given() == Awaited::<T, S>::Ready(Err(Error::FutureClosed))
                &&& future.taken() == future
            },
        },
        future.taken().closed == future.closed,
        future.close().closed,
        future.close().stored is None,
        future.close().channel is None,
        future.is_fresh() <==> future.stored is None && future.channel is Some && !future.closed,
        future.waits_on(setter) ==> {
            &&& future.channel is Some
            &&& paired(setter.channel, future.channel->0)
            &&& setter.result is None
        },
        setter.set(result).channel == setter.channel,
        setter.result is Some ==> setter.set(result).result == setter.result,
        setter.result is None ==> setter.set(result).result == Some(result),
{
}

/// A stream can have room for any number of items from one on up to a quarter of the largest number,
/// and its channel has room for as many: the buffer is one less, which its one sender makes up for.
/// The handle's items come out of that channel, and its outcome out of the one that the outcome is
/// handed to; a stream that was just made is open and has no outcome.
pub proof fn stream_has_the_room_it_asked_for<T, S>(
    capacity: usize,
    handle: JobStreamHandle<T, S>,
    end: Option<mpsc::Sender<Result<T, Error<S>>>>,
    life: LifecycleState<S>,
    drop_error: Option<Error<S>>,
)
    requires
        connected(handle, end, life, capacity, drop_error),
        valid_capacity(capacity as int),
    ensures
        1 <= capacity <= usize::MAX / 4,
        end is Some,
        exists|buffer: usize|
            buffer + 1 == capacity && #[trigger] made_with(buffer, end->0, handle.items().channel()),
        life.outcome is None,
        !life.closed,
        life.drop_error == drop_error,
        life.signal.wakes.len() == 0,
        life.report is Some,
        life.report->0.result is None,
        handle.outcome().stored is None,
        !handle.outcome().closed,
        handle.outcome().channel is Some,
        paired(life.report->0.channel, handle.outcome().channel->0),
{
    let buffer = (capacity - 1) as usize;
    assert(made_with(buffer, end->0, handle.items().channel()));
}

/// Every number of items from one on up to a quarter of the largest number is room that a stream can
/// have, and no other is.
pub proof fn any_room_within_reason_can_be_had(capacity: usize)
    ensures
        valid_capacity(capacity as int) <==> 1 <= capacity <= usize::MAX / 4,
{
}

} // verus!
