//! The channels that carry results and items to their consumers.

use futures::channel::{mpsc, oneshot};
use vstd::prelude::*;

verus! {

/// The sending end of a channel for one value, `futures::channel::oneshot::Sender`. It is opaque:
/// what it shares with the receiving end is not known here.
#[verifier::external_type_specification]
#[verifier::external_body]
#[verifier::reject_recursive_types(T)]
pub struct ExOneshotSender<T>(oneshot::Sender<T>);

/// The receiving end of a channel for one value, `futures::channel::oneshot::Receiver`. It is
/// opaque, and awaited outside of this crate.
#[verifier::external_type_specification]
#[verifier::external_body]
#[verifier::reject_recursive_types(T)]
pub struct ExOneshotReceiver<T>(oneshot::Receiver<T>);

/// What is received where the sending end went away, `futures::channel::oneshot::Canceled`.
#[verifier::external_type_specification]
#[verifier::external_body]
pub struct ExCanceled(oneshot::Canceled);

/// The sending end of a bounded channel, `futures::channel::mpsc::Sender`. It is opaque: what it
/// shares with the receiving end is not known here.
#[verifier::external_type_specification]
#[verifier::external_body]
#[verifier::reject_recursive_types(T)]
pub struct ExMpscSender<T>(mpsc::Sender<T>);

/// The receiving end of a bounded channel, `futures::channel::mpsc::Receiver`. It is opaque, and
/// awaited outside of this crate.
#[verifier::external_type_specification]
#[verifier::external_body]
#[verifier::reject_recursive_types(T)]
pub struct ExMpscReceiver<T>(mpsc::Receiver<T>);

/// Why a channel did not take a value. Either way the value comes back.
pub enum TrySendError<T> {
    /// The channel is full.
    Full(T),
    /// The receiver is gone.
    Closed(T),
}

impl<T> TrySendError<T> {
    /// The value that was not taken.
    pub open spec fn value(self) -> T {
        match self {
            TrySendError::Full(value) => value,
            TrySendError::Closed(value) => value,
        }
    }

    /// The value that was not taken.
    pub fn into_inner(self) -> (value: T)
        ensures
            value == self.value(),
    {
        match self {
            TrySendError::Full(value) => value,
            TrySendError::Closed(value) => value,
        }
    }

    /// Whether the receiver was gone.
    pub fn is_disconnected(&self) -> (disconnected: bool)
        ensures
            disconnected == (*self is Closed),
    {
        matches!(self, TrySendError::Closed(_))
    }

    /// Whether the channel was full.
    pub fn is_full(&self) -> (full: bool)
        ensures
            full == (*self is Full),
    {
        matches!(self, TrySendError::Full(_))
    }
}

/// What became of an item that is to be sent, and for which room may have to be awaited.
pub enum Sent<I> {
    /// The channel took the item.
    Done,
    /// The channel is full: the item is to be sent again once there is room.
    Wait(I),
}

/// The largest buffer that a bounded channel can have, exclusive.
pub open spec fn max_buffer() -> int {
    usize::MAX as int / 4
}

/// Makes a channel for one value with `futures::channel::oneshot::channel`. Nothing is claimed
/// of the two ends beyond their coming from one call.
#[verifier::external_body]
fn oneshot_channel<T>() -> (oneshot::Sender<T>, oneshot::Receiver<T>) {
    oneshot::channel()
}

/// Sends the value of a channel with `futures::channel::oneshot::Sender::send`. Whether the
/// receiver is still there is not known here; where it is not, the value comes back unchanged.
#[verifier::external_body]
fn oneshot_send<T>(sender: oneshot::Sender<T>, value: T) -> (sent: Result<(), T>)
    ensures
        sent is Err ==> sent->Err_0 == value,
{
    sender.send(value)
}

/// Makes a bounded channel with `futures::channel::mpsc::channel`, which panics unless the
/// buffer is below a quarter of `usize::MAX`. Nothing is claimed of the two ends beyond their
/// coming from one call with this buffer.
#[verifier::external_body]
fn mpsc_channel<T>(buffer: usize) -> (mpsc::Sender<T>, mpsc::Receiver<T>)
    requires
        buffer < max_buffer(),
{
    mpsc::channel(buffer)
}

/// Sends a value with `futures::channel::mpsc::Sender::try_send`, and gives the sender back.
/// Whether there is room depends on the receiver and is not known here; where the value is not
/// taken, it comes back unchanged.
#[verifier::external_body]
fn mpsc_try_send<T>(sender: mpsc::Sender<T>, value: T) -> (sent: (
    mpsc::Sender<T>,
    Result<(), TrySendError<T>>,
))
    ensures
        sent.1 is Err ==> sent.1->Err_0.value() == value,
{
    let mut sender = sender;
    let answer = match sender.try_send(value) {
        Ok(()) => Ok(()),
        Err(error) => if error.is_full() {
            Err(TrySendError::Full(error.into_inner()))
        } else {
            Err(TrySendError::Closed(error.into_inner()))
        },
    };
    (sender, answer)
}

/// Asks with `futures::channel::mpsc::Sender::is_closed` whether the receiver is gone. Nothing
/// is claimed of the answer: it depends on the receiver.
#[verifier::external_body]
fn mpsc_is_closed<T>(sender: &mpsc::Sender<T>) -> bool {
    sender.is_closed()
}

/// Whether these are the two ends of one channel for one value.
pub closed spec fn paired<T>(sender: oneshot::Sender<T>, receiver: oneshot::Receiver<T>) -> bool {
    call_ensures(oneshot_channel::<T>, (), (sender, receiver))
}

/// Whether this value was given to the sending end of a channel for one value.
pub closed spec fn handed<T>(sender: oneshot::Sender<T>, value: T) -> bool {
    exists|answer: Result<(), T>| call_ensures(oneshot_send::<T>, (sender, value), answer)
}

/// Whether these are the two ends of one bounded channel with this buffer.
pub closed spec fn made_with<T>(
    buffer: usize,
    sender: mpsc::Sender<T>,
    receiver: mpsc::Receiver<T>,
) -> bool {
    call_ensures(mpsc_channel::<T>, (buffer,), (sender, receiver))
}

/// Whether a bounded channel gave this answer when the value was offered to its sending end,
/// which is `after` then.
pub closed spec fn tried<T>(
    sender: mpsc::Sender<T>,
    value: T,
    after: mpsc::Sender<T>,
    answer: Result<(), TrySendError<T>>,
) -> bool {
    call_ensures(mpsc_try_send::<T>, (sender, value), (after, answer))
}

/// Whether a bounded channel took the value when it was offered.
pub open spec fn accepted<T>(sender: mpsc::Sender<T>, value: T, after: mpsc::Sender<T>) -> bool {
    exists|answer: Result<(), TrySendError<T>>| #[trigger]
        tried(sender, value, after, answer) && answer is Ok
}

/// Whether a bounded channel was full when the value was offered, and gave it back.
pub open spec fn full<T>(sender: mpsc::Sender<T>, value: T, after: mpsc::Sender<T>) -> bool {
    tried(sender, value, after, Err(TrySendError::Full(value)))
}

/// Whether a bounded channel had lost its receiver when the value was offered, and gave it back.
pub open spec fn lost<T>(sender: mpsc::Sender<T>, value: T, after: mpsc::Sender<T>) -> bool {
    tried(sender, value, after, Err(TrySendError::Closed(value)))
}

/// Whether a bounded channel took the values one after the other. `ends` is the sending end
/// before each of them and after the last.
pub open spec fn took<T>(ends: Seq<mpsc::Sender<T>>, values: Seq<T>) -> bool {
    &&& ends.len() == values.len() + 1
    &&& forall|i: int|
        0 <= i < values.len() ==> accepted(ends[i], #[trigger] values[i], ends[i + 1])
}

/// A channel that took one more value took them all.
pub(crate) proof fn lemma_took_more<T>(
    ends: Seq<mpsc::Sender<T>>,
    values: Seq<T>,
    value: T,
    after: mpsc::Sender<T>,
)
    requires
        took(ends, values),
        accepted(ends.last(), value, after),
    ensures
        took(ends.push(after), values.push(value)),
{
    let more_ends = ends.push(after);
    let more = values.push(value);
    assert forall|i: int| 0 <= i < more.len() implies accepted(
        more_ends[i],
        #[trigger] more[i],
        more_ends[i + 1],
    ) by {
        if i < values.len() {
            assert(more[i] == values[i]);
        }
    }
}

/// Whether this is an answer that the sending end of a bounded channel gives when it is asked
/// whether its receiver is gone. Both answers can be: the receiver may leave at any time.
pub closed spec fn answers_closed<T>(sender: mpsc::Sender<T>, closed: bool) -> bool {
    call_ensures(mpsc_is_closed::<T>, (&sender,), closed)
}

/// The two ends of a channel for one value.
pub(crate) fn open_oneshot<T>() -> (ends: (oneshot::Sender<T>, oneshot::Receiver<T>))
    ensures
        paired(ends.0, ends.1),
{
    oneshot_channel()
}

/// Gives the value to a channel for one value. Where the receiver is gone, so is the value.
pub(crate) fn hand_over<T>(sender: oneshot::Sender<T>, value: T)
    ensures
        handed(sender, value),
{
    let _ = oneshot_send(sender, value);
}

/// The two ends of a bounded channel.
pub(crate) fn open_channel<T>(buffer: usize) -> (ends: (mpsc::Sender<T>, mpsc::Receiver<T>))
    requires
        buffer < max_buffer(),
    ensures
        made_with(buffer, ends.0, ends.1),
{
    mpsc_channel(buffer)
}

/// Offers a value to a bounded channel. A value that is not taken comes back.
pub(crate) fn offer<T>(sender: mpsc::Sender<T>, value: T) -> (offered: (
    mpsc::Sender<T>,
    Result<(), TrySendError<T>>,
))
    ensures
        tried(sender, value, offered.0, offered.1),
        offered.1 is Err ==> offered.1->Err_0.value() == value,
{
    mpsc_try_send(sender, value)
}

/// Whether the receiver of a bounded channel is gone, as the sending end says.
pub(crate) fn ask_closed<T>(sender: &mpsc::Sender<T>) -> (closed: bool)
    ensures
        answers_closed(*sender, closed),
{
    mpsc_is_closed(sender)
}

/// What is said of a channel for one value is said of `futures::channel::oneshot`: two ends are
/// paired if one call made them, and a value was handed over if it was sent from that end.
proof fn one_value_goes_through_its_channel<T>(
    sender: oneshot::Sender<T>,
    receiver: oneshot::Receiver<T>,
    value: T,
)
    ensures
        paired(sender, receiver) ==> call_ensures(oneshot_channel::<T>, (), (sender, receiver)),
        handed(sender, value) ==> exists|answer: Result<(), T>| #[trigger]
            call_ensures(oneshot_send::<T>, (sender, value), answer),
{
}

/// What is said of a bounded channel is said of `futures::channel::mpsc`: its ends come of one call
/// with the buffer that is spoken of, a value was taken only if that channel took that value when it
/// was sent from that end, and where it was not, the channel was full or had lost its receiver as it
/// said itself.
proof fn values_go_through_their_channel<T>(
    buffer: usize,
    sender: mpsc::Sender<T>,
    receiver: mpsc::Receiver<T>,
    value: T,
    after: mpsc::Sender<T>,
    answer: Result<(), TrySendError<T>>,
    closed: bool,
)
    ensures
        made_with(buffer, sender, receiver) ==> call_ensures(
            mpsc_channel::<T>,
            (buffer,),
            (sender, receiver),
        ),
        tried(sender, value, after, answer) ==> call_ensures(
            mpsc_try_send::<T>,
            (sender, value),
            (after, answer),
        ),
        answers_closed(sender, closed) ==> call_ensures(mpsc_is_closed::<T>, (&sender,), closed),
{
}

/// A channel that took a value answered so when it was offered, one that was full or had lost its
/// receiver answered that and gave the value back, and one that took several took each of them in
/// turn from where the one before had left it.
pub proof fn channel_answered_so<T>(
    sender: mpsc::Sender<T>,
    value: T,
    after: mpsc::Sender<T>,
    ends: Seq<mpsc::Sender<T>>,
    values: Seq<T>,
    i: int,
)
    ensures
        accepted(sender, value, after) ==> exists|answer: Result<(), TrySendError<T>>| #[trigger]
            tried(sender, value, after, answer) && answer is Ok,
        full(sender, value, after) ==> exists|answer: Result<(), TrySendError<T>>| #[trigger]
            tried(sender, value, after, answer) && answer == Err::<(), TrySendError<T>>(
                TrySendError::Full(value),
            ),
        lost(sender, value, after) ==> exists|answer: Result<(), TrySendError<T>>| #[trigger]
            tried(sender, value, after, answer) && answer == Err::<(), TrySendError<T>>(
                TrySendError::Closed(value),
            ),
        took(ends, values) ==> ends.len() == values.len() + 1,
        took(ends, values) && 0 <= i < values.len() ==> accepted(ends[i], values[i], ends[i + 1]),
{
}

} // verus!
