//! Waking those who wait for a change.

use event_listener::{Event, EventListener};
use vstd::prelude::*;

verus! {

/// An event that tasks can wait for, `event_listener::Event`. It is opaque.
#[verifier::external_type_specification]
#[verifier::external_body]
#[verifier::reject_recursive_types(T)]
pub struct ExEvent<T>(Event<T>);

/// A registration for the next wake-up of an event, `event_listener::EventListener`. It is opaque,
/// and awaited outside of this crate.
#[verifier::external_type_specification]
#[verifier::external_body]
#[verifier::reject_recursive_types(T)]
pub struct ExEventListener<T>(EventListener<T>);

/// Makes an event with `event_listener::Event::new`. Nothing is claimed of it: an event is
/// opaque, and who is woken by it when is up to the scheduler.
#[verifier::external_body]
fn new_event() -> Event {
    Event::new()
}

/// Wakes up to `count` listeners of an event with `event_listener::Event::notify`. Nothing is
/// claimed of it: its effect is on other tasks.
#[verifier::external_body]
fn notify(event: &Event, count: usize) {
    event.notify(count);
}

/// Registers a listener with `event_listener::Event::listen`. Nothing is claimed of the
/// listener: it is awaited outside of this crate.
#[verifier::external_body]
fn listen(event: &Event) -> EventListener {
    event.listen()
}

/// Whether this is a listener that the event gave out.
pub closed spec fn listens(event: Event, listener: EventListener) -> bool {
    call_ensures(listen, (&event,), listener)
}

/// Whether up to `count` listeners of the event were woken.
pub closed spec fn notified(event: Event, count: usize) -> bool {
    call_ensures(notify, (&event, count), ())
}

/// What a [`Signal`] is, as a mathematical value.
#[verifier::ext_equal]
pub struct SignalState {
    /// The event that those who wait listen to.
    pub event: Event,
    /// How many listeners each wake-up was for, oldest wake-up first.
    pub wakes: Seq<usize>,
}

impl SignalState {
    /// A signal that has woken nobody.
    pub open spec fn fresh(event: Event) -> Self {
        SignalState { event, wakes: Seq::empty() }
    }

    /// The signal after another wake-up.
    pub open spec fn wake(self, count: usize) -> Self {
        SignalState { wakes: self.wakes.push(count), ..self }
    }
}

/// An event that records what it was told to wake.
pub struct Signal {
    event: Event,
    wakes: Ghost<Seq<usize>>,
}

impl View for Signal {
    type V = SignalState;

    closed spec fn view(&self) -> SignalState {
        SignalState { event: self.event, wakes: self.wakes@ }
    }
}

impl Signal {
    /// A signal that has woken nobody.
    pub fn new() -> (signal: Self)
        ensures
            signal@ == SignalState::fresh(signal@.event),
    {
        Signal { event: new_event(), wakes: Ghost(Seq::empty()) }
    }

    /// Wakes up to `count` listeners.
    pub fn wake(&mut self, count: usize)
        ensures
            final(self)@ == old(self)@.wake(count),
            notified(old(self)@.event, count),
    {
        notify(&self.event, count);
        self.wakes = Ghost(self.wakes@.push(count));
    }

    /// A listener for wake-ups that come after this call, registered with this signal's event.
    pub fn listen(&self) -> (listener: EventListener)
        ensures
            listens(self@.event, listener),
    {
        listen(&self.event)
    }
}

/// A signal wakes nobody on its own, every wake-up is for as many as it was asked for, and whoever
/// listens goes on listening to the same event.
pub proof fn wake_ups_are_counted(state: SignalState, event: Event, count: usize)
    ensures
        SignalState::fresh(event).event == event,
        SignalState::fresh(event).wakes.len() == 0,
        state.wake(count).event == state.event,
        state.wake(count).wakes.len() == state.wakes.len() + 1,
        state.wake(count).wakes.last() == count,
        state.wake(count).wakes.drop_last() == state.wakes,
{
    assert(state.wake(count).wakes.drop_last() =~= state.wakes);
}

/// What is said of an event is said of `event_listener`: a listener is one that the event gave out,
/// and listeners were woken if the event was told to wake as many.
proof fn event_gave_and_was_told(event: Event, listener: EventListener, count: usize)
    ensures
        listens(event, listener) ==> call_ensures(listen, (&event,), listener),
        notified(event, count) ==> call_ensures(notify, (&event, count), ()),
{
}

} // verus!
