//! The life of a stream: it is open until an outcome is claimed for it or its consumer leaves.

use event_listener::{Event, EventListener};
use vstd::prelude::*;

use crate::channel::handed;
use crate::error::Error;
use crate::future::{first_of, JobFutureSetter, SetterState};
use crate::signal::{listens, notified, Signal, SignalState};

verus! {

/// The outcome of a stream, and the setter that reports it to the consumer.
#[verifier::reject_recursive_types(S)]
pub struct CompletionState<S> {
    setter: Option<JobFutureSetter<(), S>>,
    outcome: Option<Result<(), Error<S>>>,
}

impl<S> CompletionState<S> {
    /// The outcome, once there is one.
    pub closed spec fn outcome(&self) -> Option<Result<(), Error<S>>> {
        self.outcome
    }

    /// The setter that reports the outcome, if there is one.
    pub closed spec fn report(&self) -> Option<SetterState<(), S>> {
        match self.setter {
            Some(setter) => Some(setter@),
            None => None,
        }
    }

    /// A stream without an outcome.
    pub fn new(setter: Option<JobFutureSetter<(), S>>) -> (state: Self)
        ensures
            state.outcome() is None,
            state.report() == match setter {
                Some(setter) => Some(setter@),
                None => None,
            },
    {
        CompletionState { setter, outcome: None }
    }

    /// Claims the outcome and reports it, unless one was claimed before. Says whether this
    /// call claimed it.
    pub fn finish(&mut self, outcome: Result<(), Error<S>>) -> (claimed: bool)
        ensures
            claimed == (old(self).outcome() is None),
            final(self).outcome() == first_of(old(self).outcome(), outcome),
            final(self).report() == match old(self).report() {
                Some(report) => if claimed {
                    Some(report.set(outcome))
                } else {
                    Some(report)
                },
                None => None,
            },
            claimed && old(self).report() is Some && old(self).report()->0.result is None ==> handed(
                old(self).report()->0.channel,
                outcome,
            ),
            !claimed ==> *final(self) == *old(self),
    {
        if self.outcome.is_some() {
            return false;
        }
        self.outcome = Some(clone_outcome(&outcome));
        if let Some(setter) = &mut self.setter {
            setter.set_result(outcome);
        }
        true
    }

    /// Whether there is an outcome.
    pub fn is_finished(&self) -> (finished: bool)
        ensures
            finished == (self.outcome() is Some),
    {
        self.outcome.is_some()
    }

    /// Whether the outcome is an error.
    pub fn failed(&self) -> (failed: bool)
        ensures
            failed == (self.outcome() is Some && self.outcome()->0 is Err),
    {
        match &self.outcome {
            Some(outcome) => outcome.is_err(),
            None => false,
        }
    }
}

/// A copy of an outcome.
pub fn clone_outcome<S>(outcome: &Result<(), Error<S>>) -> (copy: Result<(), Error<S>>)
    ensures
        copy == *outcome,
{
    match outcome {
        Ok(unit) => Ok(*unit),
        Err(error) => Err(error.clone()),
    }
}

/// A flag that goes up once and wakes everybody who waits for it.
pub struct CloseSignal {
    closed: bool,
    event: Signal,
}

impl CloseSignal {
    /// Whether the flag is up.
    pub closed spec fn is_up(&self) -> bool {
        self.closed
    }

    /// The event that those who wait listen to, and the wake-ups that were sent.
    pub closed spec fn signal(&self) -> SignalState {
        self.event@
    }

    /// A flag that is down.
    pub fn new() -> (signal: Self)
        ensures
            !signal.is_up(),
            signal.signal() == SignalState::fresh(signal.signal().event),
    {
        CloseSignal { closed: false, event: Signal::new() }
    }

    /// Raises the flag. Everybody who waits is woken when it goes up, and not again.
    pub fn close(&mut self)
        ensures
            final(self).is_up(),
            final(self).signal() == if old(self).is_up() {
                old(self).signal()
            } else {
                old(self).signal().wake(usize::MAX)
            },
            !old(self).is_up() ==> notified(old(self).signal().event, usize::MAX),
            old(self).is_up() ==> *final(self) == *old(self),
    {
        if !self.closed {
            self.closed = true;
            self.event.wake(usize::MAX);
        }
    }

    /// Whether the flag is up.
    pub fn is_closed(&self) -> (up: bool)
        ensures
            up == self.is_up(),
    {
        self.closed
    }

    /// What to wait for before the flag is up: nothing, once it is.
    pub fn closed(&self) -> (wait: Option<EventListener>)
        ensures
            wait is None <==> self.is_up(),
            wait is Some ==> listens(self.signal().event, wait->0),
    {
        let listener = self.event.listen();
        if self.is_closed() {
            return None;
        }
        Some(listener)
    }
}

/// What a [`StreamLifecycle`] is, as a mathematical value.
#[verifier::reject_recursive_types(S)]
#[verifier::ext_equal]
pub struct LifecycleState<S> {
    /// The outcome, once there is one.
    pub outcome: Option<Result<(), Error<S>>>,
    /// Whether the stream is closed to new items.
    pub closed: bool,
    /// What tells the consumer the outcome, if anything does.
    pub report: Option<SetterState<(), S>>,
    /// The error that a stream ends with when its consumer leaves.
    pub drop_error: Option<Error<S>>,
    /// The event that those who wait for the stream to close listen to, and the wake-ups.
    pub signal: SignalState,
}

impl<S> LifecycleState<S> {
    /// A stream that has just been made.
    pub open spec fn fresh(
        report: Option<SetterState<(), S>>,
        drop_error: Option<Error<S>>,
        event: Event,
    ) -> Self {
        LifecycleState {
            outcome: None,
            closed: false,
            report,
            drop_error,
            signal: SignalState::fresh(event),
        }
    }

    /// The stream closed to new items.
    pub open spec fn close(self) -> Self {
        LifecycleState {
            closed: true,
            signal: if self.closed {
                self.signal
            } else {
                self.signal.wake(usize::MAX)
            },
            ..self
        }
    }

    /// The stream after an outcome was claimed for it.
    pub open spec fn terminal(self, outcome: Result<(), Error<S>>) -> Self {
        if self.outcome is Some {
            self
        } else {
            LifecycleState {
                outcome: Some(outcome),
                report: match self.report {
                    Some(report) => Some(report.set(outcome)),
                    None => None,
                },
                ..self.close()
            }
        }
    }

    /// The stream after its consumer left.
    pub open spec fn receiver_gone(self) -> Self {
        match self.drop_error {
            Some(error) => self.terminal(Err(error)).close(),
            None => self.close(),
        }
    }

    /// Whether the stream takes items.
    pub open spec fn is_open(self) -> bool {
        !self.closed && self.outcome is None
    }

    /// Whether the stream ended with an error.
    pub open spec fn failed(self) -> bool {
        self.outcome is Some && self.outcome->0 is Err
    }

    /// Whether what has to be done between this and `after` was done: the consumer was told an
    /// outcome that was claimed, and those who wait were woken when the stream was closed.
    pub open spec fn carried_out(self, after: Self) -> bool {
        &&& self.outcome is None && after.outcome is Some && self.report is Some
            && self.report->0.result is None ==> handed(
            self.report->0.channel,
            after.outcome->0,
        )
        &&& !self.closed && after.closed ==> notified(self.signal.event, usize::MAX)
    }

    /// What holds of every stream: one with an outcome is closed, the consumer is told the
    /// outcome and nothing else, and those who wait are woken once, when the stream closes.
    pub open spec fn valid(self) -> bool {
        &&& self.outcome is Some ==> self.closed
        &&& self.report is Some ==> self.report->0.result == self.outcome
        &&& self.signal.wakes =~= if self.closed {
            seq![usize::MAX]
        } else {
            Seq::empty()
        }
    }
}

/// The life of a stream, shared by those who produce it and its consumer.
#[verifier::reject_recursive_types(S)]
pub struct StreamLifecycle<S> {
    completion: CompletionState<S>,
    closure: CloseSignal,
    receiver_drop_error: Option<Error<S>>,
}

impl<S> View for StreamLifecycle<S> {
    type V = LifecycleState<S>;

    closed spec fn view(&self) -> LifecycleState<S> {
        LifecycleState {
            outcome: self.completion.outcome(),
            closed: self.closure.is_up(),
            report: self.completion.report(),
            drop_error: self.receiver_drop_error,
            signal: self.closure.signal(),
        }
    }
}

impl<S> StreamLifecycle<S> {
    /// An open stream. `setter` reports the outcome to the consumer; `receiver_drop_error` is
    /// the outcome when the consumer leaves before there is one.
    pub fn new(
        setter: Option<JobFutureSetter<(), S>>,
        receiver_drop_error: Option<Error<S>>,
    ) -> (lifecycle: Self)
        ensures
            lifecycle@ == LifecycleState::fresh(
                match setter {
                    Some(setter) => Some(setter@),
                    None => None,
                },
                receiver_drop_error,
                lifecycle@.signal.event,
            ),
    {
        StreamLifecycle {
            completion: CompletionState::new(setter),
            closure: CloseSignal::new(),
            receiver_drop_error,
        }
    }

    /// Claims the outcome and closes the stream, unless an outcome was claimed before. Says
    /// whether this call claimed it.
    pub fn set_terminal(&mut self, outcome: Result<(), Error<S>>) -> (claimed: bool)
        ensures
            claimed == (old(self)@.outcome is None),
            final(self)@ == old(self)@.terminal(outcome),
            old(self)@.carried_out(final(self)@),
    {
        if !self.completion.finish(outcome) {
            return false;
        }
        self.closure.close();
        true
    }

    /// Records that the consumer left: the stream is closed, and ends with the error for that
    /// case unless it has an outcome.
    pub fn receiver_dropped(&mut self)
        ensures
            final(self)@ == old(self)@.receiver_gone(),
            old(self)@.carried_out(final(self)@),
    {
        if let Some(error) = &self.receiver_drop_error {
            let error = error.clone();
            self.set_terminal(Err(error));
        }
        self.closure.close();
    }

    /// Whether the stream takes items.
    pub fn is_open(&self) -> (open: bool)
        ensures
            open == self@.is_open(),
    {
        !self.closure.is_closed() && !self.completion.is_finished()
    }

    /// Whether the stream ended with an error.
    pub fn failed(&self) -> (failed: bool)
        ensures
            failed == self@.failed(),
    {
        self.completion.failed()
    }

    /// What to wait for before the stream is closed: nothing, once it is.
    pub fn closed(&self) -> (wait: Option<EventListener>)
        ensures
            wait is None <==> self@.closed,
            wait is Some ==> listens(self@.signal.event, wait->0),
    {
        self.closure.closed()
    }
}

/// A stream starts valid, and whatever happens to it keeps it valid.
pub proof fn lifecycle_stays_valid<S>(
    state: LifecycleState<S>,
    outcome: Result<(), Error<S>>,
    report: Option<SetterState<(), S>>,
    drop_error: Option<Error<S>>,
    event: Event,
)
    requires
        report is Some ==> report->0.result is None,
    ensures
        LifecycleState::fresh(report, drop_error, event).valid(),
        LifecycleState::fresh(report, drop_error, event).is_open(),
        state.valid() ==> state.terminal(outcome).valid(),
        state.valid() ==> state.receiver_gone().valid(),
{
}

/// The first outcome that is claimed for a stream stays: neither another claim nor the
/// departure of the consumer changes it or what the consumer is told.
pub proof fn first_outcome_wins<S>(
    state: LifecycleState<S>,
    first: Result<(), Error<S>>,
    second: Result<(), Error<S>>,
)
    requires
        state.valid(),
        state.outcome is None,
    ensures
        state.terminal(first).outcome == Some(first),
        state.terminal(first).report is Some ==> state.terminal(first).report->0.result == Some(
            first,
        ),
        state.terminal(first).terminal(second) == state.terminal(first),
        state.terminal(first).receiver_gone() == state.terminal(first),
{
    assert(state.terminal(first).signal.wakes =~= seq![usize::MAX]);
}

/// A stream whose consumer left is never open again, and its outcome is the error for that
/// case where it has one and no outcome came first.
pub proof fn departure_closes<S>(state: LifecycleState<S>, outcome: Result<(), Error<S>>)
    requires
        state.valid(),
    ensures
        !state.receiver_gone().is_open(),
        !state.receiver_gone().terminal(outcome).is_open(),
        state.receiver_gone().receiver_gone() == state.receiver_gone(),
        state.outcome is None && state.drop_error is Some ==> state.receiver_gone().outcome == Some(
            Err::<(), Error<S>>(state.drop_error->0),
        ),
        state.outcome is None && state.drop_error is None
            ==> state.receiver_gone().outcome is None,
{
}

/// What becomes of a stream when an outcome is claimed for it, and when its consumer leaves. An
/// outcome is claimed once: it closes the stream, and is told and woken for as it is. A consumer that
/// leaves closes the stream too, and claims the error that was set for that, if one was. Nothing is
/// told or woken for twice, and neither the one who is told nor the one who is woken ever changes.
pub proof fn stream_ends_once<S>(
    state: LifecycleState<S>,
    outcome: Result<(), Error<S>>,
    report: Option<SetterState<(), S>>,
    drop_error: Option<Error<S>>,
    event: Event,
)
    requires
        state.valid(),
    ensures
        ({
            let fresh = LifecycleState::fresh(report, drop_error, event);
            &&& fresh.outcome is None
            &&& !fresh.closed
            &&& fresh.report == report
            &&& fresh.drop_error == drop_error
            &&& fresh.signal.event == event
            &&& fresh.signal.wakes.len() == 0
        }),
        state.is_open() <==> !state.closed && state.outcome is None,
        state.failed() <==> (state.outcome matches Some(Err(_))),
        state.outcome is Some ==> state.closed,
        ({
            let after = state.terminal(outcome);
            &&& after.closed
            &&& after.outcome == if state.outcome is Some {
                state.outcome
            } else {
                Some(outcome)
            }
            &&& state.outcome is Some ==> after == state
            &&& after.signal.event == state.signal.event
            &&& after.signal.wakes.len() == 1
            &&& after.drop_error == state.drop_error
            &&& state.report is Some <==> after.report is Some
            &&& state.report is Some ==> {
                &&& after.report->0.channel == state.report->0.channel
                &&& after.report->0.result == after.outcome
            }
            &&& state.carried_out(after) && state.outcome is None && state.report is Some
                ==> handed(state.report->0.channel, outcome)
            &&& state.carried_out(after) && !state.closed ==> notified(
                state.signal.event,
                usize::MAX,
            )
        }),
        ({
            let after = state.receiver_gone();
            &&& after.closed
            &&& after.outcome == if state.outcome is Some {
                state.outcome
            } else if state.drop_error is Some {
                Some(Err::<(), Error<S>>(state.drop_error->0))
            } else {
                None
            }
            &&& after.signal.event == state.signal.event
            &&& after.signal.wakes.len() == 1
            &&& after.drop_error == state.drop_error
            &&& state.report is Some <==> after.report is Some
            &&& state.report is Some ==> {
                &&& after.report->0.channel == state.report->0.channel
                &&& after.report->0.result == after.outcome
            }
            &&& state.carried_out(after) && !state.closed ==> notified(
                state.signal.event,
                usize::MAX,
            )
        }),
{
}

} // verus!
