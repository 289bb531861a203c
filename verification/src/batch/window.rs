//! Windows, in which the inputs of a batch are gathered.

use std::collections::HashMap;
use std::sync::Arc;
use std::time::Duration;

use event_listener::{Event, EventListener};
use vstd::prelude::*;
use vstd::std_specs::cmp::PartialEqSpec;

use crate::error::Error;
use crate::future::first_of;
use crate::lifecycle::clone_outcome;
use crate::signal::{listens, notified, Signal, SignalState};
use crate::time::nanos;

verus! {

/// How large a batch may grow, and how long it waits for more inputs.
#[derive(Debug, Clone, Copy)]
pub struct BatchPolicy {
    /// How many inputs fill a batch.
    pub max_size: usize,
    /// How long a batch waits after its first input.
    pub max_wait: Duration,
}

impl Default for BatchPolicy {
    /// Batches of one input that do not wait.
    fn default() -> (policy: Self)
        ensures
            policy.max_size == 1,
            nanos(policy.max_wait) == 0,
    {
        BatchPolicy { max_size: 1, max_wait: Duration::from_millis(0) }
    }
}

/// What a [`Window`] is, as a mathematical value.
#[verifier::ext_equal]
pub struct WindowState<X, I, D> {
    /// What will run the inputs.
    pub executor: X,
    /// How large the window may grow, and how long it waits.
    pub policy: BatchPolicy,
    /// The inputs that were gathered, in order.
    pub inputs: Seq<I>,
    /// Where the result of each input goes, in the same order.
    pub deliveries: Seq<D>,
    /// Whether the window takes no more inputs.
    pub sealed: bool,
    /// The event that those who wait for the window to be sealed listen to, and the wake-ups.
    pub signal: SignalState,
}

impl<X, I, D> WindowState<X, I, D> {
    /// A window that was opened by its first input.
    pub open spec fn opened(
        executor: X,
        policy: BatchPolicy,
        input: I,
        delivery: D,
        event: Event,
    ) -> Self {
        WindowState {
            executor,
            policy,
            inputs: seq![input],
            deliveries: seq![delivery],
            sealed: policy.max_size <= 1,
            signal: SignalState::fresh(event),
        }
    }

    /// The window after it took another input. The one that fills it seals it.
    pub open spec fn push(self, input: I, delivery: D) -> Self {
        let full = self.inputs.len() + 1 >= self.policy.max_size;
        WindowState {
            inputs: self.inputs.push(input),
            deliveries: self.deliveries.push(delivery),
            sealed: full,
            signal: if full {
                self.signal.wake(usize::MAX)
            } else {
                self.signal
            },
            ..self
        }
    }

    /// The window after it was sealed early.
    pub open spec fn close(self) -> Self {
        WindowState { sealed: true, signal: self.signal.wake(usize::MAX), ..self }
    }

    /// The window after what it gathered was taken out.
    pub open spec fn seal(self) -> Self {
        WindowState { inputs: Seq::empty(), deliveries: Seq::empty(), sealed: true, ..self }
    }

    /// The window after an input was offered to it. A sealed one is left alone.
    pub open spec fn offer(self, input: I, delivery: D) -> Self {
        if self.sealed {
            self
        } else {
            self.push(input, delivery)
        }
    }

    /// The window after several inputs were offered to it, one after the other.
    pub open spec fn offers(self, members: Seq<(I, D)>) -> Self
        decreases members.len(),
    {
        if members.len() == 0 {
            self
        } else {
            self.offers(members.drop_last()).offer(members.last().0, members.last().1)
        }
    }

    /// How many of several inputs that are offered one after the other the window takes.
    pub open spec fn takes(self, members: Seq<(I, D)>) -> int
        decreases members.len(),
    {
        if members.len() == 0 {
            0
        } else if self.offers(members.drop_last()).sealed {
            self.takes(members.drop_last())
        } else {
            self.takes(members.drop_last()) + 1
        }
    }

    /// What holds of every window: there is a delivery for each input, it holds no more inputs
    /// than fill it, and while it takes inputs it holds one at least and has room.
    pub open spec fn valid(self) -> bool {
        &&& self.inputs.len() == self.deliveries.len()
        &&& self.inputs.len() <= self.policy.max_size || self.inputs.len() <= 1
        &&& !self.sealed ==> 1 <= self.inputs.len() < self.policy.max_size
    }
}

/// What to wait for before a window is run.
pub enum Readiness {
    /// Nothing: the window is sealed, or its time is over.
    Now,
    /// Until it is sealed, or for this long.
    Wait {
        /// Wakes when the window is sealed.
        sealed: EventListener,
        /// How long the window waits yet.
        remaining: Duration,
    },
}

/// Inputs that are gathered to be run together.
#[verifier::reject_recursive_types(X)]
#[verifier::reject_recursive_types(I)]
#[verifier::reject_recursive_types(D)]
pub struct Window<X, I, D> {
    executor: Arc<X>,
    policy: BatchPolicy,
    inputs: Vec<I>,
    deliveries: Vec<D>,
    sealed: bool,
    full: Signal,
}

impl<X, I, D> View for Window<X, I, D> {
    type V = WindowState<X, I, D>;

    closed spec fn view(&self) -> WindowState<X, I, D> {
        WindowState {
            executor: *self.executor,
            policy: self.policy,
            inputs: self.inputs@,
            deliveries: self.deliveries@,
            sealed: self.sealed,
            signal: self.full@,
        }
    }
}

impl<X, I, D> Window<X, I, D> {
    /// A window that holds its first input. One that is filled by it is sealed.
    pub fn new(executor: Arc<X>, policy: BatchPolicy, input: I, delivery: D) -> (window: Self)
        ensures
            window@ == WindowState::opened(
                *executor,
                policy,
                input,
                delivery,
                window@.signal.event,
            ),
            window@.valid(),
    {
        let mut inputs: Vec<I> = Vec::new();
        let mut deliveries: Vec<D> = Vec::new();
        inputs.push(input);
        deliveries.push(delivery);
        let window = Window {
            executor,
            policy,
            inputs,
            deliveries,
            sealed: policy.max_size <= 1,
            full: Signal::new(),
        };
        assert(window@.inputs =~= seq![input]);
        assert(window@.deliveries =~= seq![delivery]);
        window
    }

    /// Whether the window takes no more inputs.
    pub fn is_sealed(&self) -> (sealed: bool)
        ensures
            sealed == self@.sealed,
    {
        self.sealed
    }

    /// Adds an input, and says whether it filled the window. A sealed window gives the input
    /// back.
    pub fn push(&mut self, input: I, delivery: D) -> (pushed: Result<bool, (I, D)>)
        ensures
            pushed == if old(self)@.sealed {
                Err::<bool, (I, D)>((input, delivery))
            } else {
                Ok(final(self)@.sealed)
            },
            final(self)@ == if old(self)@.sealed {
                old(self)@
            } else {
                old(self)@.push(input, delivery)
            },
            !old(self)@.sealed && final(self)@.sealed ==> notified(
                old(self)@.signal.event,
                usize::MAX,
            ),
            old(self)@.valid() ==> final(self)@.valid(),
    {
        if self.sealed {
            return Err((input, delivery));
        }
        self.inputs.push(input);
        self.deliveries.push(delivery);
        if self.inputs.len() >= self.policy.max_size {
            self.sealed = true;
            self.full.wake(usize::MAX);
        }
        Ok(self.sealed)
    }

    /// Seals the window before it is full.
    pub fn close(&mut self)
        ensures
            final(self)@ == old(self)@.close(),
            notified(old(self)@.signal.event, usize::MAX),
            old(self)@.valid() ==> final(self)@.valid(),
    {
        self.sealed = true;
        self.full.wake(usize::MAX);
    }

    /// What will run the inputs.
    pub fn executor(&self) -> (executor: &Arc<X>)
        ensures
            **executor == self@.executor,
    {
        &self.executor
    }

    /// What to wait for before the window is run, when this much time has passed since it was
    /// opened.
    pub fn ready(&self, elapsed: Duration) -> (readiness: Readiness)
        ensures
            readiness is Now <==> self@.sealed || nanos(self@.policy.max_wait) <= nanos(elapsed),
            readiness is Wait ==> {
                &&& nanos(readiness->remaining) == nanos(self@.policy.max_wait) - nanos(elapsed)
                &&& listens(self@.signal.event, readiness->sealed)
            },
    {
        let listener = self.full.listen();
        if self.is_sealed() {
            return Readiness::Now;
        }
        let remaining = self.policy.max_wait.saturating_sub(elapsed);
        if remaining.as_nanos() == 0 {
            return Readiness::Now;
        }
        Readiness::Wait { sealed: listener, remaining }
    }

    /// Seals the window and takes out what it gathered. There is nothing to take out after that.
    pub fn seal(&mut self) -> (gathered: (Vec<I>, Vec<D>))
        ensures
            gathered.0@ == old(self)@.inputs,
            gathered.1@ == old(self)@.deliveries,
            final(self)@ == old(self)@.seal(),
            old(self)@.valid() ==> final(self)@.valid(),
    {
        self.sealed = true;
        let mut inputs: Vec<I> = Vec::new();
        std::mem::swap(&mut inputs, &mut self.inputs);
        let mut deliveries: Vec<D> = Vec::new();
        std::mem::swap(&mut deliveries, &mut self.deliveries);
        (inputs, deliveries)
    }
}

/// Whether the queue has taken a window.
#[derive(Debug, Clone, Copy, PartialEq, Eq, Structural)]
pub enum AdmissionState {
    /// The queue has not answered yet.
    Pending,
    /// The queue has taken the window.
    Accepted,
}

/// The window that inputs join.
pub struct OpenWindow<O> {
    id: u64,
    queue_options: Option<O>,
    admission: AdmissionState,
}

impl<O> OpenWindow<O> {
    /// The window's number.
    pub closed spec fn id(&self) -> u64 {
        self.id
    }

    /// The queue options of the inputs that it takes.
    pub closed spec fn options(&self) -> Option<O> {
        self.queue_options
    }

    /// Whether the queue has not answered yet.
    pub closed spec fn pending(&self) -> bool {
        self.admission == AdmissionState::Pending
    }

    fn new(id: u64, queue_options: Option<O>) -> (open: Self)
        ensures
            open.id() == id,
            open.options() == queue_options,
            open.pending(),
    {
        OpenWindow { id, queue_options, admission: AdmissionState::Pending }
    }

    /// Whether this is the window of that number.
    pub fn contains(&self, id: u64) -> (contains: bool)
        ensures
            contains == (self.id() == id),
    {
        self.id == id
    }

    /// Whether inputs with these queue options can join.
    pub fn matches_options(&self, queue_options: &Option<O>) -> (matches: bool) where O: PartialEq
        ensures
            same_options(self.options(), *queue_options, matches),
    {
        match (&self.queue_options, queue_options) {
            (None, None) => true,
            (Some(own), Some(other)) => own == other,
            _ => false,
        }
    }

    /// Whether the queue has not answered yet.
    pub fn is_pending(&self) -> (pending: bool)
        ensures
            pending == self.pending(),
    {
        self.admission == AdmissionState::Pending
    }

    /// Records that the queue has taken the window.
    pub fn accept(&mut self)
        ensures
            !final(self).pending(),
            final(self).id() == old(self).id(),
            final(self).options() == old(self).options(),
    {
        self.admission = AdmissionState::Accepted;
    }
}

/// Whether `same` says if two inputs ask the queue for the same. What two of them ask for is the
/// same if `==` says so.
pub open spec fn same_options<O: PartialEqSpec>(
    own: Option<O>,
    other: Option<O>,
    same: bool,
) -> bool {
    match (own, other) {
        (None, None) => same,
        (Some(own), Some(other)) => O::obeys_eq_spec() ==> same == own.eq_spec(&other),
        _ => !same,
    }
}

/// The queue's answer on a window, for which everybody waits whose input is in the window.
pub struct WindowAdmission<S> {
    answer: Option<Result<(), Error<S>>>,
}

impl<S> View for WindowAdmission<S> {
    type V = Option<Result<(), Error<S>>>;

    /// The answer, once there is one.
    closed spec fn view(&self) -> Option<Result<(), Error<S>>> {
        self.answer
    }
}

impl<S> WindowAdmission<S> {
    /// An admission without an answer.
    pub fn new() -> (admission: Self)
        ensures
            admission@ is None,
    {
        WindowAdmission { answer: None }
    }

    /// Records the answer. The first one stays.
    pub fn answer(&mut self, answer: Result<(), Error<S>>)
        ensures
            final(self)@ == first_of(old(self)@, answer),
    {
        if self.answer.is_none() {
            self.answer = Some(answer);
        }
    }

    /// What one who waits is told: nothing before there is an answer, and everybody the same after
    /// that.
    pub fn wait(&self) -> (told: Option<Result<(), Error<S>>>)
        ensures
            told == self@,
    {
        match &self.answer {
            Some(answer) => Some(clone_outcome(answer)),
            None => None,
        }
    }
}

/// The open window of a [`WindowSlot`], as a mathematical value.
pub struct OpenState<O> {
    /// The window's number.
    pub id: u64,
    /// The queue options of the inputs that it takes.
    pub options: Option<O>,
    /// Whether the queue has not answered yet.
    pub pending: bool,
}

/// What a [`WindowSlot`] is, as a mathematical value.
#[verifier::ext_equal]
pub struct SlotState<X, I, D, O> {
    /// The window that inputs join, if there is one.
    pub open: Option<OpenState<O>>,
    /// The windows that were opened and not taken out yet, by number.
    pub windows: Map<u64, WindowState<X, I, D>>,
    /// The number of the next window.
    pub next: int,
}

/// What becomes of an input that is offered to a [`WindowSlot`].
pub enum Joined<O> {
    /// It joined the window of this number, which the queue may not have answered for yet.
    Existing {
        /// The window's number.
        window: u64,
        /// Whether the queue has not answered yet.
        pending: bool,
    },
    /// It opened the window of this number, which has to be handed to the queue.
    Opened {
        /// The window's number.
        window: u64,
        /// What to ask the queue for.
        options: Option<O>,
    },
}

impl<X, I, D, O> SlotState<X, I, D, O> {
    /// A slot without windows.
    pub open spec fn empty() -> Self {
        SlotState { open: None, windows: Map::empty(), next: 0 }
    }

    /// What holds of every slot: its windows are valid and numbered from zero on, and the
    /// window that inputs join takes inputs unless it was taken out.
    pub open spec fn valid(self) -> bool {
        &&& 0 <= self.next <= u64::MAX
        &&& forall|id: u64| #[trigger]
            self.windows.dom().contains(id) ==> id < self.next && self.windows[id].valid()
        &&& self.open is Some ==> {
            &&& self.open->0.id < self.next
            &&& self.windows.dom().contains(self.open->0.id)
                ==> !self.windows[self.open->0.id].sealed
        }
    }

    /// Whether an input joins the open window, given that its queue options are the `same`, and
    /// that somebody waits for the queue's answer if that is pending.
    pub open spec fn joins(self, same: bool, awaited: bool) -> bool {
        &&& self.open is Some
        &&& same
        &&& !self.open->0.pending || awaited
        &&& self.windows.dom().contains(self.open->0.id)
        &&& !self.windows[self.open->0.id].sealed
    }

    /// Whether the open window is sealed by an input that does not join it: because its queue
    /// options differ, or because nobody waits for the queue's answer any more.
    pub open spec fn displaces(self, same: bool, awaited: bool) -> bool {
        &&& self.open is Some
        &&& !same || (self.open->0.pending && !awaited)
    }

    /// The slot after the window of this number was sealed early.
    pub open spec fn close(self, id: u64) -> Self {
        if self.windows.dom().contains(id) {
            SlotState { windows: self.windows.insert(id, self.windows[id].close()), ..self }
        } else {
            self
        }
    }

    /// The slot after an input opened a window.
    pub open spec fn opened(
        self,
        executor: X,
        policy: BatchPolicy,
        options: Option<O>,
        input: I,
        delivery: D,
        event: Event,
    ) -> Self {
        let id = self.next as u64;
        SlotState {
            open: if policy.max_size <= 1 {
                None
            } else {
                Some(OpenState { id, options, pending: true })
            },
            windows: self.windows.insert(
                id,
                WindowState::opened(executor, policy, input, delivery, event),
            ),
            next: self.next + 1,
        }
    }

    /// The slot after an input joined the open window. Once that is full, no input joins it.
    pub open spec fn pushed(self, input: I, delivery: D) -> Self {
        let id = self.open->0.id;
        let window = self.windows[id].push(input, delivery);
        SlotState {
            open: if window.sealed {
                None
            } else {
                self.open
            },
            windows: self.windows.insert(id, window),
            ..self
        }
    }

    /// The slot after an input was offered to it.
    pub open spec fn join(
        self,
        same: bool,
        awaited: bool,
        executor: X,
        policy: BatchPolicy,
        options: Option<O>,
        input: I,
        delivery: D,
        event: Event,
    ) -> Self {
        if self.joins(same, awaited) {
            self.pushed(input, delivery)
        } else if self.displaces(same, awaited) {
            self.close(self.open->0.id).opened(
                executor,
                policy,
                options,
                input,
                delivery,
                event,
            )
        } else {
            self.opened(executor, policy, options, input, delivery, event)
        }
    }

    /// Whether those who wait for a window to be sealed were woken if it was between this and
    /// `after`.
    pub open spec fn woken(self, after: Self) -> bool {
        forall|id: u64|
            {
                &&& #[trigger] self.windows.dom().contains(id)
                &&& !self.windows[id].sealed
                &&& after.windows.dom().contains(id)
                &&& after.windows[id].sealed
            } ==> notified(self.windows[id].signal.event, usize::MAX)
    }

    /// Whether inputs join the window of this number.
    pub open spec fn is_open(self, id: u64) -> bool {
        self.open is Some && self.open->0.id == id
    }

    /// The slot after the queue took the window of this number.
    pub open spec fn accept(self, id: u64) -> Self {
        if self.is_open(id) {
            SlotState { open: Some(OpenState { pending: false, ..self.open->0 }), ..self }
        } else {
            self
        }
    }

    /// The slot after nobody waits any more for the queue's answer on the window of this number.
    pub open spec fn abandon(self, id: u64) -> Self {
        if self.is_open(id) && self.open->0.pending {
            SlotState { open: None, ..self }
        } else {
            self
        }
    }

    /// The slot after the queue refused the window of this number.
    pub open spec fn evict(self, id: u64) -> Self {
        if self.is_open(id) {
            SlotState { open: None, ..self }
        } else {
            self
        }
    }

    /// The slot after the window of this number was taken out.
    pub open spec fn seal(self, id: u64) -> Self {
        SlotState { windows: self.windows.remove(id), ..self }
    }
}

/// Where the inputs of a batcher are gathered: the windows that were opened and not run yet, of
/// which inputs join one at most.
#[verifier::reject_recursive_types(X)]
#[verifier::reject_recursive_types(I)]
#[verifier::reject_recursive_types(D)]
pub struct WindowSlot<X, I, D, O> {
    open: Option<OpenWindow<O>>,
    windows: HashMap<u64, Window<X, I, D>>,
    next: u64,
}

impl<X, I, D, O> View for WindowSlot<X, I, D, O> {
    type V = SlotState<X, I, D, O>;

    closed spec fn view(&self) -> SlotState<X, I, D, O> {
        SlotState {
            open: match self.open {
                Some(open) => Some(
                    OpenState { id: open.id(), options: open.options(), pending: open.pending() },
                ),
                None => None,
            },
            windows: self.windows@.map_values(|window: Window<X, I, D>| window@),
            next: self.next as int,
        }
    }
}

impl<X, I, D, O> WindowSlot<X, I, D, O> {
    /// A slot without windows.
    pub fn new() -> (slot: Self)
        ensures
            slot@ == SlotState::<X, I, D, O>::empty(),
            slot@.valid(),
    {
        let slot = WindowSlot { open: None, windows: HashMap::new(), next: 0 };
        assert(slot@.windows =~= Map::empty());
        slot
    }

    /// Records that the queue took the window of this number.
    pub fn accept(&mut self, id: u64)
        requires
            old(self)@.valid(),
        ensures
            final(self)@ == old(self)@.accept(id),
            final(self)@.valid(),
    {
        if let Some(open) = &mut self.open {
            if open.contains(id) {
                open.accept();
            }
        }
    }

    /// Records that nobody waits any more for the queue's answer on the window of this number:
    /// no input joins it, unless the queue has taken it.
    pub fn abandon(&mut self, id: u64)
        requires
            old(self)@.valid(),
        ensures
            final(self)@ == old(self)@.abandon(id),
            final(self)@.valid(),
    {
        let abandoned = match &self.open {
            Some(open) => open.contains(id) && open.is_pending(),
            None => false,
        };
        if abandoned {
            self.open = None;
        }
    }

    /// Records that the queue refused the window of this number: no input joins it.
    pub fn evict(&mut self, id: u64)
        requires
            old(self)@.valid(),
        ensures
            final(self)@ == old(self)@.evict(id),
            final(self)@.valid(),
    {
        let evicted = match &self.open {
            Some(open) => open.contains(id),
            None => false,
        };
        if evicted {
            self.open = None;
        }
    }

    /// Whether there is no number left for another window.
    pub fn is_exhausted(&self) -> (exhausted: bool)
        ensures
            exhausted == (self@.next >= u64::MAX),
    {
        self.next == u64::MAX
    }

    /// Records the queue's answer on the window of this number.
    pub fn answered(&mut self, id: u64, accepted: bool)
        requires
            old(self)@.valid(),
        ensures
            final(self)@ == if accepted {
                old(self)@.accept(id)
            } else {
                old(self)@.evict(id)
            },
            final(self)@.valid(),
    {
        if accepted {
            self.accept(id);
        } else {
            self.evict(id);
        }
    }

    /// What to wait for before the window of this number is run, when this much time has passed
    /// since it was opened: nothing, where it was taken out.
    pub fn ready(&self, id: u64, elapsed: Duration) -> (readiness: Readiness)
        ensures
            readiness is Now <==> !self@.windows.dom().contains(id) || self@.windows[id].sealed
                || nanos(self@.windows[id].policy.max_wait) <= nanos(elapsed),
            readiness is Wait ==> {
                &&& nanos(readiness->remaining) == nanos(self@.windows[id].policy.max_wait)
                    - nanos(elapsed)
                &&& listens(self@.windows[id].signal.event, readiness->sealed)
            },
    {
        match self.windows.get(&id) {
            Some(window) => window.ready(elapsed),
            None => Readiness::Now,
        }
    }

    /// The window of this number, unless it was taken out.
    pub fn window(&self, id: u64) -> (window: Option<&Window<X, I, D>>)
        ensures
            window is Some <==> self@.windows.dom().contains(id),
            window is Some ==> window->0@ == self@.windows[id],
    {
        self.windows.get(&id)
    }

    /// Takes the window of this number out to be run: it takes no more inputs.
    pub fn seal(&mut self, id: u64) -> (gathered: Option<(Arc<X>, Vec<I>, Vec<D>)>)
        requires
            old(self)@.valid(),
        ensures
            gathered is Some <==> old(self)@.windows.dom().contains(id),
            gathered is Some ==> {
                &&& *(gathered->0).0 == old(self)@.windows[id].executor
                &&& (gathered->0).1@ == old(self)@.windows[id].inputs
                &&& (gathered->0).2@ == old(self)@.windows[id].deliveries
            },
            final(self)@ == old(self)@.seal(id),
            final(self)@.valid(),
    {
        let gathered = match self.windows.remove(&id) {
            Some(mut window) => {
                let executor = window.executor().clone();
                let (inputs, deliveries) = window.seal();
                Some((executor, inputs, deliveries))
            },
            None => None,
        };
        assert(self@.windows =~= old(self)@.windows.remove(id));
        gathered
    }

    /// Seals the window of this number early.
    fn close(&mut self, id: u64)
        ensures
            final(self)@ == old(self)@.close(id),
            final(self).open == old(self).open,
            old(self)@.windows.dom().contains(id) ==> notified(
                old(self)@.windows[id].signal.event,
                usize::MAX,
            ),
    {
        if let Some(mut window) = self.windows.remove(&id) {
            window.close();
            self.windows.insert(id, window);
            assert(self@.windows =~= old(self)@.windows.insert(id, old(self)@.windows[id].close()));
        } else {
            assert(self@.windows =~= old(self)@.windows);
        }
    }

    /// Offers an input to the window of this number.
    fn push(&mut self, id: u64, input: I, delivery: D) -> (pushed: Result<bool, (I, D)>)
        ensures
            final(self).open == old(self).open,
            ({
                let taken = old(self)@.windows.dom().contains(id) && !old(self)@.windows[id].sealed;
                let window = old(self)@.windows[id].push(input, delivery);
                if taken {
                    &&& pushed == Ok::<bool, (I, D)>(window.sealed)
                    &&& window.sealed ==> notified(
                        old(self)@.windows[id].signal.event,
                        usize::MAX,
                    )
                    &&& final(self)@ == (SlotState {
                        windows: old(self)@.windows.insert(id, window),
                        ..old(self)@
                    })
                } else {
                    &&& pushed == Err::<bool, (I, D)>((input, delivery))
                    &&& final(self)@ == old(self)@
                }
            }),
    {
        match self.windows.remove(&id) {
            Some(mut window) => {
                let pushed = window.push(input, delivery);
                self.windows.insert(id, window);
                assert(pushed is Ok ==> self@.windows =~= old(self)@.windows.insert(
                    id,
                    old(self)@.windows[id].push(input, delivery),
                ));
                assert(pushed is Err ==> self@.windows =~= old(self)@.windows);
                pushed
            },
            None => {
                assert(self@.windows =~= old(self)@.windows);
                Err((input, delivery))
            },
        }
    }

    /// Opens a window with its first input.
    fn open_window(
        &mut self,
        executor: &Arc<X>,
        policy: BatchPolicy,
        queue_options: Option<O>,
        input: I,
        delivery: D,
    ) -> (id: u64)
        requires
            old(self)@.next < u64::MAX,
        ensures
            id == old(self)@.next,
            final(self)@ == old(self)@.opened(
                **executor,
                policy,
                queue_options,
                input,
                delivery,
                final(self)@.windows[id].signal.event,
            ),
    {
        let id: u64 = self.next;
        self.next = id + 1;
        let window = Window::new(executor.clone(), policy, input, delivery);
        self.open = if window.is_sealed() {
            None
        } else {
            Some(OpenWindow::new(id, queue_options))
        };
        self.windows.insert(id, window);
        assert(self@.windows =~= old(self)@.windows.insert(
            id,
            WindowState::opened(
                **executor,
                policy,
                input,
                delivery,
                self@.windows[id].signal.event,
            ),
        ));
        id
    }
}

/// Whether `joined` says what became of an input that was offered to a slot.
pub open spec fn says<X, I, D, O: Clone>(
    slot: SlotState<X, I, D, O>,
    same: bool,
    awaited: bool,
    options: Option<O>,
    joined: Joined<O>,
) -> bool {
    if slot.joins(same, awaited) {
        joined == (Joined::<O>::Existing {
            window: slot.open->0.id,
            pending: slot.open->0.pending,
        })
    } else {
        &&& joined is Opened
        &&& joined->Opened_window == slot.next
        &&& joined->options is Some <==> options is Some
        &&& options is Some ==> cloned(options->0, joined->options->0)
    }
}

/// Whether a slot goes from `before` to `after` when an input is offered to it, and answers
/// `joined`.
pub open spec fn offered<X, I, D, O: Clone + PartialEqSpec>(
    before: SlotState<X, I, D, O>,
    awaited: bool,
    executor: X,
    policy: BatchPolicy,
    options: Option<O>,
    input: I,
    delivery: D,
    after: SlotState<X, I, D, O>,
    joined: Joined<O>,
) -> bool {
    exists|same: bool|
        {
            &&& before.open is Some ==> same_options(before.open->0.options, options, same)
            &&& after == before.join(
                same,
                awaited,
                executor,
                policy,
                options,
                input,
                delivery,
                after.windows[before.goes_to(same, awaited)].signal.event,
            )
            &&& before.woken(after)
            &&& #[trigger] says(before, same, awaited, options, joined)
        }
}

impl<X, I, D, O: Clone + PartialEq> WindowSlot<X, I, D, O> {
    /// Offers an input to the slot. It joins the open window if its queue options are the same
    /// and the window takes it, and opens another one otherwise. A window that it does not join
    /// because of its queue options is sealed, and so is one on whose admission nobody waits
    /// any more: `awaited` says whether somebody waits for the queue's answer on the open
    /// window.
    pub fn join(
        &mut self,
        executor: &Arc<X>,
        policy: BatchPolicy,
        queue_options: Option<O>,
        input: I,
        delivery: D,
        awaited: bool,
    ) -> (joined: Joined<O>)
        requires
            old(self)@.valid(),
            old(self)@.next < u64::MAX,
        ensures
            final(self)@.valid(),
            offered(
                old(self)@,
                awaited,
                **executor,
                policy,
                queue_options,
                input,
                delivery,
                final(self)@,
                joined,
            ),
    {
        let ghost mut same: bool = false;
        let (input, delivery) = match self.open.take() {
            Some(open) => {
                let matches = open.matches_options(&queue_options);
                proof {
                    same = matches;
                }
                if !matches || (open.is_pending() && !awaited) {
                    self.close(open.id);
                    (input, delivery)
                } else {
                    match self.push(open.id, input, delivery) {
                        Ok(full) => {
                            let joined = Joined::Existing {
                                window: open.id,
                                pending: open.is_pending(),
                            };
                            if !full {
                                self.open = Some(open);
                            }
                            assert(says(old(self)@, same, awaited, queue_options, joined));
                            return joined;
                        },
                        Err(member) => member,
                    }
                }
            },
            None => (input, delivery),
        };
        let options = queue_options.clone();
        let window: u64 = self.open_window(executor, policy, queue_options, input, delivery);
        let joined = Joined::Opened { window, options };
        assert(says(old(self)@, same, awaited, queue_options, joined));
        joined
    }
}

impl<X, I, D, O> SlotState<X, I, D, O> {
    /// The number of the window that an input ends up in.
    pub open spec fn goes_to(self, same: bool, awaited: bool) -> u64 {
        if self.joins(same, awaited) {
            self.open->0.id
        } else {
            self.next as u64
        }
    }
}

/// Every input that is offered ends up at the end of one window, its delivery at the same place.
/// The inputs that were gathered before stay where they were, and slots stay valid: inputs and
/// deliveries stay aligned, and no window grows over its size.
pub proof fn join_gathers_every_input<X, I, D, O>(
    slot: SlotState<X, I, D, O>,
    same: bool,
    awaited: bool,
    executor: X,
    policy: BatchPolicy,
    options: Option<O>,
    input: I,
    delivery: D,
    event: Event,
    id: u64,
)
    requires
        slot.valid(),
        slot.next < u64::MAX,
    ensures
        ({
            let after = slot.join(same, awaited, executor, policy, options, input, delivery, event);
            let home = slot.goes_to(same, awaited);
            &&& after.valid()
            &&& after.windows.dom().contains(home)
            &&& after.windows[home].inputs.last() == input
            &&& after.windows[home].deliveries.last() == delivery
            &&& slot.windows.dom().contains(id) ==> after.windows.dom().contains(id)
            &&& slot.windows.dom().contains(id) && id != home ==> after.windows[id].inputs
                == slot.windows[id].inputs && after.windows[id].deliveries
                == slot.windows[id].deliveries
            &&& slot.windows.dom().contains(id) && id == home
                ==> after.windows[id].inputs.drop_last() =~= slot.windows[id].inputs
                && after.windows[id].deliveries.drop_last() =~= slot.windows[id].deliveries
        }),
{
}

/// A sealed window stays sealed and takes no more inputs.
pub proof fn sealed_window_never_grows<X, I, D, O>(
    slot: SlotState<X, I, D, O>,
    same: bool,
    awaited: bool,
    executor: X,
    policy: BatchPolicy,
    options: Option<O>,
    input: I,
    delivery: D,
    event: Event,
    id: u64,
)
    requires
        slot.valid(),
        slot.next < u64::MAX,
        slot.windows.dom().contains(id),
        slot.windows[id].sealed,
    ensures
        slot.goes_to(same, awaited) != id,
        slot.join(same, awaited, executor, policy, options, input, delivery, event).windows[id]
            == slot.windows[id],
{
}

/// An input with other queue options seals the open window and opens another one.
pub proof fn other_options_open_another_window<X, I, D, O>(
    slot: SlotState<X, I, D, O>,
    awaited: bool,
    executor: X,
    policy: BatchPolicy,
    options: Option<O>,
    input: I,
    delivery: D,
    event: Event,
)
    requires
        slot.valid(),
        slot.next < u64::MAX,
        slot.open is Some,
    ensures
        ({
            let after = slot.join(false, awaited, executor, policy, options, input, delivery, event);
            let id = slot.open->0.id;
            &&& slot.goes_to(false, awaited) != id
            &&& !after.is_open(id)
            &&& slot.windows.dom().contains(id) ==> after.windows[id].sealed
        }),
{
}

/// The inputs that come with the same queue options while somebody waits for the queue's answer
/// gather in one window until it is full: the first opens it, and none of the others does.
pub proof fn pending_inputs_share_a_window<X, I, D, O>(
    slot: SlotState<X, I, D, O>,
    executor: X,
    policy: BatchPolicy,
    options: Option<O>,
    input: I,
    delivery: D,
    event: Event,
)
    requires
        slot.valid(),
        slot.next < u64::MAX,
        policy.max_size > 1,
    ensures
        ({
            let after = slot.opened(executor, policy, options, input, delivery, event);
            &&& after.joins(true, true)
            &&& after.goes_to(true, true) == slot.next
            &&& after.accept(slot.next as u64).joins(true, false)
        }),
{
}

/// The input that fills a window is the last to join it: the next one opens another.
pub proof fn full_window_is_replaced<X, I, D, O>(
    slot: SlotState<X, I, D, O>,
    input: I,
    delivery: D,
    same: bool,
    awaited: bool,
)
    requires
        slot.valid(),
        slot.joins(true, true),
        slot.windows[slot.open->0.id].inputs.len() + 1 >= slot.windows[slot.open->0.id].policy.max_size,
    ensures
        ({
            let after = slot.pushed(input, delivery);
            &&& after.open is None
            &&& after.windows[slot.open->0.id].sealed
            &&& !after.joins(same, awaited)
            &&& after.goes_to(same, awaited) != slot.open->0.id
        }),
{
}

/// What becomes of a window that inputs no longer join does not touch the one that replaced it:
/// neither a refusal nor the end of waiting nor an acceptance.
pub proof fn answers_reach_only_their_window<X, I, D, O>(slot: SlotState<X, I, D, O>, id: u64)
    requires
        !slot.is_open(id),
    ensures
        slot.evict(id) == slot,
        slot.abandon(id) == slot,
        slot.accept(id) == slot,
{
}

/// A window that the queue took needs nobody to wait for it: inputs go on joining it. One that
/// is given up before the queue's answer, or refused, is joined by none.
pub proof fn acceptance_outlives_its_waiters<X, I, D, O>(
    slot: SlotState<X, I, D, O>,
    id: u64,
    same: bool,
    awaited: bool,
)
    requires
        slot.valid(),
        slot.is_open(id),
    ensures
        slot.accept(id).abandon(id) == slot.accept(id),
        slot.open->0.pending ==> !slot.abandon(id).joins(same, awaited),
        !slot.evict(id).joins(same, awaited),
        slot.evict(id).windows == slot.windows,
{
}

/// No input joins a window that was taken out to be run.
pub proof fn taken_window_is_left_alone<X, I, D, O>(
    slot: SlotState<X, I, D, O>,
    id: u64,
    same: bool,
    awaited: bool,
)
    requires
        slot.valid(),
        id < slot.next,
        slot.next < u64::MAX,
    ensures
        slot.seal(id).valid(),
        !slot.seal(id).windows.dom().contains(id),
        slot.seal(id).goes_to(same, awaited) != id,
{
}

/// What a window takes of several inputs are the first of them, in order.
proof fn lemma_window_takes<X, I, D>(window: WindowState<X, I, D>, members: Seq<(I, D)>)
    ensures
        0 <= window.takes(members) <= members.len(),
        !window.offers(members).sealed ==> window.takes(members) == members.len(),
        window.offers(members).inputs == window.inputs + members.take(
            window.takes(members),
        ).map_values(|member: (I, D)| member.0),
        window.offers(members).deliveries == window.deliveries + members.take(
            window.takes(members),
        ).map_values(|member: (I, D)| member.1),
        window.sealed ==> window.offers(members) == window && window.takes(members) == 0,
    decreases members.len(),
{
    if members.len() > 0 {
        let most = members.drop_last();
        lemma_window_takes(window, most);
        let n = window.takes(members);
        assert(members.take(window.takes(most)) =~= most.take(window.takes(most)));
        if !window.offers(most).sealed {
            assert(members.take(n) =~= most.take(n - 1).push(members.last()));
        }
    }
    assert(window.offers(members).inputs =~= window.inputs + members.take(
        window.takes(members),
    ).map_values(|member: (I, D)| member.0));
    assert(window.offers(members).deliveries =~= window.deliveries + members.take(
        window.takes(members),
    ).map_values(|member: (I, D)| member.1));
}

/// What is taken out of a window is its first member and then those whose inputs it took, in
/// order, each input at the same place as its delivery. It takes inputs until it is sealed, and
/// nobody is handed out twice: after that it takes none and there is nothing to take out.
pub proof fn seal_hands_out_every_member_once<X, I, D>(
    executor: X,
    policy: BatchPolicy,
    first: (I, D),
    members: Seq<(I, D)>,
    later: Seq<(I, D)>,
    event: Event,
)
    ensures
        ({
            let opened = WindowState::opened(executor, policy, first.0, first.1, event);
            let n = opened.takes(members);
            let window = opened.offers(members);
            let all = seq![first] + members.take(n);
            &&& 0 <= n <= members.len()
            &&& n < members.len() ==> window.sealed
            &&& window.inputs == all.map_values(|member: (I, D)| member.0)
            &&& window.deliveries == all.map_values(|member: (I, D)| member.1)
            &&& window.seal().sealed
            &&& window.seal().offers(later) == window.seal()
            &&& window.seal().takes(later) == 0
            &&& window.seal().inputs.len() == 0
            &&& window.seal().deliveries.len() == 0
            &&& window.seal().seal() == window.seal()
        }),
{
    let opened = WindowState::opened(executor, policy, first.0, first.1, event);
    let n = opened.takes(members);
    let window = opened.offers(members);
    let all = seq![first] + members.take(n);
    lemma_window_takes(opened, members);
    lemma_window_takes(window.seal(), later);
    assert(window.inputs =~= all.map_values(|member: (I, D)| member.0));
    assert(window.deliveries =~= all.map_values(|member: (I, D)| member.1));
    assert(window.seal().seal() =~= window.seal());
}

/// A window takes as many inputs as fill it, and one where it is made for less: those that come
/// first, in order, each with its delivery at the same place. It is sealed by the input that fills
/// it, and by no other.
pub proof fn window_is_sealed_by_the_input_that_fills_it<X, I, D>(
    executor: X,
    policy: BatchPolicy,
    first: (I, D),
    members: Seq<(I, D)>,
    event: Event,
)
    ensures
        ({
            let window = WindowState::opened(executor, policy, first.0, first.1, event).offers(
                members,
            );
            let n = window.inputs.len() as int;
            &&& n == members.len() + 1 || (n <= members.len() && (n == policy.max_size || n == 1
                && policy.max_size <= 1))
            &&& n <= policy.max_size || n == 1
            &&& window.sealed <==> n >= policy.max_size
            &&& window.deliveries.len() == n
            &&& window.inputs[0] == first.0
            &&& window.deliveries[0] == first.1
            &&& forall|p: int|
                0 < p < n ==> #[trigger] window.inputs[p] == members[p - 1].0
                    && window.deliveries[p] == members[p - 1].1
            &&& window.executor == executor
            &&& window.policy == policy
            &&& window.signal.event == event
        }),
    decreases members.len(),
{
    if members.len() > 0 {
        let most = members.drop_last();
        window_is_sealed_by_the_input_that_fills_it(executor, policy, first, most, event);
        let before = WindowState::opened(executor, policy, first.0, first.1, event).offers(most);
        let after = before.offer(members.last().0, members.last().1);
        assert forall|p: int| 0 < p < after.inputs.len() implies #[trigger] after.inputs[p]
            == members[p - 1].0 && after.deliveries[p] == members[p - 1].1 by {
            if p < before.inputs.len() {
                assert(before.inputs[p] == most[p - 1].0);
            }
        }
    }
}

/// Sealing a window early, or taking out what it gathered, changes nothing of what was gathered for
/// whom; those who wait for it to be sealed are woken by what seals it early or fills it.
pub proof fn sealing_keeps_what_was_gathered<X, I, D>(
    window: WindowState<X, I, D>,
    input: I,
    delivery: D,
)
    requires
        window.valid(),
    ensures
        window.close().sealed,
        window.close().inputs == window.inputs,
        window.close().deliveries == window.deliveries,
        window.close().executor == window.executor,
        window.close().policy == window.policy,
        window.close().signal.event == window.signal.event,
        window.close().signal.wakes.len() == window.signal.wakes.len() + 1,
        window.close().signal.wakes.last() == usize::MAX,
        window.seal().executor == window.executor,
        window.seal().policy == window.policy,
        window.seal().signal == window.signal,
        ({
            let after = window.push(input, delivery);
            &&& after.inputs.len() == window.inputs.len() + 1
            &&& after.inputs.last() == input
            &&& after.inputs.drop_last() == window.inputs
            &&& after.deliveries.len() == window.deliveries.len() + 1
            &&& after.deliveries.last() == delivery
            &&& after.deliveries.drop_last() == window.deliveries
            &&& after.sealed <==> after.inputs.len() >= window.policy.max_size
            &&& after.signal.event == window.signal.event
            &&& after.sealed ==> after.signal.wakes.len() == window.signal.wakes.len() + 1
                && after.signal.wakes.last() == usize::MAX
            &&& !after.sealed ==> after.signal.wakes == window.signal.wakes
            &&& after.executor == window.executor
            &&& after.policy == window.policy
        }),
{
    let after = window.push(input, delivery);
    assert(after.inputs.drop_last() =~= window.inputs);
    assert(after.deliveries.drop_last() =~= window.deliveries);
}

/// Where an input goes that is offered to a slot: to the window that inputs join, if there is one
/// that takes inputs, that asks the queue for the same, and that the queue took or somebody waits for
/// the answer on. Otherwise it opens a window of its own, under a number that none had before, which
/// is joined from then on unless the input fills it. A window that is not joined any more because an
/// input asked for something else, or because nobody waited, is sealed; all others are left alone.
pub proof fn input_goes_where_it_belongs<X, I, D, O>(
    slot: SlotState<X, I, D, O>,
    same: bool,
    awaited: bool,
    executor: X,
    policy: BatchPolicy,
    options: Option<O>,
    input: I,
    delivery: D,
    event: Event,
    other: u64,
)
    requires
        slot.valid(),
        slot.next < u64::MAX,
    ensures
        ({
            let after = slot.join(same, awaited, executor, policy, options, input, delivery, event);
            let open = slot.open;
            let id = open->0.id;
            let joined = open is Some && same && (!open->0.pending || awaited)
                && slot.windows.dom().contains(id);
            let own = slot.next as u64;
            if joined {
                let (was, now) = (slot.windows[id], after.windows[id]);
                &&& !was.sealed
                &&& after.next == slot.next
                &&& after.windows.dom() =~= slot.windows.dom()
                &&& now.inputs == was.inputs.push(input)
                &&& now.deliveries == was.deliveries.push(delivery)
                &&& now.executor == was.executor
                &&& now.policy == was.policy
                &&& now.sealed <==> now.inputs.len() >= was.policy.max_size
                &&& after.open == if now.sealed {
                    None
                } else {
                    open
                }
                &&& slot.windows.dom().contains(other) && other != id ==> after.windows[other]
                    == slot.windows[other]
            } else {
                let now = after.windows[own];
                &&& !slot.windows.dom().contains(own)
                &&& after.next == slot.next + 1
                &&& after.windows.dom() =~= slot.windows.dom().insert(own)
                &&& now.inputs == seq![input]
                &&& now.deliveries == seq![delivery]
                &&& now.executor == executor
                &&& now.policy == policy
                &&& now.sealed <==> policy.max_size <= 1
                &&& now.signal.event == event
                &&& now.sealed ==> after.open is None
                &&& !now.sealed ==> {
                    &&& after.open is Some
                    &&& after.open->0.id == own
                    &&& after.open->0.options == options
                    &&& after.open->0.pending
                }
                &&& slot.windows.dom().contains(other) ==> {
                    let (was, left) = (slot.windows[other], after.windows[other]);
                    let displaced = open is Some && other == id && (!same || (open->0.pending
                        && !awaited));
                    &&& left.inputs == was.inputs
                    &&& left.deliveries == was.deliveries
                    &&& left.executor == was.executor
                    &&& left.policy == was.policy
                    &&& displaced ==> left.sealed
                    &&& !displaced ==> left == was
                }
            }
        }),
{
}

/// What one whose input was offered is told: the number of the window that it is in, and whether the
/// queue has not answered for that yet, or that it opened a window, and what to ask the queue for.
/// Two inputs ask for the same if neither asks for anything or `==` says so.
pub proof fn caller_is_told_where_its_input_is<X, I, D, O: Clone + PartialEqSpec>(
    slot: SlotState<X, I, D, O>,
    same: bool,
    awaited: bool,
    options: Option<O>,
    joined: Joined<O>,
)
    requires
        slot.valid(),
        slot.open is Some ==> same_options(slot.open->0.options, options, same),
        says(slot, same, awaited, options, joined),
        0 <= slot.next <= u64::MAX,
    ensures
        slot.open is Some && slot.open->0.options is None && options is None ==> same,
        slot.open is Some && (slot.open->0.options is None) != (options is None) ==> !same,
        slot.open is Some && slot.open->0.options is Some && options is Some && O::obeys_eq_spec()
            ==> same == slot.open->0.options->0.eq_spec(&options->0),
        match joined {
            Joined::Existing { window, pending } => {
                &&& slot.open is Some
                &&& same
                &&& window == slot.open->0.id
                &&& pending == slot.open->0.pending
                &&& slot.windows.dom().contains(window)
                &&& !slot.windows[window].sealed
                &&& pending ==> awaited
            },
            Joined::Opened { window, options: asked } => {
                &&& window == slot.next
                &&& asked is Some <==> options is Some
                &&& options is Some ==> cloned(options->0, asked->0)
                &&& slot.open is None || !same || (slot.open->0.pending && !awaited)
                    || !slot.windows.dom().contains(slot.open->0.id)
            },
        },
{
}

/// What the queue's answer on a window, the end of waiting for it, and its being taken out do: an
/// answer concerns only the window that inputs join, and moves nothing that was gathered. A window
/// that was taken out is gone, and no other is.
pub proof fn answers_move_nothing_that_was_gathered<X, I, D, O>(
    slot: SlotState<X, I, D, O>,
    id: u64,
)
    ensures
        slot.accept(id).windows == slot.windows,
        slot.abandon(id).windows == slot.windows,
        slot.evict(id).windows == slot.windows,
        slot.accept(id).next == slot.next,
        slot.abandon(id).next == slot.next,
        slot.evict(id).next == slot.next,
        slot.seal(id).next == slot.next,
        slot.seal(id).open == slot.open,
        slot.seal(id).windows == slot.windows.remove(id),
        slot.open is None || slot.open->0.id != id ==> {
            &&& slot.accept(id).open == slot.open
            &&& slot.abandon(id).open == slot.open
            &&& slot.evict(id).open == slot.open
        },
        slot.open is Some && slot.open->0.id == id ==> {
            &&& slot.accept(id).open is Some
            &&& slot.accept(id).open->0.id == id
            &&& slot.accept(id).open->0.options == slot.open->0.options
            &&& !slot.accept(id).open->0.pending
            &&& slot.evict(id).open is None
            &&& slot.open->0.pending ==> slot.abandon(id).open is None
            &&& !slot.open->0.pending ==> slot.abandon(id).open == slot.open
        },
        SlotState::<X, I, D, O>::empty().open is None,
        SlotState::<X, I, D, O>::empty().windows.dom().len() == 0,
        SlotState::<X, I, D, O>::empty().next == 0,
{
}

/// An input that was offered is at the end of the window that the caller is told of, with its
/// delivery at the same place. That is the window that inputs joined before exactly if it asked the
/// queue for the same, took inputs, and was taken by the queue or waited for; otherwise it is a new
/// one of the executor and the policy that were given. No other input moved, and whoever waits for a
/// window that was sealed by this was woken.
pub proof fn offered_input_is_where_the_caller_is_told<X, I, D, O: Clone + PartialEqSpec>(
    before: SlotState<X, I, D, O>,
    awaited: bool,
    executor: X,
    policy: BatchPolicy,
    options: Option<O>,
    input: I,
    delivery: D,
    after: SlotState<X, I, D, O>,
    joined: Joined<O>,
    other: u64,
)
    requires
        before.valid(),
        before.next < u64::MAX,
        O::obeys_eq_spec(),
        offered(before, awaited, executor, policy, options, input, delivery, after, joined),
    ensures
        ({
            let home = match joined {
                Joined::Existing { window, pending: _ } => window,
                Joined::Opened { window, options: _ } => window,
            };
            let open = before.open;
            let alike = open is Some && match (open->0.options, options) {
                (None, None) => true,
                (Some(own), Some(asked)) => own.eq_spec(&asked),
                _ => false,
            };
            let takes = alike && (!open->0.pending || awaited) && before.windows.dom().contains(
                open->0.id,
            );
            &&& joined is Existing <==> takes
            &&& after.windows.dom().contains(home)
            &&& after.windows[home].inputs.last() == input
            &&& after.windows[home].deliveries.last() == delivery
            &&& joined matches Joined::Existing { window, pending } ==> {
                &&& window == open->0.id
                &&& pending == open->0.pending
                &&& after.windows[window].inputs.drop_last() == before.windows[window].inputs
                &&& after.windows[window].deliveries.drop_last()
                    == before.windows[window].deliveries
                &&& after.next == before.next
            }
            &&& joined matches Joined::Opened { window, options: asked } ==> {
                &&& window == before.next
                &&& asked is Some <==> options is Some
                &&& options is Some ==> cloned(options->0, asked->0)
                &&& after.windows[window].inputs.len() == 1
                &&& after.windows[window].deliveries.len() == 1
                &&& after.windows[window].executor == executor
                &&& after.windows[window].policy == policy
                &&& after.next == before.next + 1
                &&& policy.max_size > 1 ==> {
                    &&& after.open is Some
                    &&& after.open->0.id == window
                    &&& after.open->0.options == options
                }
                &&& policy.max_size <= 1 ==> after.open is None && after.windows[window].sealed
            }
            &&& before.windows.dom().contains(other) ==> after.windows.dom().contains(other)
            &&& before.windows.dom().contains(other) && other != home ==> {
                &&& after.windows[other].inputs == before.windows[other].inputs
                &&& after.windows[other].deliveries == before.windows[other].deliveries
                &&& after.windows[other].sealed <==> before.windows[other].sealed || (open is Some
                    && open->0.id == other && (!alike || (open->0.pending && !awaited)))
            }
            &&& before.windows.dom().contains(other) && !before.windows[other].sealed
                && after.windows[other].sealed ==> notified(
                before.windows[other].signal.event,
                usize::MAX,
            )
        }),
{
    let same = choose|same: bool|
        {
            &&& before.open is Some ==> same_options(before.open->0.options, options, same)
            &&& after == before.join(
                same,
                awaited,
                executor,
                policy,
                options,
                input,
                delivery,
                after.windows[before.goes_to(same, awaited)].signal.event,
            )
            &&& before.woken(after)
            &&& #[trigger] says(before, same, awaited, options, joined)
        };
    if before.joins(same, awaited) {
        let id = before.open->0.id;
        assert(after.windows[id].inputs.drop_last() =~= before.windows[id].inputs);
        assert(after.windows[id].deliveries.drop_last() =~= before.windows[id].deliveries);
    }
}

} // verus!
