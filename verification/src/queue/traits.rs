//! What the queues have in common.

use event_listener::{Event, EventListener};
use futures::channel::oneshot;
use vstd::prelude::*;

use crate::channel::{handed, paired};
use crate::queue::error::Error;
use crate::signal::{listens, notified, SignalState};

pub use crate::queue::room::Enqueued;

verus! {

/// What a queue is, as a mathematical value.
#[verifier::ext_equal]
pub struct QueueState<T> {
    /// The items, in the order in which they are handed out.
    pub items: Seq<T>,
    /// Whether the queue takes no more items.
    pub closed: bool,
    /// How many items the queue has room for.
    pub capacity: int,
    /// Those who enqueued more than the queue has room for and wait for it, first come first.
    pub waiting: Seq<oneshot::Sender<()>>,
    /// The event that those who wait for an item listen to, and the wake-ups that were sent.
    pub signal: SignalState,
}

impl<T> QueueState<T> {
    /// A queue that was just made.
    pub open spec fn fresh(capacity: int, event: Event) -> Self {
        QueueState {
            items: Seq::empty(),
            closed: false,
            capacity,
            waiting: Seq::empty(),
            signal: SignalState::fresh(event),
        }
    }

    /// What holds of every queue: as many wait for room as there are items too many.
    pub open spec fn valid(self) -> bool {
        &&& 0 <= self.capacity
        &&& self.waiting.len() == if self.items.len() > self.capacity {
            self.items.len() - self.capacity
        } else {
            0
        }
    }

    /// Whether the queue has room for one more item.
    pub open spec fn has_room(self) -> bool {
        self.items.len() < self.capacity
    }

    /// How many items the queue has and has room for.
    pub open spec fn length(self) -> int {
        if self.items.len() > self.capacity {
            self.capacity
        } else {
            self.items.len() as int
        }
    }

    /// The queue after it took an item that is handed out after `place` others. Somebody who
    /// waits for an item is woken for it.
    pub open spec fn enqueue(self, place: int, item: T) -> Self {
        QueueState { items: self.items.insert(place, item), signal: self.signal.wake(1), ..self }
    }

    /// The queue after somebody began to wait for room.
    pub open spec fn wait(self, waiter: oneshot::Sender<()>) -> Self {
        QueueState { waiting: self.waiting.push(waiter), ..self }
    }

    /// The queue after it handed out an item. The first who waits for room goes on, and somebody
    /// who waits for an item is woken if there are more.
    pub open spec fn dequeue(self) -> Self {
        if self.items.len() == 0 {
            self
        } else {
            QueueState {
                items: self.items.skip(1),
                waiting: if self.waiting.len() > 0 {
                    self.waiting.skip(1)
                } else {
                    self.waiting
                },
                signal: if self.items.len() > 1 {
                    self.signal.wake(1)
                } else {
                    self.signal
                },
                ..self
            }
        }
    }

    /// The queue after it was closed. Everybody who waits for an item is woken.
    pub open spec fn close(self) -> Self {
        QueueState { closed: true, signal: self.signal.wake(usize::MAX), ..self }
    }
}

/// What came of asking for an item.
pub enum Dequeued<T> {
    /// An item.
    Item(T),
    /// Nothing: the queue is empty and takes no more items.
    Closed,
    /// Nothing yet: ask again when this wakes.
    Wait(EventListener),
}

/// A queue of items.
pub trait Queue: Sized {
    /// What the queue holds.
    type Item;

    /// What an item can ask the queue for.
    type Options;

    /// What the queue is, as a mathematical value.
    spec fn state(&self) -> QueueState<Self::Item>;

    /// What holds of every queue of this type.
    spec fn valid(&self) -> bool;

    /// After how many others an item with these options would be handed out.
    spec fn place(&self, options: Option<Self::Options>) -> int;

    /// Enqueues an item. Only a closed queue refuses it; one without room keeps the caller waiting
    /// and does not count the item until another was handed out.
    fn enqueue(&mut self, item: Self::Item, options: Option<Self::Options>) -> (enqueued: Result<
        Enqueued,
        Error,
    >)
        requires
            old(self).valid(),
        ensures
            final(self).valid(),
            old(self).state().closed ==> {
                &&& enqueued == Err::<Enqueued, Error>(Error::Closed)
                &&& final(self).state() == old(self).state()
            },
            !old(self).state().closed ==> {
                &&& enqueued is Ok
                &&& 0 <= old(self).place(options) <= old(self).state().items.len()
                &&& notified(old(self).state().signal.event, 1)
                &&& match enqueued->Ok_0 {
                    Enqueued::Done => {
                        &&& old(self).state().has_room()
                        &&& final(self).state() == old(self).state().enqueue(
                            old(self).place(options),
                            item,
                        )
                    },
                    Enqueued::Wait(receiver) => {
                        let waiter = final(self).state().waiting.last();
                        &&& !old(self).state().has_room()
                        &&& paired(waiter, receiver)
                        &&& final(self).state() == old(self).state().enqueue(
                            old(self).place(options),
                            item,
                        ).wait(waiter)
                    },
                }
            },
    ;

    /// Asks for the next item.
    fn dequeue(&mut self) -> (dequeued: Result<Dequeued<Self::Item>, Error>)
        requires
            old(self).valid(),
        ensures
            final(self).valid(),
            final(self).state() == old(self).state().dequeue(),
            dequeued is Ok,
            if old(self).state().items.len() > 0 {
                dequeued->Ok_0 == Dequeued::Item(old(self).state().items[0])
            } else if old(self).state().closed {
                dequeued->Ok_0 is Closed
            } else {
                &&& dequeued->Ok_0 is Wait
                &&& listens(old(self).state().signal.event, dequeued->Ok_0->Wait_0)
            },
            old(self).state().items.len() > 0 && old(self).state().waiting.len() > 0 ==> handed(
                old(self).state().waiting[0],
                (),
            ),
            old(self).state().items.len() > 1 ==> notified(old(self).state().signal.event, 1),
    ;

    /// The number of items that the queue has and has room for.
    fn len(&self) -> (len: usize)
        requires
            self.valid(),
        ensures
            len == self.state().length(),
    ;

    /// Closes the queue: it takes no more items, and hands out those that it has.
    fn close(&mut self) -> (closed: Result<(), Error>)
        requires
            old(self).valid(),
        ensures
            final(self).valid(),
            closed is Ok,
            final(self).state() == old(self).state().close(),
            notified(old(self).state().signal.event, usize::MAX),
    ;
}

impl<T> QueueState<T> {
    /// The queue after it was asked for an item `n` times.
    pub open spec fn dequeues(self, n: nat) -> Self
        decreases n,
    {
        if n == 0 {
            self
        } else {
            self.dequeues((n - 1) as nat).dequeue()
        }
    }
}

/// A queue hands out its items in order, one at a time, and closing it changes nothing about
/// that: everything that was enqueued before is still handed out.
pub proof fn queue_hands_out_in_order<T>(state: QueueState<T>, n: nat)
    requires
        n <= state.items.len(),
    ensures
        state.dequeues(n).items == state.items.skip(n as int),
        state.dequeues(n).closed == state.closed,
        state.close().dequeues(n).items == state.items.skip(n as int),
        state.close().dequeues(n).closed,
    decreases n,
{
    if n > 0 {
        queue_hands_out_in_order(state, (n - 1) as nat);
        assert(state.items.skip(n as int) =~= state.items.skip(n - 1).skip(1));
    } else {
        assert(state.items.skip(0) =~= state.items);
        assert(state.close().items.skip(0) =~= state.close().items);
    }
}

/// As long as there is an item to hand out, the last thing that happened to a queue that is not
/// closed has sent a wake-up: an enqueue, or a dequeue that left an item behind.
pub proof fn waiting_item_was_announced<T>(state: QueueState<T>, place: int, item: T)
    requires
        0 <= place <= state.items.len(),
    ensures
        state.enqueue(place, item).items.len() > 0,
        state.enqueue(place, item).signal.wakes.len() == state.signal.wakes.len() + 1,
        state.dequeue().items.len() > 0 ==> state.dequeue().signal.wakes.len()
            == state.signal.wakes.len() + 1,
        state.close().signal.wakes.last() == usize::MAX,
{
}

/// A queue never has room for more than its capacity: of the items in it, as many are waited for
/// as exceed the capacity, and the others are those that it counts. An item for which there was
/// no room is counted once another was handed out.
pub proof fn queue_counts_what_it_has_room_for<T>(
    state: QueueState<T>,
    place: int,
    item: T,
    waiter: oneshot::Sender<()>,
)
    requires
        state.valid(),
        0 <= place <= state.items.len(),
    ensures
        state.length() <= state.capacity,
        state.length() + state.waiting.len() == state.items.len(),
        state.has_room() ==> {
            &&& state.waiting.len() == 0
            &&& state.enqueue(place, item).valid()
            &&& state.enqueue(place, item).length() == state.length() + 1
        },
        !state.has_room() ==> {
            &&& state.enqueue(place, item).wait(waiter).valid()
            &&& state.enqueue(place, item).wait(waiter).length() == state.length()
            &&& state.enqueue(place, item).wait(waiter).dequeue().length() == state.length()
        },
        state.dequeue().valid(),
{
}

/// The number of items that a queue counts, and whether it has room for another, by what it holds:
/// no more are counted than there is room for, and all are as long as there is.
pub proof fn capacity_is_a_limit<T>(state: QueueState<T>)
    requires
        0 <= state.capacity,
    ensures
        state.has_room() <==> state.items.len() < state.capacity,
        state.length() <= state.capacity,
        state.length() <= state.items.len(),
        state.length() == state.capacity || state.length() == state.items.len(),
        state.has_room() ==> state.length() == state.items.len(),
{
}

/// What can be done with a queue.
pub enum QueueOp<T, O> {
    /// Enqueue an item.
    Enqueue {
        /// The item.
        item: T,
        /// What it asks the queue for.
        options: Option<O>,
    },
    /// Ask for an item.
    Dequeue,
    /// Close the queue.
    Close,
}

/// Whether a queue goes from `before` to `after` when this is done with it.
pub open spec fn performs<Q: Queue>(
    before: Q,
    op: QueueOp<Q::Item, Q::Options>,
    after: Q,
) -> bool {
    &&& before.valid()
    &&& after.valid()
    &&& match op {
        QueueOp::Enqueue { item, options } => if before.state().closed {
            after.state() == before.state()
        } else {
            &&& 0 <= before.place(options) <= before.state().items.len()
            &&& {
                let taken = before.state().enqueue(before.place(options), item);
                if before.state().has_room() {
                    after.state() == taken
                } else {
                    after.state() == taken.wait(after.state().waiting.last())
                }
            }
        },
        QueueOp::Dequeue => after.state() == before.state().dequeue(),
        QueueOp::Close => after.state() == before.state().close(),
    }
}

/// Whether this is the history of a queue that was empty and open at first: what was done with it,
/// and what it was before that and after each.
pub open spec fn is_history<Q: Queue>(
    queues: Seq<Q>,
    ops: Seq<QueueOp<Q::Item, Q::Options>>,
) -> bool {
    &&& queues.len() == ops.len() + 1
    &&& queues[0].state().items.len() == 0
    &&& !queues[0].state().closed
    &&& forall|k: int|
        #![trigger ops[k]]
        0 <= k < ops.len() ==> performs(queues[k], ops[k], queues[k + 1])
}

/// By which of the first `n` things that were done with a queue its items came, in the order in
/// which they are handed out.
pub open spec fn arrivals<Q: Queue>(
    queues: Seq<Q>,
    ops: Seq<QueueOp<Q::Item, Q::Options>>,
    n: int,
) -> Seq<int>
    decreases n,
{
    if n <= 0 {
        Seq::empty()
    } else {
        let before = arrivals(queues, ops, n - 1);
        match ops[n - 1] {
            QueueOp::Enqueue { item: _, options } => if queues[n - 1].state().closed {
                before
            } else {
                before.insert(queues[n - 1].place(options), n - 1)
            },
            QueueOp::Dequeue => if before.len() > 0 {
                before.skip(1)
            } else {
                before
            },
            QueueOp::Close => before,
        }
    }
}

/// A queue holds what was enqueued and not handed out yet, and nothing else. Enqueuing adds the item
/// and moves no other, asking for one takes the first away, and closing changes nothing of them. A
/// queue is closed once somebody closed it, takes no item then, and its capacity never changes.
pub proof fn queue_holds_what_came_and_did_not_leave<Q: Queue>(
    queues: Seq<Q>,
    ops: Seq<QueueOp<Q::Item, Q::Options>>,
    n: int,
)
    requires
        is_history(queues, ops),
        0 <= n <= ops.len(),
    ensures
        ({
            let held = arrivals(queues, ops, n);
            let items = queues[n].state().items;
            &&& held.len() == items.len()
            &&& forall|a: int|
                #![trigger held[a]]
                0 <= a < held.len() ==> {
                    &&& 0 <= held[a] < n
                    &&& ops[held[a]] is Enqueue
                    &&& ops[held[a]]->item == items[a]
                }
            &&& queues[n].state().capacity == queues[0].state().capacity
            &&& queues[n].state().closed <==> exists|k: int|
                0 <= k < n && (#[trigger] ops[k]) is Close
        }),
        n > 0 ==> {
            let before = queues[n - 1].state().items;
            let after = queues[n].state().items;
            match ops[n - 1] {
                QueueOp::Enqueue { item, options: _ } => if queues[n - 1].state().closed {
                    after == before
                } else {
                    exists|place: int|
                        0 <= place < after.len() && #[trigger] after[place] == item
                            && after.remove(place) == before
                },
                QueueOp::Dequeue => if before.len() > 0 {
                    after == before.drop_first()
                } else {
                    after == before
                },
                QueueOp::Close => after == before,
            }
        },
    decreases n,
{
    if n > 0 {
        queue_holds_what_came_and_did_not_leave(queues, ops, n - 1);
        let op = ops[n - 1];
        let before = queues[n - 1];
        let after = queues[n];
        assert(performs(before, op, after));
        if queues[n].state().closed {
            if op is Close {
                assert(ops[n - 1] is Close);
            } else {
                let k = choose|k: int| 0 <= k < n - 1 && (#[trigger] ops[k]) is Close;
                assert(ops[k] is Close);
            }
        }
        let held = arrivals(queues, ops, n);
        let earlier = arrivals(queues, ops, n - 1);
        match op {
            QueueOp::Enqueue { item, options } => {
                if !before.state().closed {
                    let place = before.place(options);
                    assert(after.state().items[place] == item);
                    assert(after.state().items.remove(place) =~= before.state().items);
                    assert forall|a: int| #![trigger held[a]] 0 <= a < held.len() implies {
                        &&& 0 <= held[a] < n
                        &&& ops[held[a]] is Enqueue
                        &&& ops[held[a]]->item == after.state().items[a]
                    } by {
                        if a < place {
                            assert(held[a] == earlier[a]);
                        } else if a > place {
                            assert(held[a] == earlier[a - 1]);
                        }
                    }
                }
            },
            QueueOp::Dequeue => {
                if before.state().items.len() > 0 {
                    assert(before.state().items.skip(1) =~= before.state().items.drop_first());
                    assert forall|a: int| #![trigger held[a]] 0 <= a < held.len() implies {
                        &&& 0 <= held[a] < n
                        &&& ops[held[a]] is Enqueue
                        &&& ops[held[a]]->item == after.state().items[a]
                    } by {
                        assert(held[a] == earlier[a + 1]);
                    }
                }
            },
            QueueOp::Close => {},
        }
    }
}

/// A queue that was just made is open and empty, has room for what it was asked to have room for,
/// and nobody waits. Those who wait for room go on in the order in which they came, one for each
/// item that is handed out, and closing a queue makes nobody go on.
pub proof fn those_who_wait_for_room_go_on_in_turn<T>(
    capacity: int,
    event: Event,
    state: QueueState<T>,
    place: int,
    item: T,
    waiter: oneshot::Sender<()>,
)
    requires
        0 <= place <= state.items.len(),
    ensures
        ({
            let fresh = QueueState::<T>::fresh(capacity, event);
            &&& fresh.items.len() == 0
            &&& fresh.waiting.len() == 0
            &&& !fresh.closed
            &&& fresh.capacity == capacity
            &&& fresh.signal.event == event
            &&& fresh.signal.wakes.len() == 0
        }),
        state.enqueue(place, item).waiting == state.waiting,
        state.enqueue(place, item).wait(waiter).waiting.last() == waiter,
        state.enqueue(place, item).wait(waiter).waiting.drop_last() == state.waiting,
        state.enqueue(place, item).wait(waiter).items == state.enqueue(place, item).items,
        state.items.len() > 0 && state.waiting.len() > 0 ==> state.dequeue().waiting
            == state.waiting.drop_first(),
        state.items.len() == 0 || state.waiting.len() == 0 ==> state.dequeue().waiting
            == state.waiting,
        state.close().waiting == state.waiting,
        state.close().closed,
        state.enqueue(place, item).signal.event == state.signal.event,
        state.dequeue().signal.event == state.signal.event,
        state.close().signal.event == state.signal.event,
        state.wait(waiter).signal == state.signal,
        state.wait(waiter).closed == state.closed,
        state.wait(waiter).capacity == state.capacity,
{
    assert(state.enqueue(place, item).wait(waiter).waiting.drop_last() =~= state.waiting);
    if state.waiting.len() > 0 {
        assert(state.waiting.skip(1) =~= state.waiting.drop_first());
    }
}

} // verus!
