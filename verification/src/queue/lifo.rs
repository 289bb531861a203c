//! A queue that hands out first what came last.

use std::collections::VecDeque;

use vstd::prelude::*;

use crate::queue::error::Error;
use crate::queue::room::Room;
use crate::queue::traits::{
    arrivals, is_history, performs, queue_holds_what_came_and_did_not_leave, Dequeued, Enqueued, Queue,
    QueueOp, QueueState,
};
use crate::signal::Signal;

verus! {

/// A queue that hands out first what came last. It keeps those who enqueue more than it has room
/// for waiting, first come first served.
#[verifier::reject_recursive_types(T)]
pub struct LifoQueue<T> {
    items: VecDeque<T>,
    room: Room,
    closed: bool,
    notify: Signal,
}

impl<T> LifoQueue<T> {
    /// How many items the queue has room for.
    pub open spec fn capacity(&self) -> int {
        self.state().capacity
    }

    /// A queue that has room for `max_capacity` items.
    pub fn new(max_capacity: usize) -> (queue: Self)
        ensures
            queue.valid(),
            queue.state() == QueueState::<T>::fresh(
                max_capacity as int,
                queue.state().signal.event,
            ),
            queue.capacity() == max_capacity,
    {
        let queue = LifoQueue {
            items: VecDeque::new(),
            room: Room::new(max_capacity),
            closed: false,
            notify: Signal::new(),
        };
        assert(queue.state().items =~= Seq::<T>::empty());
        queue
    }
}

impl<T> Queue for LifoQueue<T> {
    type Item = T;

    type Options = ();

    closed spec fn state(&self) -> QueueState<T> {
        QueueState {
            items: self.items@.reverse(),
            closed: self.closed,
            capacity: self.room.capacity(),
            waiting: self.room.waiting(),
            signal: self.notify@,
        }
    }

    open spec fn valid(&self) -> bool {
        self.state().valid()
    }

    open spec fn place(&self, options: Option<()>) -> int {
        0
    }

    fn enqueue(&mut self, item: T, _options: Option<()>) -> (enqueued: Result<Enqueued, Error>) {
        if self.closed {
            return Err(Error::closed());
        }
        self.items.push_back(item);
        self.notify.wake(1);
        assert(self.state().items =~= old(self).state().items.insert(0, item));
        Ok(self.room.let_in(self.items.len()))
    }

    fn dequeue(&mut self) -> (dequeued: Result<Dequeued<T>, Error>) {
        match self.items.pop_back() {
            Some(item) => {
                assert(self.items@.reverse() =~= old(self).items@.reverse().skip(1));
                self.room.release();
                if self.items.len() > 0 {
                    self.notify.wake(1);
                }
                Ok(Dequeued::Item(item))
            },
            None => if self.closed {
                Ok(Dequeued::Closed)
            } else {
                Ok(Dequeued::Wait(self.notify.listen()))
            },
        }
    }

    fn len(&self) -> (len: usize) {
        self.room.count(self.items.len())
    }

    fn close(&mut self) -> (closed: Result<(), Error>) {
        self.closed = true;
        self.notify.wake(usize::MAX);
        Ok(())
    }
}

/// A last-in-first-out queue after several items were enqueued, one after the other.
pub open spec fn lifo_enqueues<T>(state: QueueState<T>, items: Seq<T>) -> QueueState<T>
    decreases items.len(),
{
    if items.len() == 0 {
        state
    } else {
        lifo_enqueues(state, items.drop_last()).enqueue(0, items.last())
    }
}

/// Items are handed out in reverse of the order in which they were enqueued.
pub proof fn lifo_reverses_the_order<T>(state: QueueState<T>, items: Seq<T>)
    ensures
        lifo_enqueues(state, items).items == items.reverse() + state.items,
        lifo_enqueues(state, items).closed == state.closed,
    decreases items.len(),
{
    if items.len() > 0 {
        lifo_reverses_the_order(state, items.drop_last());
    }
    assert(lifo_enqueues(state, items).items =~= items.reverse() + state.items);
}

/// Of two items that are in the queue, the one that came last is handed out first, whatever else
/// was enqueued and handed out in the meantime.
pub proof fn last_come_is_first_served<T>(
    queues: Seq<LifoQueue<T>>,
    ops: Seq<QueueOp<T, ()>>,
    n: int,
    a: int,
    b: int,
)
    requires
        is_history(queues, ops),
        0 <= n <= ops.len(),
        0 <= a < b < queues[n].state().items.len(),
    ensures
        ({
            let held = arrivals(queues, ops, n);
            &&& held.len() == queues[n].state().items.len()
            &&& ops[held[a]] is Enqueue && ops[held[a]]->item == queues[n].state().items[a]
            &&& ops[held[b]] is Enqueue && ops[held[b]]->item == queues[n].state().items[b]
            &&& held[b] < held[a] < n
        }),
    decreases n,
{
    queue_holds_what_came_and_did_not_leave(queues, ops, n);
    let held = arrivals(queues, ops, n);
    assert(0 <= held[a] < n && held[b] >= 0);
    if n > 0 {
        queue_holds_what_came_and_did_not_leave(queues, ops, n - 1);
        let earlier = arrivals(queues, ops, n - 1);
        let op = ops[n - 1];
        assert(performs(queues[n - 1], op, queues[n]));
        match op {
            QueueOp::Enqueue { item: _, options } => {
                if queues[n - 1].state().closed {
                    last_come_is_first_served(queues, ops, n - 1, a, b);
                } else if a > 0 {
                    last_come_is_first_served(queues, ops, n - 1, a - 1, b - 1);
                } else {
                    assert(0 <= earlier[b - 1] < n - 1);
                }
            },
            QueueOp::Dequeue => {
                if earlier.len() > 0 {
                    last_come_is_first_served(queues, ops, n - 1, a + 1, b + 1);
                }
            },
            QueueOp::Close => {
                last_come_is_first_served(queues, ops, n - 1, a, b);
            },
        }
    }
}

} // verus!
