//! A queue that hands out first what came first.

use std::collections::VecDeque;

use vstd::prelude::*;

use crate::channel::max_buffer;
use crate::queue::error::Error;
use crate::queue::room::Room;
use crate::queue::traits::{
    arrivals, is_history, performs, queue_holds_what_came_and_did_not_leave, Dequeued, Enqueued, Queue,
    QueueOp, QueueState,
};
use crate::signal::Signal;

verus! {

/// A queue that hands out first what came first. It keeps those who enqueue more than it has room
/// for waiting, first come first served.
#[verifier::reject_recursive_types(T)]
pub struct FifoQueue<T> {
    items: VecDeque<T>,
    room: Room,
    closed: bool,
    arrived: Signal,
}

impl<T> FifoQueue<T> {
    /// How many items the queue has room for.
    pub open spec fn capacity(&self) -> int {
        self.state().capacity
    }

    /// A queue that has room for `max_capacity` items.
    pub fn new(max_capacity: usize) -> (queue: Self)
        requires
            max_capacity < max_buffer(),
        ensures
            queue.valid(),
            queue.state() == QueueState::<T>::fresh(
                max_capacity as int,
                queue.state().signal.event,
            ),
            queue.capacity() == max_capacity,
    {
        FifoQueue {
            items: VecDeque::new(),
            room: Room::new(max_capacity),
            closed: false,
            arrived: Signal::new(),
        }
    }
}

impl<T> Queue for FifoQueue<T> {
    type Item = T;

    type Options = ();

    closed spec fn state(&self) -> QueueState<T> {
        QueueState {
            items: self.items@,
            closed: self.closed,
            capacity: self.room.capacity(),
            waiting: self.room.waiting(),
            signal: self.arrived@,
        }
    }

    open spec fn valid(&self) -> bool {
        self.state().valid()
    }

    open spec fn place(&self, options: Option<()>) -> int {
        self.state().items.len() as int
    }

    fn enqueue(&mut self, item: T, _options: Option<()>) -> (enqueued: Result<Enqueued, Error>) {
        if self.closed {
            return Err(Error::closed());
        }
        self.items.push_back(item);
        self.arrived.wake(1);
        assert(self.state().items =~= old(self).state().items.insert(
            old(self).state().items.len() as int,
            item,
        ));
        Ok(self.room.let_in(self.items.len()))
    }

    fn dequeue(&mut self) -> (dequeued: Result<Dequeued<T>, Error>) {
        match self.items.pop_front() {
            Some(item) => {
                assert(self.items@ =~= old(self).items@.skip(1));
                self.room.release();
                if self.items.len() > 0 {
                    self.arrived.wake(1);
                }
                Ok(Dequeued::Item(item))
            },
            None => if self.closed {
                Ok(Dequeued::Closed)
            } else {
                Ok(Dequeued::Wait(self.arrived.listen()))
            },
        }
    }

    fn len(&self) -> (len: usize) {
        self.room.count(self.items.len())
    }

    fn close(&mut self) -> (closed: Result<(), Error>) {
        self.closed = true;
        self.arrived.wake(usize::MAX);
        Ok(())
    }
}

/// A first-in-first-out queue after several items were enqueued, one after the other.
pub open spec fn fifo_enqueues<T>(state: QueueState<T>, items: Seq<T>) -> QueueState<T>
    decreases items.len(),
{
    if items.len() == 0 {
        state
    } else {
        let most = fifo_enqueues(state, items.drop_last());
        most.enqueue(most.items.len() as int, items.last())
    }
}

/// Items are handed out in the order in which they were enqueued.
pub proof fn fifo_keeps_the_order<T>(state: QueueState<T>, items: Seq<T>)
    ensures
        fifo_enqueues(state, items).items == state.items + items,
        fifo_enqueues(state, items).closed == state.closed,
    decreases items.len(),
{
    if items.len() > 0 {
        fifo_keeps_the_order(state, items.drop_last());
    }
    assert(fifo_enqueues(state, items).items =~= state.items + items);
}

/// Of two items that are in the queue, the one that came first is handed out first, whatever else
/// was enqueued and handed out in the meantime.
pub proof fn first_come_is_first_served<T>(
    queues: Seq<FifoQueue<T>>,
    ops: Seq<QueueOp<T, ()>>,
    n: int,
    a: int,
    b: int,
)
    requires
        is_history(queues, ops),
        0 <= n <= ops.len(),
        0 <= a < b < queues[n].state().items.len(),
    ensures
        ({
            let held = arrivals(queues, ops, n);
            &&& held.len() == queues[n].state().items.len()
            &&& ops[held[a]] is Enqueue && ops[held[a]]->item == queues[n].state().items[a]
            &&& ops[held[b]] is Enqueue && ops[held[b]]->item == queues[n].state().items[b]
            &&& held[a] < held[b] < n
        }),
    decreases n,
{
    queue_holds_what_came_and_did_not_leave(queues, ops, n);
    let held = arrivals(queues, ops, n);
    assert(0 <= held[b] < n && held[a] >= 0);
    if n > 0 {
        queue_holds_what_came_and_did_not_leave(queues, ops, n - 1);
        let earlier = arrivals(queues, ops, n - 1);
        let op = ops[n - 1];
        assert(performs(queues[n - 1], op, queues[n]));
        match op {
            QueueOp::Enqueue { item: _, options } => {
                if b < earlier.len() {
                    first_come_is_first_served(queues, ops, n - 1, a, b);
                } else {
                    assert(0 <= earlier[a] < n - 1);
                }
            },
            QueueOp::Dequeue => {
                if earlier.len() > 0 {
                    first_come_is_first_served(queues, ops, n - 1, a + 1, b + 1);
                }
            },
            QueueOp::Close => {
                first_come_is_first_served(queues, ops, n - 1, a, b);
            },
        }
    }
}

} // verus!
