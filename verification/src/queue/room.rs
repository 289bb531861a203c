//! The room that a queue has, and those who wait for it.

use std::collections::VecDeque;

use futures::channel::oneshot;
use vstd::prelude::*;

use crate::channel::{hand_over, handed, open_oneshot, paired};

verus! {

/// How an item was enqueued.
pub enum Enqueued {
    /// The queue has room for it.
    Done,
    /// The queue has no room for it yet: the enqueue is over when this wakes.
    Wait(oneshot::Receiver<()>),
}

/// The room of a queue, which those who enqueue more than it has room for wait for, first come
/// first served.
pub(crate) struct Room {
    max_capacity: usize,
    waiting: VecDeque<oneshot::Sender<()>>,
}

impl Room {
    /// How many items there is room for.
    pub(crate) closed spec fn capacity(&self) -> int {
        self.max_capacity as int
    }

    /// Those who wait for room, first come first.
    pub(crate) closed spec fn waiting(&self) -> Seq<oneshot::Sender<()>> {
        self.waiting@
    }

    /// Room that nobody waits for.
    pub(crate) fn new(max_capacity: usize) -> (room: Self)
        ensures
            room.capacity() == max_capacity,
            room.waiting() == Seq::<oneshot::Sender<()>>::empty(),
    {
        Room { max_capacity, waiting: VecDeque::new() }
    }

    /// Lets one who enqueued an item go on, or else wait, when there are `len` items now.
    pub(crate) fn let_in(&mut self, len: usize) -> (enqueued: Enqueued)
        ensures
            final(self).capacity() == old(self).capacity(),
            match enqueued {
                Enqueued::Done => {
                    &&& len <= old(self).capacity()
                    &&& final(self).waiting() == old(self).waiting()
                },
                Enqueued::Wait(receiver) => {
                    &&& len > old(self).capacity()
                    &&& final(self).waiting() == old(self).waiting().push(
                        final(self).waiting().last(),
                    )
                    &&& paired(final(self).waiting().last(), receiver)
                },
            },
    {
        if len > self.max_capacity {
            let (sender, receiver) = open_oneshot();
            self.waiting.push_back(sender);
            return Enqueued::Wait(receiver);
        }
        Enqueued::Done
    }

    /// Lets the first who waits go on, after an item was handed out.
    pub(crate) fn release(&mut self)
        ensures
            final(self).capacity() == old(self).capacity(),
            old(self).waiting().len() > 0 ==> {
                &&& handed(old(self).waiting()[0], ())
                &&& final(self).waiting() == old(self).waiting().skip(1)
            },
            old(self).waiting().len() == 0 ==> final(self).waiting() == old(self).waiting(),
    {
        if let Some(waiter) = self.waiting.pop_front() {
            assert(self.waiting@ =~= old(self).waiting@.skip(1));
            hand_over(waiter, ());
        }
    }

    /// How many of `len` items there is room for.
    pub(crate) fn count(&self, len: usize) -> (count: usize)
        ensures
            count == if len > self.capacity() {
                self.capacity()
            } else {
                len as int
            },
    {
        if len > self.max_capacity {
            self.max_capacity
        } else {
            len
        }
    }
}

} // verus!
