//! A queue that hands out first what is most urgent.

use std::collections::VecDeque;

use vstd::prelude::*;
use vstd::std_specs::cmp::PartialEqSpec;

use crate::queue::error::Error;
use crate::queue::room::Room;
use crate::queue::traits::{
    arrivals, is_history, performs, queue_holds_what_came_and_did_not_leave, Dequeued, Enqueued, Queue,
    QueueOp, QueueState,
};
use crate::signal::Signal;

verus! {

/// What an item asks of a [`PriorityQueue`].
#[derive(Debug, Clone, Copy)]
pub struct PriorityOptions {
    /// How urgent the item is: a higher number goes first.
    pub priority: u32,
}

impl PartialEq for PriorityOptions {
    fn eq(&self, other: &Self) -> (equal: bool) {
        self.priority == other.priority
    }
}

impl vstd::std_specs::cmp::PartialEqSpecImpl for PriorityOptions {
    open spec fn obeys_eq_spec() -> bool {
        true
    }

    open spec fn eq_spec(&self, other: &Self) -> bool {
        self.priority == other.priority
    }
}

/// The priority that these options ask for. Without options it is the lowest.
pub open spec fn priority_of(options: Option<PriorityOptions>) -> u32 {
    match options {
        Some(options) => options.priority,
        None => 0,
    }
}

/// An item and how urgent it is.
struct PriorityItem<T> {
    item: T,
    priority: u32,
}

/// A queue that hands out first what is most urgent, and of what is equally urgent first what
/// came first. It keeps those who enqueue more than it has room for waiting, first come first
/// served.
#[verifier::reject_recursive_types(T)]
pub struct PriorityQueue<T> {
    items: VecDeque<PriorityItem<T>>,
    room: Room,
    closed: bool,
    notify: Signal,
}

/// How many of these priorities come before an item of the given priority that arrives after
/// them: those that are as high at least.
pub open spec fn ahead(priorities: Seq<u32>, priority: u32) -> int
    decreases priorities.len(),
{
    if priorities.len() == 0 {
        0
    } else {
        ahead(priorities.drop_last(), priority) + (if priorities.last() >= priority {
            1int
        } else {
            0int
        })
    }
}

/// Whether no priority is followed by a higher one.
pub open spec fn descending(priorities: Seq<u32>) -> bool {
    forall|i: int, j: int| 0 <= i < j < priorities.len() ==> priorities[i] >= priorities[j]
}

/// In a descending sequence, those that are as high at least are a prefix.
proof fn lemma_ahead(priorities: Seq<u32>, priority: u32, n: int)
    requires
        0 <= n <= priorities.len(),
        forall|i: int| 0 <= i < n ==> priorities[i] >= priority,
        forall|i: int| n <= i < priorities.len() ==> priorities[i] < priority,
    ensures
        ahead(priorities, priority) == n,
    decreases priorities.len(),
{
    if priorities.len() > 0 {
        let most = priorities.drop_last();
        if n == priorities.len() {
            lemma_ahead(most, priority, n - 1);
        } else {
            lemma_ahead(most, priority, n);
        }
    }
}

impl<T> PriorityQueue<T> {
    /// The priorities of the items, in the order in which they are handed out.
    pub closed spec fn priorities(&self) -> Seq<u32> {
        self.items@.map_values(|entry: PriorityItem<T>| entry.priority)
    }

    /// How many items the queue has room for.
    pub open spec fn capacity(&self) -> int {
        self.state().capacity
    }

    /// A queue that has room for `max_capacity` items.
    pub fn new(max_capacity: usize) -> (queue: Self)
        ensures
            queue.valid(),
            queue.state() == QueueState::<T>::fresh(
                max_capacity as int,
                queue.state().signal.event,
            ),
            queue.capacity() == max_capacity,
            queue.priorities() == Seq::<u32>::empty(),
    {
        let queue = PriorityQueue {
            items: VecDeque::new(),
            room: Room::new(max_capacity),
            closed: false,
            notify: Signal::new(),
        };
        assert(queue.state().items =~= Seq::<T>::empty());
        assert(queue.priorities() =~= Seq::<u32>::empty());
        queue
    }
}

impl<T> Queue for PriorityQueue<T> {
    type Item = T;

    type Options = PriorityOptions;

    closed spec fn state(&self) -> QueueState<T> {
        QueueState {
            items: self.items@.map_values(|entry: PriorityItem<T>| entry.item),
            closed: self.closed,
            capacity: self.room.capacity(),
            waiting: self.room.waiting(),
            signal: self.notify@,
        }
    }

    /// Each item has a priority, and none is followed by a more urgent one.
    open spec fn valid(&self) -> bool {
        &&& self.state().valid()
        &&& self.priorities().len() == self.state().items.len()
        &&& descending(self.priorities())
    }

    open spec fn place(&self, options: Option<PriorityOptions>) -> int {
        ahead(self.priorities(), priority_of(options))
    }

    fn enqueue(&mut self, item: T, options: Option<PriorityOptions>) -> (enqueued: Result<
        Enqueued,
        Error,
    >)
        ensures
            !old(self).state().closed ==> final(self).priorities() == old(self).priorities().insert(
                old(self).place(options),
                priority_of(options),
            ),
            old(self).state().closed ==> final(self).priorities() == old(self).priorities(),
    {
        if self.closed {
            return Err(Error::closed());
        }
        let priority: u32 = match options {
            Some(options) => options.priority,
            None => 0,
        };
        let ghost priorities = self.priorities();
        let mut place: usize = 0;
        while place < self.items.len() && self.items[place].priority >= priority
            invariant
                priorities == self.priorities(),
                self.items@ == old(self).items@,
                place <= self.items@.len(),
                forall|i: int| 0 <= i < place ==> priorities[i] >= priority,
            decreases self.items@.len() - place,
        {
            assert(priorities[place as int] == self.items@[place as int].priority);
            place += 1;
        }
        proof {
            assert forall|i: int| place <= i < priorities.len() implies priorities[i] < priority by {
                assert(priorities[place as int] == self.items@[place as int].priority);
            }
            lemma_ahead(priorities, priority, place as int);
        }
        self.items.insert(place, PriorityItem { item, priority });
        self.notify.wake(1);
        assert(self.priorities() =~= priorities.insert(place as int, priority));
        assert(self.state().items =~= old(self).state().items.insert(place as int, item));
        Ok(self.room.let_in(self.items.len()))
    }

    fn dequeue(&mut self) -> (dequeued: Result<Dequeued<T>, Error>)
        ensures
            final(self).priorities() == if old(self).priorities().len() > 0 {
                old(self).priorities().skip(1)
            } else {
                old(self).priorities()
            },
    {
        match self.items.pop_front() {
            Some(entry) => {
                assert(self.priorities() =~= old(self).priorities().skip(1));
                assert(self.state().items =~= old(self).state().items.skip(1));
                self.room.release();
                if self.items.len() > 0 {
                    self.notify.wake(1);
                }
                Ok(Dequeued::Item(entry.item))
            },
            None => if self.closed {
                Ok(Dequeued::Closed)
            } else {
                Ok(Dequeued::Wait(self.notify.listen()))
            },
        }
    }

    fn len(&self) -> (len: usize) {
        self.room.count(self.items.len())
    }

    fn close(&mut self) -> (closed: Result<(), Error>)
        ensures
            final(self).priorities() == old(self).priorities(),
    {
        self.closed = true;
        self.notify.wake(usize::MAX);
        Ok(())
    }
}

/// The number of priorities that are as high at least is the place where a descending sequence
/// falls below.
proof fn lemma_ahead_splits(priorities: Seq<u32>, priority: u32)
    requires
        descending(priorities),
    ensures
        0 <= ahead(priorities, priority) <= priorities.len(),
        forall|i: int| 0 <= i < ahead(priorities, priority) ==> priorities[i] >= priority,
        forall|i: int|
            ahead(priorities, priority) <= i < priorities.len() ==> priorities[i] < priority,
    decreases priorities.len(),
{
    if priorities.len() > 0 {
        let most = priorities.drop_last();
        lemma_ahead_splits(most, priority);
        let n = ahead(most, priority);
        if priorities.last() >= priority {
            assert(n == most.len()) by {
                if n < most.len() {
                    assert(most[n] < priority);
                    assert(priorities[n] >= priorities[most.len() as int]);
                }
            }
        }
        assert forall|i: int| 0 <= i < ahead(priorities, priority) implies priorities[i]
            >= priority by {
            if i < most.len() {
                assert(most[i] == priorities[i]);
            }
        }
        assert forall|i: int|
            ahead(priorities, priority) <= i < priorities.len() implies priorities[i]
            < priority by {
            if i < most.len() {
                assert(most[i] == priorities[i]);
            }
        }
    }
}

/// A higher priority goes first: an item is handed out after everything that is as urgent at
/// least and before everything that is less urgent, and the queue stays ordered.
pub proof fn urgent_items_go_first(priorities: Seq<u32>, priority: u32, i: int)
    requires
        descending(priorities),
        0 <= i < priorities.len(),
    ensures
        0 <= ahead(priorities, priority) <= priorities.len(),
        i < ahead(priorities, priority) <==> priorities[i] >= priority,
        descending(priorities.insert(ahead(priorities, priority), priority)),
{
    lemma_ahead_splits(priorities, priority);
}

/// Of what is equally urgent goes first what came first: an item that follows another of the
/// same priority is handed out right after it. Without options an item goes last.
pub proof fn equally_urgent_items_keep_their_order(priorities: Seq<u32>, priority: u32)
    requires
        descending(priorities),
    ensures
        ({
            let place = ahead(priorities, priority);
            ahead(priorities.insert(place, priority), priority) == place + 1
        }),
        ahead(priorities, priority_of(None)) == priorities.len(),
{
    lemma_ahead_splits(priorities, priority);
    lemma_ahead_splits(priorities, 0);
    let place = ahead(priorities, priority);
    lemma_ahead(priorities.insert(place, priority), priority, place + 1);
}

/// The priorities of the arrivals of these numbers.
pub open spec fn priorities_of(arrivals: Seq<int>, priorities: Seq<u32>) -> Seq<u32> {
    arrivals.map_values(|arrival: int| priorities[arrival])
}

/// The numbers of several arrivals with the given priorities, in the order in which a queue that
/// was empty hands them out: each goes where its priority puts it among those before it.
pub open spec fn arranged(priorities: Seq<u32>) -> Seq<int>
    decreases priorities.len(),
{
    if priorities.len() == 0 {
        Seq::empty()
    } else {
        let most = arranged(priorities.drop_last());
        most.insert(ahead(priorities_of(most, priorities), priorities.last()), priorities.len() - 1)
    }
}

/// Whether the arrivals of these numbers are in order: the more urgent first, and of what is
/// equally urgent the older first.
pub open spec fn in_order(arrivals: Seq<int>, priorities: Seq<u32>) -> bool {
    forall|i: int, j: int|
        0 <= i < j < arrivals.len() ==> {
            ||| priorities[#[trigger] arrivals[i]] > priorities[#[trigger] arrivals[j]]
            ||| priorities[arrivals[i]] == priorities[arrivals[j]] && arrivals[i] < arrivals[j]
        }
}

/// However items arrive, all of them are handed out, by priority and then by age.
pub proof fn arrivals_come_out_by_priority_and_age(priorities: Seq<u32>)
    ensures
        arranged(priorities).len() == priorities.len(),
        forall|i: int|
            0 <= i < priorities.len() ==> 0 <= #[trigger] arranged(priorities)[i]
                < priorities.len(),
        arranged(priorities).no_duplicates(),
        in_order(arranged(priorities), priorities),
    decreases priorities.len(),
{
    if priorities.len() > 0 {
        let before = priorities.drop_last();
        let most = arranged(before);
        arrivals_come_out_by_priority_and_age(before);
        let own = priorities_of(most, priorities);
        let place = ahead(own, priorities.last());
        assert(descending(own)) by {
            assert forall|i: int, j: int| 0 <= i < j < own.len() implies own[i] >= own[j] by {
                assert(0 <= most[i] < before.len() && 0 <= most[j] < before.len());
                assert(before[most[i]] >= before[most[j]]);
            }
        }
        lemma_ahead_splits(own, priorities.last());
        let all = arranged(priorities);
        assert(all == most.insert(place, priorities.len() - 1));
        assert forall|i: int| 0 <= i < all.len() implies 0 <= #[trigger] all[i]
            < priorities.len() by {
            if i < place {
                assert(all[i] == most[i]);
            } else if i > place {
                assert(all[i] == most[i - 1]);
            }
        }
        assert forall|i: int, j: int| 0 <= i < j < all.len() implies {
            ||| priorities[#[trigger] all[i]] > priorities[#[trigger] all[j]]
            ||| priorities[all[i]] == priorities[all[j]] && all[i] < all[j]
        } by {
            let a = if i < place {
                i
            } else {
                i - 1
            };
            let b = if j < place {
                j
            } else {
                j - 1
            };
            if i != place {
                assert(all[i] == most[a]);
                assert(own[a] == priorities[most[a]]);
                assert(0 <= most[a] < before.len());
            }
            if j != place {
                assert(all[j] == most[b]);
                assert(own[b] == priorities[most[b]]);
                assert(0 <= most[b] < before.len());
            }
            if i != place && j != place {
                assert(before[most[a]] == priorities[most[a]]);
                assert(before[most[b]] == priorities[most[b]]);
            }
        }
    }
}

/// The priorities that several items ask for.
pub open spec fn asked_for(options: Seq<Option<PriorityOptions>>) -> Seq<u32> {
    options.map_values(|options: Option<PriorityOptions>| priority_of(options))
}

/// Whether `after` has what `before` has and one item more, which was enqueued with these options.
pub open spec fn has_one_more<T>(
    before: PriorityQueue<T>,
    item: T,
    options: Option<PriorityOptions>,
    after: PriorityQueue<T>,
) -> bool {
    let place = before.place(options);
    &&& after.state().items == before.state().enqueue(place, item).items
    &&& after.priorities() == before.priorities().insert(place, priority_of(options))
}

/// Items that are enqueued one after the other in a queue that has none are handed out in the order
/// that [`arranged`] says: `queues` is the queue before each of them and after the last.
pub proof fn enqueued_items_are_arranged<T>(
    queues: Seq<PriorityQueue<T>>,
    items: Seq<T>,
    options: Seq<Option<PriorityOptions>>,
)
    requires
        queues.len() == items.len() + 1,
        options.len() == items.len(),
        queues[0].state().items.len() == 0,
        queues[0].priorities().len() == 0,
        forall|k: int|
            0 <= k < items.len() ==> has_one_more(
                queues[k],
                #[trigger] items[k],
                options[k],
                queues[k + 1],
            ),
    ensures
        queues.last().state().items == arranged(asked_for(options)).map_values(
            |arrival: int| items[arrival],
        ),
        queues.last().priorities() == priorities_of(
            arranged(asked_for(options)),
            asked_for(options),
        ),
    decreases items.len(),
{
    let asked = asked_for(options);
    let all = arranged(asked);
    if items.len() > 0 {
        let n = items.len() - 1;
        let before = asked.drop_last();
        let most = arranged(before);
        assert forall|k: int| 0 <= k < items.drop_last().len() implies has_one_more(
            queues.drop_last()[k],
            #[trigger] items.drop_last()[k],
            options.drop_last()[k],
            queues.drop_last()[k + 1],
        ) by {
            assert(items.drop_last()[k] == items[k]);
        }
        enqueued_items_are_arranged(queues.drop_last(), items.drop_last(), options.drop_last());
        assert(asked_for(options.drop_last()) =~= before);
        arrivals_come_out_by_priority_and_age(before);
        arrivals_come_out_by_priority_and_age(asked);
        assert(has_one_more(queues[n], items[n], options[n], queues[n + 1]));
        assert(priorities_of(most, asked) =~= priorities_of(most, before));
        let place = ahead(priorities_of(most, asked), asked.last());
        assert(descending(priorities_of(most, asked))) by {
            assert forall|i: int, j: int| 0 <= i < j < most.len() implies priorities_of(
                most,
                asked,
            )[i] >= priorities_of(most, asked)[j] by {
                assert(before[most[i]] >= before[most[j]]);
            }
        }
        lemma_ahead_splits(priorities_of(most, asked), asked.last());
        assert(queues[n].state().items =~= most.map_values(|arrival: int| items[arrival]));
        assert(all == most.insert(place, n));
        assert(queues[n + 1].state().items =~= all.map_values(|arrival: int| items[arrival]));
        assert(queues[n + 1].priorities() =~= priorities_of(all, asked));
    } else {
        assert(queues[0].state().items =~= all.map_values(|arrival: int| items[arrival]));
        assert(queues[0].priorities() =~= priorities_of(all, asked));
    }
}

/// What becomes of the priorities in a queue when this is done with it.
pub open spec fn ranks<T>(
    before: PriorityQueue<T>,
    op: QueueOp<T, PriorityOptions>,
    after: PriorityQueue<T>,
) -> bool {
    match op {
        QueueOp::Enqueue { item: _, options } => after.priorities() == if before.state().closed {
            before.priorities()
        } else {
            before.priorities().insert(before.place(options), priority_of(options))
        },
        QueueOp::Dequeue => after.priorities() == if before.priorities().len() > 0 {
            before.priorities().skip(1)
        } else {
            before.priorities()
        },
        QueueOp::Close => after.priorities() == before.priorities(),
    }
}

/// Whether of two items that asked for this, and came one before the other or not, the first goes
/// before the second: a higher number does, and of equal numbers what came first. Having asked for
/// nothing is as good as having asked for the lowest number.
pub open spec fn goes_before(
    first: Option<PriorityOptions>,
    second: Option<PriorityOptions>,
    came_first: bool,
) -> bool {
    match (first, second) {
        (Some(first), Some(second)) => {
            ||| first.priority > second.priority
            ||| first.priority == second.priority && came_first
        },
        (Some(first), None) => first.priority > 0 || came_first,
        (None, Some(second)) => second.priority == 0 && came_first,
        (None, None) => came_first,
    }
}

/// The priorities of the items in a queue are the numbers that they asked for.
proof fn lemma_ranked<T>(
    queues: Seq<PriorityQueue<T>>,
    ops: Seq<QueueOp<T, PriorityOptions>>,
    n: int,
)
    requires
        is_history(queues, ops),
        queues[0].priorities().len() == 0,
        forall|k: int|
            #![trigger ops[k]]
            0 <= k < ops.len() ==> ranks(queues[k], ops[k], queues[k + 1]),
        0 <= n <= ops.len(),
    ensures
        ({
            let held = arrivals(queues, ops, n);
            let ranked = queues[n].priorities();
            &&& held.len() == ranked.len()
            &&& forall|a: int|
                #![trigger held[a]]
                0 <= a < held.len() ==> 0 <= held[a] < n && ops[held[a]] is Enqueue && ranked[a]
                    == match ops[held[a]]->options {
                    Some(options) => options.priority,
                    None => 0,
                }
            &&& descending(ranked)
            &&& forall|a: int, b: int|
                #![trigger held[a], held[b]]
                0 <= a < b < held.len() && ranked[a] == ranked[b] ==> held[a] < held[b]
        }),
    decreases n,
{
    if n > 0 {
        lemma_ranked(queues, ops, n - 1);
        let before = queues[n - 1];
        let after = queues[n];
        let op = ops[n - 1];
        let earlier = arrivals(queues, ops, n - 1);
        let held = arrivals(queues, ops, n);
        assert(performs(before, op, after));
        assert(ranks(before, op, after));
        match op {
            QueueOp::Enqueue { item: _, options } => {
                if !before.state().closed {
                    let place = before.place(options);
                    lemma_ahead_splits(before.priorities(), priority_of(options));
                    assert forall|a: int| #![trigger held[a]] 0 <= a < held.len() implies 0
                        <= held[a] < n && ops[held[a]] is Enqueue && after.priorities()[a]
                        == match ops[held[a]]->options {
                        Some(options) => options.priority,
                        None => 0,
                    } by {
                        if a < place {
                            assert(held[a] == earlier[a]);
                        } else if a > place {
                            assert(held[a] == earlier[a - 1]);
                        }
                    }
                    assert forall|a: int, b: int|
                        #![trigger held[a], held[b]]
                        0 <= a < b < held.len() && after.priorities()[a]
                            == after.priorities()[b] implies held[a] < held[b] by {
                        let x = if a < place {
                            a
                        } else {
                            a - 1
                        };
                        let y = if b < place {
                            b
                        } else {
                            b - 1
                        };
                        if a != place {
                            assert(held[a] == earlier[x]);
                        }
                        if b != place {
                            assert(held[b] == earlier[y]);
                        }
                    }
                }
            },
            QueueOp::Dequeue => {
                if earlier.len() > 0 {
                    assert forall|a: int| #![trigger held[a]] 0 <= a < held.len() implies 0
                        <= held[a] < n && ops[held[a]] is Enqueue && after.priorities()[a]
                        == match ops[held[a]]->options {
                        Some(options) => options.priority,
                        None => 0,
                    } by {
                        assert(held[a] == earlier[a + 1]);
                    }
                    assert forall|a: int, b: int|
                        #![trigger held[a], held[b]]
                        0 <= a < b < held.len() && after.priorities()[a]
                            == after.priorities()[b] implies held[a] < held[b] by {
                        assert(held[a] == earlier[a + 1]);
                        assert(held[b] == earlier[b + 1]);
                    }
                }
            },
            QueueOp::Close => {},
        }
    }
}

/// Of two items that are in the queue, the one that asked for the higher number is handed out first,
/// and of two that asked for the same number the one that came first, whatever else was enqueued and
/// handed out in the meantime.
pub proof fn higher_number_is_first_served<T>(
    queues: Seq<PriorityQueue<T>>,
    ops: Seq<QueueOp<T, PriorityOptions>>,
    n: int,
    a: int,
    b: int,
)
    requires
        is_history(queues, ops),
        queues[0].priorities().len() == 0,
        forall|k: int|
            #![trigger ops[k]]
            0 <= k < ops.len() ==> ranks(queues[k], ops[k], queues[k + 1]),
        0 <= n <= ops.len(),
        0 <= a < b < queues[n].state().items.len(),
    ensures
        ({
            let held = arrivals(queues, ops, n);
            &&& held.len() == queues[n].state().items.len()
            &&& ops[held[a]] is Enqueue && ops[held[a]]->item == queues[n].state().items[a]
            &&& ops[held[b]] is Enqueue && ops[held[b]]->item == queues[n].state().items[b]
            &&& goes_before(
                ops[held[a]]->options,
                ops[held[b]]->options,
                held[a] < held[b],
            )
        }),
{
    queue_holds_what_came_and_did_not_leave(queues, ops, n);
    lemma_ranked(queues, ops, n);
    let held = arrivals(queues, ops, n);
    let ranked = queues[n].priorities();
    assert(ranked[a] >= ranked[b]);
    let (x, y) = (held[a], held[b]);
}

/// Two items ask a priority queue for the same exactly if they ask for the same number.
pub proof fn same_number_is_the_same_request(first: PriorityOptions, second: PriorityOptions)
    ensures
        PriorityOptions::obeys_eq_spec(),
        first.eq_spec(&second) <==> first.priority == second.priority,
{
}

} // verus!
