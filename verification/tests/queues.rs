use futures::executor::block_on;
use futures::FutureExt;
use jobq::queue::error::Error;
use jobq::{
    Dequeued, Enqueued, FifoQueue, LifoQueue, PriorityOptions, PriorityQueue, Queue,
};

fn opts(priority: u32) -> Option<PriorityOptions> {
    Some(PriorityOptions { priority })
}

/// The next item of a queue that does not keep its callers waiting.
fn next<Q: Queue>(queue: &mut Q) -> Option<Q::Item> {
    match queue.dequeue().unwrap() {
        Dequeued::Item(item) => Some(item),
        Dequeued::Closed => None,
        Dequeued::Wait(_) => panic!("the queue keeps its caller waiting"),
    }
}

/// Everything that a closed queue hands out.
fn drain<Q: Queue>(queue: &mut Q) -> Vec<Q::Item> {
    let mut items = Vec::new();
    while let Some(item) = next(queue) {
        items.push(item);
    }
    items
}

fn done(enqueued: Result<Enqueued, Error>) -> bool {
    matches!(enqueued, Ok(Enqueued::Done))
}

#[test]
fn test_enqueue_dequeue_single_item() {
    let mut queue = FifoQueue::new(10);
    assert!(done(queue.enqueue(42, None)));

    assert_eq!(queue.len(), 1);

    assert_eq!(next(&mut queue), Some(42));

    assert_eq!(queue.len(), 0);
}

#[test]
fn test_fifo_ordering() {
    let mut queue = FifoQueue::new(10);

    assert!(done(queue.enqueue(1, None)));
    assert!(done(queue.enqueue(2, None)));
    assert!(done(queue.enqueue(3, None)));

    assert_eq!(next(&mut queue), Some(1));
    assert_eq!(next(&mut queue), Some(2));
    assert_eq!(next(&mut queue), Some(3));
}

#[test]
fn test_len_reflects_state() {
    let mut queue = FifoQueue::new(10);

    assert_eq!(queue.len(), 0);

    assert!(done(queue.enqueue("a", None)));
    assert!(done(queue.enqueue("b", None)));

    assert_eq!(queue.len(), 2);

    next(&mut queue);
    assert_eq!(queue.len(), 1);

    next(&mut queue);
    assert_eq!(queue.len(), 0);
}

#[test]
fn test_close_prevents_enqueue() {
    let mut queue = FifoQueue::new(10);
    assert!(done(queue.enqueue("hello", None)));

    queue.close().unwrap();

    let result = queue.enqueue("world", None);
    assert!(matches!(result, Err(Error::Closed)));

    assert_eq!(next(&mut queue), Some("hello"));
    assert_eq!(next(&mut queue), None);
}

#[test]
fn test_concurrent_enqueue_dequeue() {
    let mut queue = FifoQueue::new(100);
    let mut collected = vec![];

    for i in 0..50 {
        assert!(done(queue.enqueue(i, None)));
        if i % 3 == 2 {
            collected.push(next(&mut queue).unwrap());
        }
    }
    while collected.len() < 50 {
        collected.push(next(&mut queue).unwrap());
    }

    assert_eq!(collected.len(), 50);
    assert_eq!(collected[0], 0);
    assert_eq!(collected.last().unwrap(), &49);
}

#[test]
fn test_dequeue_after_close_returns_remaining() {
    let mut queue = FifoQueue::new(10);
    assert!(done(queue.enqueue(1, None)));
    assert!(done(queue.enqueue(2, None)));
    assert!(done(queue.enqueue(3, None)));

    queue.close().unwrap();

    assert_eq!(next(&mut queue), Some(1));
    assert_eq!(next(&mut queue), Some(2));
    assert_eq!(next(&mut queue), Some(3));

    assert_eq!(next(&mut queue), None);
}

#[test]
fn test_enqueue_blocks_if_full_then_unblocks() {
    let mut queue = FifoQueue::new(1);

    assert!(done(queue.enqueue(1, None)));

    let mut room = match queue.enqueue(2, None) {
        Ok(Enqueued::Wait(room)) => room,
        _ => panic!("a full queue keeps its caller waiting"),
    };

    assert!((&mut room).now_or_never().is_none());
    assert_eq!(queue.len(), 1);

    assert_eq!(next(&mut queue), Some(1));
    block_on(room).unwrap();

    assert_eq!(queue.len(), 1);
    assert_eq!(next(&mut queue), Some(2));
}

#[test]
fn room_is_given_to_those_who_came_first() {
    let mut queue = FifoQueue::new(1);

    assert!(done(queue.enqueue(1, None)));
    let mut waits = Vec::new();
    for item in [2, 3] {
        match queue.enqueue(item, None) {
            Ok(Enqueued::Wait(room)) => waits.push(room),
            _ => panic!("a full queue keeps its caller waiting"),
        }
    }

    assert_eq!(next(&mut queue), Some(1));
    assert!((&mut waits[0]).now_or_never().is_some());
    assert!((&mut waits[1]).now_or_never().is_none());
    assert_eq!(next(&mut queue), Some(2));
    assert!((&mut waits[1]).now_or_never().is_some());
    assert_eq!(next(&mut queue), Some(3));
}

#[test]
fn queue_without_room_holds_items_and_counts_none() {
    let mut queue = FifoQueue::new(0);

    let mut room = match queue.enqueue(7, None) {
        Ok(Enqueued::Wait(room)) => room,
        _ => panic!("a full queue keeps its caller waiting"),
    };
    assert_eq!(queue.len(), 0);
    assert!((&mut room).now_or_never().is_none());
    assert_eq!(next(&mut queue), Some(7));
    block_on(room).unwrap();
}

#[test]
fn test_enqueue_after_receiver_dropped_fails() {
    let mut queue = FifoQueue::new(1);
    queue.close().unwrap();

    let result = queue.enqueue(123, None);
    assert!(matches!(result, Err(Error::Closed)));
}

#[test]
fn test_dequeue_returns_none_after_close_and_empty() {
    let mut queue = FifoQueue::<i32>::new(1);
    queue.close().unwrap();

    assert_eq!(next(&mut queue), None);
}

#[test]
fn test_enqueue_dequeue_lifo_order() {
    let mut queue = LifoQueue::new(10);

    assert!(done(queue.enqueue(1, None)));
    assert!(done(queue.enqueue(2, None)));
    assert!(done(queue.enqueue(3, None)));

    assert_eq!(next(&mut queue), Some(3));
    assert_eq!(next(&mut queue), Some(2));
    assert_eq!(next(&mut queue), Some(1));
}

#[test]
fn lifo_test_dequeue_blocks_until_item_available() {
    let mut queue = LifoQueue::new(10);

    let listener = match queue.dequeue().unwrap() {
        Dequeued::Wait(listener) => listener,
        _ => panic!("an empty queue keeps its caller waiting"),
    };
    assert!(done(queue.enqueue(42, None)));
    block_on(listener);

    assert_eq!(next(&mut queue), Some(42));
}

#[test]
fn lifo_test_concurrent_enqueue_and_dequeue() {
    let mut queue = LifoQueue::new(10);
    let mut consumed = Vec::new();

    for i in 0..10 {
        assert!(done(queue.enqueue(i, None)));
        if i % 2 == 1 {
            consumed.push(next(&mut queue).unwrap());
        }
    }
    while consumed.len() < 10 {
        consumed.push(next(&mut queue).unwrap());
    }

    assert_eq!(consumed.len(), 10);
    consumed.sort();
    assert_eq!(consumed, (0..10).collect::<Vec<_>>());
}

#[test]
fn lifo_test_len_tracking() {
    let mut queue = LifoQueue::new(10);

    assert_eq!(queue.len(), 0);
    assert!(done(queue.enqueue("a", None)));
    assert!(done(queue.enqueue("b", None)));
    assert_eq!(queue.len(), 2);
    next(&mut queue);
    assert_eq!(queue.len(), 1);
}

#[test]
fn test_close_and_dequeue_remaining_items() {
    let mut queue = LifoQueue::new(10);

    assert!(done(queue.enqueue("a", None)));
    assert!(done(queue.enqueue("b", None)));
    queue.close().unwrap();

    assert_eq!(next(&mut queue), Some("b"));
    assert_eq!(next(&mut queue), Some("a"));
    assert_eq!(next(&mut queue), None);
}

#[test]
fn lifo_test_enqueue_after_close_fails() {
    let mut queue = LifoQueue::new(10);
    queue.close().unwrap();

    let result = queue.enqueue("x", None);
    assert!(matches!(result, Err(Error::Closed)));
}

#[test]
fn test_blocked_dequeue_wakes_on_close() {
    let mut queue = LifoQueue::<i32>::new(10);

    let listener = match queue.dequeue().unwrap() {
        Dequeued::Wait(listener) => listener,
        _ => panic!("an empty queue keeps its caller waiting"),
    };
    queue.close().unwrap();
    block_on(listener);

    assert_eq!(next(&mut queue), None);
}

#[test]
fn test_notify_reset_behavior_under_load() {
    let mut queue = LifoQueue::<i32>::new(10);
    let mut waiting = Vec::new();

    for _ in 0..10 {
        match queue.dequeue().unwrap() {
            Dequeued::Wait(listener) => waiting.push(listener),
            _ => panic!("an empty queue keeps its caller waiting"),
        }
    }
    for i in 0..10 {
        assert!(done(queue.enqueue(i, None)));
    }

    let mut values = Vec::new();
    while !waiting.is_empty() {
        let woken = waiting
            .iter_mut()
            .position(|listener| listener.now_or_never().is_some())
            .expect("somebody is woken while there are items");
        waiting.remove(woken);
        values.push(next(&mut queue).unwrap());
    }
    assert_eq!(values.len(), 10);
}

#[test]
fn test_dequeue_timeout_if_never_signaled() {
    let mut queue = LifoQueue::<i32>::new(10);

    match queue.dequeue().unwrap() {
        Dequeued::Wait(listener) => {
            assert!(listener.now_or_never().is_none(), "dequeue should have timed out");
        }
        _ => panic!("an empty queue keeps its caller waiting"),
    }
}

#[test]
fn test_priority_order_with_insertion_stability() {
    let mut queue = PriorityQueue::new(10);

    assert!(done(queue.enqueue("low1", opts(1))));
    assert!(done(queue.enqueue("medium1", opts(5))));
    assert!(done(queue.enqueue("high1", opts(10))));
    assert!(done(queue.enqueue("low2", opts(1))));
    assert!(done(queue.enqueue("medium2", opts(5))));
    assert!(done(queue.enqueue("high2", opts(10))));

    queue.close().unwrap();

    assert_eq!(
        drain(&mut queue),
        vec!["high1", "high2", "medium1", "medium2", "low1", "low2"]
    );
}

#[test]
fn priority_test_len_tracking() {
    let mut queue = PriorityQueue::new(10);

    assert_eq!(queue.len(), 0);

    assert!(done(queue.enqueue("task1", opts(1))));
    assert_eq!(queue.len(), 1);

    assert!(done(queue.enqueue("task2", opts(2))));
    assert_eq!(queue.len(), 2);

    next(&mut queue);
    assert_eq!(queue.len(), 1);
}

#[test]
fn priority_test_dequeue_blocks_until_item_available() {
    let mut queue = PriorityQueue::new(10);

    let listener = match queue.dequeue().unwrap() {
        Dequeued::Wait(listener) => listener,
        _ => panic!("an empty queue keeps its caller waiting"),
    };
    assert!(done(queue.enqueue("delayed", opts(5))));
    block_on(listener);

    assert_eq!(next(&mut queue), Some("delayed"));
}

#[test]
fn priority_test_concurrent_enqueue_and_dequeue() {
    let mut queue = PriorityQueue::new(15);
    let mut items: Vec<String> = Vec::new();

    for i in 0..10 {
        assert!(done(queue.enqueue(format!("item{}", i), opts(i))));
        if i % 4 == 3 {
            items.push(next(&mut queue).unwrap());
        }
    }
    queue.close().unwrap();
    items.extend(drain(&mut queue));

    items.sort();
    assert_eq!(items.len(), 10);
    for i in 0..10 {
        assert_eq!(items[i], format!("item{}", i));
    }
}

#[test]
fn test_close_stops_blocking_dequeue() {
    let mut queue = PriorityQueue::<i32>::new(10);

    let listener = match queue.dequeue().unwrap() {
        Dequeued::Wait(listener) => listener,
        _ => panic!("an empty queue keeps its caller waiting"),
    };
    queue.close().unwrap();
    block_on(listener);

    assert_eq!(next(&mut queue), None);
}

#[test]
fn test_stability_same_priority() {
    let mut queue = PriorityQueue::new(10);

    assert!(done(queue.enqueue("a", opts(3))));
    assert!(done(queue.enqueue("b", opts(3))));
    assert!(done(queue.enqueue("c", opts(3))));

    queue.close().unwrap();

    assert_eq!(drain(&mut queue), vec!["a", "b", "c"]);
}

#[test]
fn test_default_priority_zero() {
    let mut queue = PriorityQueue::new(10);

    assert!(done(queue.enqueue("explicit_high", opts(10))));
    assert!(done(queue.enqueue("default", None)));

    queue.close().unwrap();

    assert_eq!(drain(&mut queue), vec!["explicit_high", "default"]);
}

#[test]
fn priority_test_enqueue_after_close_fails() {
    let mut queue = PriorityQueue::new(10);

    queue.close().unwrap();

    let result = queue.enqueue("should_fail", opts(1));
    assert!(matches!(result, Err(Error::Closed)));
}

#[test]
fn equal_priorities_are_equal_options() {
    assert!(PriorityOptions { priority: 3 } == PriorityOptions { priority: 3 });
    assert!(PriorityOptions { priority: 3 } != PriorityOptions { priority: 4 });
}

/// Fills a queue that has room for one item, and checks who waits.
fn waits_beyond_its_capacity<Q: Queue<Item = u8>>(mut queue: Q) {
    assert!(done(queue.enqueue(1, None)));
    let mut waits = Vec::new();
    for item in [2, 3] {
        match queue.enqueue(item, None) {
            Ok(Enqueued::Wait(room)) => waits.push(room),
            _ => panic!("a full queue keeps its caller waiting"),
        }
    }
    assert_eq!(queue.len(), 1);

    while !waits.is_empty() {
        next(&mut queue);
        assert_eq!(queue.len(), 1);
        block_on(waits.remove(0)).unwrap();
        assert!(waits.iter_mut().all(|room| room.now_or_never().is_none()));
    }
    next(&mut queue);
    assert_eq!(queue.len(), 0);
    assert!(done(queue.enqueue(4, None)));
}

#[test]
fn lifo_queue_keeps_to_its_capacity() {
    waits_beyond_its_capacity(LifoQueue::new(1));
}

#[test]
fn priority_queue_keeps_to_its_capacity() {
    waits_beyond_its_capacity(PriorityQueue::new(1));
}
