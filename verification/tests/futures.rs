use std::convert::Infallible;

use futures::executor::block_on;
use futures::{FutureExt, StreamExt};
use jobq::{Awaited, Error, JobFuture, JobFutureSet, JobStream, JobStreamHandle, Sent};

/// The result of a future whose setter was used or dropped.
fn result_of<T>(future: &mut JobFuture<T, Infallible>) -> Result<T, Error<Infallible>> {
    match future.result() {
        Awaited::Ready(result) => result,
        Awaited::Wait(receiver) => JobFuture::received(block_on(receiver)),
    }
}

#[test]
fn rejects_zero_and_unsupported_capacity() {
    assert!(matches!(
        JobStream::<u8, Infallible>::new(0),
        Err(Error::InvalidStreamCapacity(0))
    ));
    assert!(matches!(
        JobStream::<u8, Infallible>::new((usize::MAX >> 2) + 1),
        Err(Error::InvalidStreamCapacity(_))
    ));
    assert!(matches!(
        JobStreamHandle::<u8, Infallible>::new(0, None),
        Err(Error::InvalidStreamCapacity(0))
    ));
}

#[test]
fn largest_capacity_is_supported() {
    assert!(JobStream::<u8, Infallible>::new(usize::MAX >> 2).is_ok());
}

#[test]
fn one_sender_observes_total_capacity() {
    for capacity in [1, 2, 8] {
        let (stream, mut setter) = match JobStream::<usize, Infallible>::new(capacity) {
            Ok(made) => made,
            Err(_) => panic!("the capacity is supported"),
        };
        let mut stream = stream.into_receiver();

        for item in 0..capacity {
            assert!(setter.try_send(Ok(item)).is_ok());
        }

        let rejected = match setter.try_send(Ok(capacity)) {
            Err(rejected) => rejected,
            Ok(()) => panic!("the stream is full"),
        };
        assert!(rejected.is_full());
        assert!(matches!(rejected.into_inner(), Ok(item) if item == capacity));

        for item in 0..capacity {
            assert_eq!(block_on(stream.next()).unwrap().unwrap(), item);
        }
    }
}

#[test]
fn full_and_disconnected_attempts_return_the_item() {
    let (stream, mut setter) = match JobStream::<u8, Infallible>::new(1) {
        Ok(made) => made,
        Err(_) => panic!("the capacity is supported"),
    };
    assert!(!setter.is_closed());
    assert!(setter.try_send(Ok(1)).is_ok());

    let full = match setter.try_send(Ok(2)) {
        Err(full) => full,
        Ok(()) => panic!("the stream is full"),
    };
    assert!(full.is_full());
    assert!(matches!(full.into_inner(), Ok(2)));

    drop(stream);
    assert!(setter.is_closed());

    let closed = match setter.try_send(Ok(3)) {
        Err(closed) => closed,
        Ok(()) => panic!("the consumer is gone"),
    };
    assert!(closed.is_disconnected());
    assert!(matches!(closed.into_inner(), Ok(3)));
    assert!(matches!(setter.send(Ok(4)), Err(Error::FutureClosed)));
}

#[test]
fn awaited_send_waits_only_for_channel_capacity() {
    let (stream, mut setter) = match JobStream::<u8, Infallible>::new(1) {
        Ok(made) => made,
        Err(_) => panic!("the capacity is supported"),
    };
    let mut stream = stream.into_receiver();
    assert!(setter.try_send(Ok(1)).is_ok());

    assert!(
        futures::future::poll_fn(|cx| setter.channel().unwrap().poll_ready(cx))
            .now_or_never()
            .is_none()
    );

    assert!(matches!(block_on(stream.next()), Some(Ok(1))));
    block_on(futures::future::poll_fn(|cx| setter.channel().unwrap().poll_ready(cx))).unwrap();
    assert!(matches!(setter.send(Ok(2)), Ok(Sent::Done)));
    assert!(matches!(setter.send(Ok(3)), Ok(Sent::Wait(Ok(3)))));
    assert!(matches!(block_on(stream.next()), Some(Ok(2))));
}

#[test]
fn receiver_drop_wakes_and_settles_batch_result() {
    let (handle, mut setter) =
        match JobStreamHandle::<u8, Infallible>::new(1, Some(Error::consumer_cancelled())) {
            Ok(made) => made,
            Err(_) => panic!("the capacity is supported"),
        };
    let (items, mut result) = handle.split();
    let mut closed = setter.lifecycle().closed().unwrap();

    assert!((&mut closed).now_or_never().is_none());
    drop(items);
    setter.lifecycle_mut().receiver_dropped();
    block_on(closed);

    assert!(setter.lifecycle().closed().is_none());
    assert!(matches!(result_of(&mut result), Err(Error::ConsumerCancelled)));
}

#[test]
fn first_terminal_result_survives_receiver_drop() {
    let (handle, mut setter) =
        match JobStreamHandle::<u8, Infallible>::new(1, Some(Error::consumer_cancelled())) {
            Ok(made) => made,
            Err(_) => panic!("the capacity is supported"),
        };
    let (items, mut result) = handle.split();

    assert!(setter.lifecycle().is_open());
    assert!(setter.lifecycle_mut().set_terminal(Ok(())));
    drop(items);
    setter.lifecycle_mut().receiver_dropped();
    assert!(!setter.lifecycle_mut().set_terminal(Err(Error::incomplete_stream_batch())));
    assert!(!setter.lifecycle().is_open());
    assert!(!setter.lifecycle().failed());
    assert!(result_of(&mut result).is_ok());
}

#[test]
fn departure_without_an_error_closes_without_an_outcome() {
    let (mut handle, mut setter) = match JobStreamHandle::<u8, Infallible>::new(1, None) {
        Ok(made) => made,
        Err(_) => panic!("the capacity is supported"),
    };
    setter.lifecycle_mut().receiver_dropped();

    assert!(!setter.lifecycle().is_open());
    assert!(!setter.lifecycle().failed());
    assert!(setter.lifecycle_mut().set_terminal(Ok(())));
    match handle.result() {
        Awaited::Wait(receiver) => assert!(JobFuture::received(block_on(receiver)).is_ok()),
        Awaited::Ready(_) => panic!("the outcome comes through the channel"),
    }
}

#[test]
fn accepted_items_drain_after_terminal_result() {
    let (handle, mut setter) = match JobStreamHandle::<u8, Infallible>::new(2, None) {
        Ok(made) => made,
        Err(_) => panic!("the capacity is supported"),
    };
    assert!(setter.try_send(Ok(1)).is_ok());
    assert!(setter.try_send(Ok(2)).is_ok());
    setter.lifecycle_mut().set_terminal(Ok(()));
    drop(setter);

    let (items, mut result) = handle.split();
    let mut items = items.into_receiver();
    assert!(result_of(&mut result).is_ok());
    assert!(matches!(block_on(items.next()), Some(Ok(1))));
    assert!(matches!(block_on(items.next()), Some(Ok(2))));
    assert!(block_on(items.next()).is_none());
}

#[test]
fn first_result_is_handed_over_and_given_once() {
    let (mut future, mut setter) = JobFuture::<u8, Infallible>::new();
    setter.set_result(Ok(1));
    setter.set_result(Ok(2));

    assert!(matches!(result_of(&mut future), Ok(1)));
    assert!(matches!(result_of(&mut future), Err(Error::FutureClosed)));
}

#[test]
fn closed_future_and_lost_setter_give_future_closed() {
    let (mut closed, mut setter) = JobFuture::<u8, Infallible>::new();
    setter.set_result(Ok(1));
    closed.close();
    assert!(matches!(result_of(&mut closed), Err(Error::FutureClosed)));

    let (mut lost, setter) = JobFuture::<u8, Infallible>::new();
    drop(setter);
    assert!(matches!(result_of(&mut lost), Err(Error::FutureClosed)));
}

#[test]
fn future_sets_keep_their_futures_in_order() {
    let mut setters = Vec::new();
    let mut futures = Vec::new();
    for _ in 0..3 {
        let (future, setter) = JobFuture::<u8, Infallible>::new();
        futures.push(future);
        setters.push(setter);
    }
    let mut set = JobFutureSet::new(futures);
    assert_eq!(set.as_futures().len(), 3);
    set.as_futures_mut().pop();

    for (value, setter) in setters.iter_mut().enumerate() {
        setter.set_result(Ok(value as u8));
    }
    let set = JobFutureSet::from(set.into_futures());
    let results: Vec<u8> =
        set.into_futures().iter_mut().map(|future| result_of(future).unwrap()).collect();
    assert_eq!(results, vec![0, 1]);
}
