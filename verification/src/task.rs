//! Tasks, and what comes of running them.

use std::collections::VecDeque;
use std::marker::PhantomData;

use futures::channel::mpsc;
use vstd::prelude::*;
use vstd::string::to_string_from_display_ensures;

use crate::channel::{accepted, took};
use crate::error::{Error, PanicPayload};

verus! {

/// A task that is run by the job queue and gives one result.
pub trait Task {
    /// What the task gives.
    type Output;

    /// What the task fails with.
    type Error: std::fmt::Display;
}

/// A closure that stands for a [`Task`].
pub struct FnTask<F, M> {
    f: F,
    _marker: PhantomData<M>,
}

impl<F, M> FnTask<F, M> {
    /// The closure.
    pub closed spec fn closure(&self) -> F {
        self.f
    }

    /// Makes a task of a closure.
    pub fn new(f: F) -> (task: Self)
        ensures
            task.closure() == f,
    {
        FnTask { f, _marker: PhantomData }
    }

    /// Runs the task: calls the closure, and gives what it returned.
    pub fn execute<Fut>(&self) -> (future: Fut) where F: Fn() -> Fut
        requires
            self.closure().requires(()),
        ensures
            self.closure().ensures((), future),
    {
        (self.f)()
    }
}

/// A task that produces a stream of items. It is never retried.
pub trait StreamTask {
    /// What the stream is made of.
    type Item;

    /// What an item that could not be produced is replaced by.
    type Error: std::fmt::Display;
}

/// A closure that stands for a [`StreamTask`].
pub struct FnStreamTask<F, M> {
    f: F,
    _marker: PhantomData<M>,
}

impl<F, M> FnStreamTask<F, M> {
    /// The closure.
    pub closed spec fn closure(&self) -> F {
        self.f
    }

    /// Makes a task of a closure.
    pub fn new(f: F) -> (task: Self)
        ensures
            task.closure() == f,
    {
        FnStreamTask { f, _marker: PhantomData }
    }

    /// Runs the task: calls the closure, and gives the stream that it returned.
    pub fn execute<St>(&self) -> (stream: St) where F: Fn() -> St
        requires
            self.closure().requires(()),
        ensures
            self.closure().ensures((), stream),
    {
        (self.f)()
    }
}

/// What came of running a task once.
pub enum Attempt<T, E> {
    /// The task returned.
    Returned(Result<T, E>),
    /// The task panicked.
    Panicked(PanicPayload),
}

/// What came of asking a stream for its next item.
pub enum StreamPoll<T, E> {
    /// An item, or the error in its place.
    Item(Result<T, E>),
    /// The stream is over.
    End,
    /// The stream panicked.
    Panicked(PanicPayload),
}

/// Whether `wrapped` is a task's result as a job reports it: a value as it is, an error with
/// its text and its identity.
pub open spec fn reports<T, E: std::fmt::Display>(
    result: Result<T, E>,
    wrapped: Result<T, Error<E>>,
) -> bool {
    match result {
        Ok(value) => wrapped == Ok::<T, Error<E>>(value),
        Err(error) => wrapped is Err && wrapped->Err_0.is_execution_of(error),
    }
}

/// A task's result as a job reports it.
pub fn report<T, E: std::fmt::Display>(result: Result<T, E>) -> (wrapped: Result<T, Error<E>>)
    ensures
        reports(result, wrapped),
{
    match result {
        Ok(value) => Ok(value),
        Err(error) => Err(Error::task_execution(error)),
    }
}

/// How far a stream was driven by what it gave, where `D` is what its end comes to.
pub enum Driven<D, T, E> {
    /// It is over. What the stream gives after that is not looked at.
    Over(D),
    /// It goes on with what the stream gives next.
    Starved,
    /// The consumer has no room for the item. It is to be sent again once there is, and then goes
    /// on with what the stream gave after it.
    Blocked {
        /// The item that was not taken.
        item: Result<T, Error<E>>,
        /// What the stream gave after it.
        polls: VecDeque<StreamPoll<T, E>>,
    },
}

/// Whether the first of what a stream gave are these items, and a channel took them in order.
/// `offers` is the channel's sending end before and after each. Room may have been awaited in
/// between.
pub open spec fn delivered<T, E: std::fmt::Display>(
    polls: Seq<StreamPoll<T, E>>,
    items: Seq<Result<T, Error<E>>>,
    offers: Seq<(mpsc::Sender<Result<T, Error<E>>>, mpsc::Sender<Result<T, Error<E>>>)>,
) -> bool {
    &&& items.len() <= polls.len()
    &&& offers.len() == items.len()
    &&& forall|i: int|
        0 <= i < items.len() ==> gives(polls[i], #[trigger] items[i]) && accepted(
            offers[i].0,
            items[i],
            offers[i].1,
        )
}

/// A delivery goes on with an item and those that follow it.
pub(crate) proof fn lemma_delivered_more<T, E: std::fmt::Display>(
    polls: Seq<StreamPoll<T, E>>,
    items: Seq<Result<T, Error<E>>>,
    offers: Seq<(mpsc::Sender<Result<T, Error<E>>>, mpsc::Sender<Result<T, Error<E>>>)>,
    item: Result<T, Error<E>>,
    offer: (mpsc::Sender<Result<T, Error<E>>>, mpsc::Sender<Result<T, Error<E>>>),
    more: Seq<Result<T, Error<E>>>,
    more_offers: Seq<(mpsc::Sender<Result<T, Error<E>>>, mpsc::Sender<Result<T, Error<E>>>)>,
)
    requires
        delivered(polls, items, offers),
        items.len() < polls.len(),
        gives(polls[items.len() as int], item),
        accepted(offer.0, item, offer.1),
        delivered(polls.skip(items.len() as int + 1), more, more_offers),
    ensures
        delivered(polls, items.push(item) + more, offers.push(offer) + more_offers),
{
    let n = items.len() as int;
    let all = items.push(item) + more;
    let all_offers = offers.push(offer) + more_offers;
    assert forall|i: int| 0 <= i < all.len() implies gives(polls[i], #[trigger] all[i])
        && accepted(all_offers[i].0, all[i], all_offers[i].1) by {
        if i < n {
            assert(all[i] == items[i]);
            assert(all_offers[i] == offers[i]);
        } else if i > n {
            assert(all[i] == more[i - n - 1]);
            assert(all_offers[i] == more_offers[i - n - 1]);
            assert(polls.skip(n + 1)[i - n - 1] == polls[i]);
        }
    }
}

/// The sending end before and after each value that was taken.
pub open spec fn offers_of<A>(ends: Seq<A>) -> Seq<(A, A)> {
    Seq::new((ends.len() - 1) as nat, |i: int| (ends[i], ends[i + 1]))
}

/// What a channel took one after the other was delivered.
pub(crate) proof fn lemma_took_delivered<T, E: std::fmt::Display>(
    polls: Seq<StreamPoll<T, E>>,
    items: Seq<Result<T, Error<E>>>,
    ends: Seq<mpsc::Sender<Result<T, Error<E>>>>,
)
    requires
        took(ends, items),
        items.len() <= polls.len(),
        forall|i: int| 0 <= i < items.len() ==> gives(polls[i], #[trigger] items[i]),
    ensures
        delivered(polls, items, offers_of(ends)),
{
}

/// Whether a poll gave this item.
pub open spec fn gives<T, E: std::fmt::Display>(
    poll: StreamPoll<T, E>,
    item: Result<T, Error<E>>,
) -> bool {
    poll is Item && reports(poll->Item_0, item)
}

/// A value is reported as it is, and an error with the error itself and what it says: neither is
/// taken for the other, and nothing is made up.
pub proof fn results_are_reported_as_they_are<T, E: std::fmt::Display>(
    result: Result<T, E>,
    wrapped: Result<T, Error<E>>,
    poll: StreamPoll<T, E>,
)
    ensures
        reports(result, wrapped) ==> match result {
            Ok(value) => wrapped == Ok::<T, Error<E>>(value),
            Err(failure) => wrapped matches Err(Error::TaskExecution { message, source })
                && *source == failure && to_string_from_display_ensures(&failure, message),
        },
        gives(poll, wrapped) <==> (poll matches StreamPoll::Item(item) && reports(item, wrapped)),
{
}

} // verus!
