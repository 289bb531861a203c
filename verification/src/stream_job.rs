//! Jobs that drive a stream and pass its items on.

use std::collections::VecDeque;

use futures::channel::mpsc;
use vstd::prelude::*;

use crate::channel::{accepted, full, handed, lemma_took_more, lost, took, Sent};
use crate::error::Error;
use crate::future::{connected, is_channel, valid_capacity, JobStreamHandle, JobStreamSetter};
use crate::job::JobStatus;
use crate::lifecycle::LifecycleState;
use crate::task::{
    delivered, gives, lemma_delivered_more, lemma_took_delivered, offers_of, report, reports, Driven,
    StreamPoll, StreamTask,
};

verus! {

/// What to do next while a streaming job runs.
pub enum StreamStep<T, S> {
    /// Ask the stream for its next item.
    Poll,
    /// Send the item, once the consumer has room for it.
    Send(Result<T, Error<S>>),
    /// Let go of the stream, and end the job with this outcome.
    Finish(Result<(), Error<S>>),
}

/// What a [`StreamJob`] is, as a mathematical value.
#[verifier::reject_recursive_types(T)]
#[verifier::reject_recursive_types(S)]
pub struct StreamJobState<T, S> {
    /// Where the job is.
    pub status: JobStatus,
    /// The sending end of the consumer's channel.
    pub end: Option<mpsc::Sender<Result<T, Error<S>>>>,
    /// The items that the consumer's channel has taken, oldest first.
    pub sent: Seq<Result<T, Error<S>>>,
    /// Where the stream is in its life.
    pub life: LifecycleState<S>,
}

impl<T, S> StreamJobState<T, S> {
    /// Whether this is a job that has not been run, and `handle` the consumer's side of its
    /// stream, which has the given capacity.
    pub open spec fn is_fresh(self, handle: JobStreamHandle<T, S>, capacity: usize) -> bool {
        &&& self.status == JobStatus::Pending
        &&& self.sent == Seq::<Result<T, Error<S>>>::empty()
        &&& connected(handle, self.end, self.life, capacity, None)
    }

    /// The job after it ended with this outcome.
    pub open spec fn ended(self, outcome: Result<(), Error<S>>) -> Self {
        StreamJobState {
            status: if outcome is Ok {
                JobStatus::Completed
            } else {
                JobStatus::Failed
            },
            life: self.life.terminal(outcome),
            ..self
        }
    }
}

/// A job that drives a stream and passes its items on. It is never retried.
#[verifier::reject_recursive_types(T)]
pub struct StreamJob<T: StreamTask> {
    task: T,
    status: JobStatus,
    items: JobStreamSetter<T::Item, T::Error>,
}

impl<T: StreamTask> View for StreamJob<T> {
    type V = StreamJobState<T::Item, T::Error>;

    closed spec fn view(&self) -> StreamJobState<T::Item, T::Error> {
        StreamJobState {
            status: self.status,
            end: self.items.end(),
            sent: self.items.sent(),
            life: self.items.life(),
        }
    }
}

impl<T: StreamTask> StreamJob<T> {
    /// The task whose stream the job drives.
    pub closed spec fn runs(&self) -> T {
        self.task
    }

    /// A job for a task, and the handle of its stream. Fails where a stream cannot have the
    /// capacity.
    pub fn new(task: T, capacity: usize) -> (made: Result<
        (Self, JobStreamHandle<T::Item, T::Error>),
        Error<T::Error>,
    >)
        ensures
            made is Ok <==> valid_capacity(capacity as int),
            made is Ok ==> {
                &&& made->Ok_0.0@.is_fresh(made->Ok_0.1, capacity)
                &&& made->Ok_0.0.runs() == task
            },
            made is Err ==> made->Err_0 == Error::<T::Error>::InvalidStreamCapacity(capacity),
    {
        match JobStreamHandle::new(capacity, None) {
            Ok((handle, items)) => Ok(
                (StreamJob { task, status: JobStatus::Pending, items }, handle),
            ),
            Err(error) => Err(error),
        }
    }

    /// Where the job is.
    pub fn status(&self) -> (status: JobStatus)
        ensures
            status == self@.status,
    {
        self.status
    }

    /// The task whose stream the job drives.
    pub fn task(&self) -> (task: &T)
        ensures
            *task == self.runs(),
    {
        &self.task
    }

    /// The setter through which the items go.
    pub fn items(&mut self) -> (items: &mut JobStreamSetter<T::Item, T::Error>)
        ensures
            items.end() == old(self)@.end,
            items.sent() == old(self)@.sent,
            items.life() == old(self)@.life,
            final(self).runs() == old(self).runs(),
            final(self)@ == (StreamJobState {
                status: old(self)@.status,
                end: final(items).end(),
                sent: final(items).sent(),
                life: final(items).life(),
            }),
    {
        &mut self.items
    }

    /// Begins to run the job.
    pub fn begin(&mut self) -> (step: StreamStep<T::Item, T::Error>)
        ensures
            final(self).runs() == old(self).runs(),
            final(self)@ == (StreamJobState { status: JobStatus::Running, ..old(self)@ }),
            step is Poll,
    {
        self.status = JobStatus::Running;
        StreamStep::Poll
    }

    /// What to do after the stream was asked for an item. An error in the place of an item is
    /// passed on like an item. The end of the stream completes the job; a panic fails it.
    pub fn polled(&self, poll: StreamPoll<T::Item, T::Error>) -> (step: StreamStep<
        T::Item,
        T::Error,
    >)
        ensures
            match poll {
                StreamPoll::Item(item) => step is Send && reports(item, step->Send_0),
                StreamPoll::End => step == StreamStep::<T::Item, T::Error>::Finish(Ok(())),
                StreamPoll::Panicked(panic) => {
                    &&& step is Finish
                    &&& step->Finish_0 is Err
                    &&& step->Finish_0->Err_0.is_panic_of(panic)
                },
            },
    {
        match poll {
            StreamPoll::Item(item) => StreamStep::Send(report(item)),
            StreamPoll::End => StreamStep::Finish(Ok(())),
            StreamPoll::Panicked(panic) => StreamStep::Finish(Err(Error::from_panic(panic))),
        }
    }

    /// What to do after an item was sent. One for which there was no room is sent again. A
    /// consumer that is gone completes the job.
    pub fn sent(
        &self,
        sent: Result<Sent<Result<T::Item, Error<T::Error>>>, Error<T::Error>>,
    ) -> (step: StreamStep<T::Item, T::Error>)
        ensures
            step == match sent {
                Ok(Sent::Done) => StreamStep::<T::Item, T::Error>::Poll,
                Ok(Sent::Wait(item)) => StreamStep::<T::Item, T::Error>::Send(item),
                Err(_) => StreamStep::<T::Item, T::Error>::Finish(Ok(())),
            },
    {
        match sent {
            Ok(Sent::Done) => StreamStep::Poll,
            Ok(Sent::Wait(item)) => StreamStep::Send(item),
            Err(_) => StreamStep::Finish(Ok(())),
        }
    }

    /// Ends the job with this outcome.
    pub fn finish(&mut self, outcome: Result<(), Error<T::Error>>)
        ensures
            final(self).runs() == old(self).runs(),
            final(self)@ == old(self)@.ended(outcome),
            old(self)@.life.carried_out(final(self)@.life),
    {
        self.status = if outcome.is_ok() {
            JobStatus::Completed
        } else {
            JobStatus::Failed
        };
        self.items.lifecycle_mut().set_terminal(outcome);
    }

    /// Runs the job on what its stream gives, in order, until it is over or the consumer has no
    /// room for an item. That item comes back with what the stream gave after it, and the job is
    /// not over.
    pub fn execute(&mut self, polls: VecDeque<StreamPoll<T::Item, T::Error>>) -> (run: Driven<
        JobStatus,
        T::Item,
        T::Error,
    >)
        requires
            old(self)@.end is Some,
        ensures
            final(self).runs() == old(self).runs(),
            final(self)@.end is Some,
            exists|
                items: Seq<Result<T::Item, Error<T::Error>>>,
                ends: Seq<mpsc::Sender<Result<T::Item, Error<T::Error>>>>,
            |
                #[trigger] stream_runs(old(self)@, polls@, items, ends, run, final(self)@),
    {
        self.begin();
        let ghost start = old(self)@;
        let mut pending = polls;
        let ghost mut items: Seq<Result<T::Item, Error<T::Error>>> = Seq::empty();
        let ghost mut ends: Seq<mpsc::Sender<Result<T::Item, Error<T::Error>>>> = seq![
            start.end->0,
        ];
        assert(passed_on(start, items, ends.last()).sent =~= start.sent);
        loop
            invariant
                self.runs() == old(self).runs(),
                start == old(self)@,
                start.end is Some,
                items.len() <= polls@.len(),
                pending@ == polls@.skip(items.len() as int),
                took(ends, items),
                ends[0] == start.end->0,
                self@ == passed_on(start, items, ends.last()),
                forall|i: int| 0 <= i < items.len() ==> gives(polls@[i], #[trigger] items[i]),
            ensures
                items.len() == polls@.len(),
            decreases pending@.len(),
        {
            match pending.pop_front() {
                None => {
                    break;
                },
                Some(poll) => {
                    assert(polls@.skip(items.len() as int)[0] == polls@[items.len() as int]);
                    assert(polls@.skip(items.len() as int).drop_first() =~= polls@.skip(
                        items.len() as int + 1,
                    ));
                    match self.polled(poll) {
                        StreamStep::Send(item) => {
                            let sent = self.items.send(item);
                            match self.sent(sent) {
                                StreamStep::Poll => {},
                                StreamStep::Send(unsent) => {
                                    let run = Driven::Blocked { item: unsent, polls: pending };
                                    assert(stream_runs(start, polls@, items, ends, run, self@));
                                    return run;
                                },
                                StreamStep::Finish(outcome) => {
                                    self.finish(outcome);
                                    let run = Driven::Over(self.status);
                                    assert(lost(ends.last(), item, self@.end->0));
                                    assert(stream_runs(start, polls@, items, ends, run, self@));
                                    return run;
                                },
                            }
                            proof {
                                lemma_took_more(ends, items, item, self@.end->0);
                                assert(passed_on(start, items.push(item), self@.end->0).sent
                                    =~= passed_on(start, items, ends.last()).sent.push(item));
                                ends = ends.push(self@.end->0);
                                items = items.push(item);
                            }
                        },
                        StreamStep::Finish(outcome) => {
                            self.finish(outcome);
                            let run = Driven::Over(self.status);
                            assert(stream_runs(start, polls@, items, ends, run, self@));
                            return run;
                        },
                        StreamStep::Poll => {},
                    }
                },
            }
        }
        let run = Driven::Starved;
        assert(stream_runs(start, polls@, items, ends, run, self@));
        run
    }
}

/// A streaming job that is being run, after its consumer's channel took these items.
pub open spec fn passed_on<T, S>(
    job: StreamJobState<T, S>,
    items: Seq<Result<T, Error<S>>>,
    end: mpsc::Sender<Result<T, Error<S>>>,
) -> StreamJobState<T, S> {
    StreamJobState {
        status: JobStatus::Running,
        end: Some(end),
        sent: job.sent + items,
        ..job
    }
}

/// Whether a streaming job that was `before` can be `after` once its stream gave `polls`, its
/// consumer's channel took `items`, with its sending end being in turn each of `ends`, and it came
/// to `run`: each item is one that the stream gave, in order. The job is over by the first poll
/// that gave no item, or once the channel has lost its receiver. It is not over where the polls ran
/// out first, and neither where the channel is full.
pub open spec fn stream_runs<T, E: std::fmt::Display>(
    before: StreamJobState<T, E>,
    polls: Seq<StreamPoll<T, E>>,
    items: Seq<Result<T, Error<E>>>,
    ends: Seq<mpsc::Sender<Result<T, Error<E>>>>,
    run: Driven<JobStatus, T, E>,
    after: StreamJobState<T, E>,
) -> bool {
    let fed = passed_on(before, items, ends.last());
    let n = items.len() as int;
    &&& n <= polls.len()
    &&& took(ends, items)
    &&& before.end == Some(ends[0])
    &&& before.life.carried_out(after.life)
    &&& forall|i: int| 0 <= i < items.len() ==> gives(polls[i], #[trigger] items[i])
    &&& match run {
        Driven::Starved => n == polls.len() && after == fed,
        Driven::Blocked { item, polls: rest } => {
            &&& n < polls.len()
            &&& gives(polls[n], item)
            &&& rest@ == polls.skip(n + 1)
            &&& after.end is Some
            &&& full(ends.last(), item, after.end->0)
            &&& after == (StreamJobState { end: after.end, ..fed })
        },
        Driven::Over(status) => {
            &&& n < polls.len()
            &&& status == after.status
            &&& match polls[n] {
                StreamPoll::Item(item) => {
                    &&& after.end is Some
                    &&& exists|wrapped: Result<T, Error<E>>| #[trigger]
                        reports(item, wrapped) && lost(ends.last(), wrapped, after.end->0)
                    &&& after == (StreamJobState { end: after.end, ..fed }).ended(Ok(()))
                },
                StreamPoll::End => after == fed.ended(Ok(())),
                StreamPoll::Panicked(panic) => exists|error: Error<E>|
                    #[trigger] error.is_panic_of(panic) && after == fed.ended(Err(error)),
            }
        },
    }
}

/// A streaming job that is over has passed on what its stream gave, in order, to the channel that
/// its handle's items come out of, and then told its consumer the outcome: a panic after the items
/// that came before it, and otherwise success.
pub proof fn stream_outcome_follows_its_items<T, E: std::fmt::Display>(
    before: StreamJobState<T, E>,
    handle: JobStreamHandle<T, E>,
    capacity: usize,
    polls: Seq<StreamPoll<T, E>>,
    items: Seq<Result<T, Error<E>>>,
    ends: Seq<mpsc::Sender<Result<T, Error<E>>>>,
    run: Driven<JobStatus, T, E>,
    after: StreamJobState<T, E>,
)
    requires
        before.is_fresh(handle, capacity),
        stream_runs(before, polls, items, ends, run, after),
        run is Over,
    ensures
        after.sent == items,
        took(ends, items),
        is_channel(handle.items(), Some(ends[0]), capacity),
        after.life.outcome is Some,
        after.life.report is Some,
        after.life.report->0.result == after.life.outcome,
        handed(before.life.report->0.channel, after.life.outcome->0),
        handle.outcome().waits_on(before.life.report->0),
        after.life.report->0.channel == before.life.report->0.channel,
        after.life.failed() <==> polls[items.len() as int] is Panicked,
        after.status == JobStatus::Failed <==> after.life.failed(),
        after.status == JobStatus::Failed || after.status == JobStatus::Completed,
{
    assert(Seq::<Result<T, Error<E>>>::empty() + items =~= items);
}

/// A consumer that stays gets every item of its stream, in order: the job is over only when the
/// stream has given its last item. Only where the channel has lost its receiver does the job end
/// before that.
pub proof fn consumer_that_stays_gets_every_item<T, E: std::fmt::Display>(
    before: StreamJobState<T, E>,
    polls: Seq<StreamPoll<T, E>>,
    items: Seq<Result<T, Error<E>>>,
    ends: Seq<mpsc::Sender<Result<T, Error<E>>>>,
    run: Driven<JobStatus, T, E>,
    after: StreamJobState<T, E>,
)
    requires
        stream_runs(before, polls, items, ends, run, after),
        run is Over,
        forall|item: Result<T, Error<E>>, end: mpsc::Sender<Result<T, Error<E>>>|
            !(#[trigger] lost(ends.last(), item, end)),
    ensures
        delivered(polls, items, offers_of(ends)),
        after.sent == before.sent + items,
        !(polls[items.len() as int] is Item),
        polls[items.len() as int] is End ==> after.status == JobStatus::Completed,
{
    lemma_took_delivered(polls, items, ends);
}

/// Waiting for room loses no item, however often it happens: when the item that a full channel gave
/// back is taken at last, and the job is run on what the stream gave after it, the channel has taken
/// all items so far in the order in which the stream gave them. A job that is blocked again is where
/// it was blocked before, only further on.
pub proof fn waiting_for_room_loses_no_item<T, E: std::fmt::Display>(
    before: StreamJobState<T, E>,
    polls: Seq<StreamPoll<T, E>>,
    items: Seq<Result<T, Error<E>>>,
    offers: Seq<(mpsc::Sender<Result<T, Error<E>>>, mpsc::Sender<Result<T, Error<E>>>)>,
    item: Result<T, Error<E>>,
    offer: (mpsc::Sender<Result<T, Error<E>>>, mpsc::Sender<Result<T, Error<E>>>),
    resumed: StreamJobState<T, E>,
    more: Seq<Result<T, Error<E>>>,
    ends: Seq<mpsc::Sender<Result<T, Error<E>>>>,
    run: Driven<JobStatus, T, E>,
    after: StreamJobState<T, E>,
)
    requires
        delivered(polls, items, offers),
        items.len() < polls.len(),
        gives(polls[items.len() as int], item),
        accepted(offer.0, item, offer.1),
        resumed.sent == (before.sent + items).push(item),
        stream_runs(resumed, polls.skip(items.len() as int + 1), more, ends, run, after),
    ensures
        ({
            let all = items.push(item) + more;
            &&& delivered(polls, all, offers.push(offer) + offers_of(ends))
            &&& after.sent == before.sent + all
            &&& run is Starved ==> all.len() == polls.len()
            &&& run matches Driven::Blocked { item: next, polls: rest } ==> {
                &&& all.len() < polls.len()
                &&& gives(polls[all.len() as int], next)
                &&& rest@ == polls.skip(all.len() as int + 1)
            }
            &&& run is Over ==> all.len() < polls.len()
            &&& run is Over && polls[all.len() as int] is End ==> {
                after == passed_on(resumed, more, ends.last()).ended(Ok(()))
            }
        }),
{
    let n = items.len() as int;
    let rest = polls.skip(n + 1);
    let all = items.push(item) + more;
    lemma_took_delivered(rest, more, ends);
    lemma_delivered_more(polls, items, offers, item, offer, more, offers_of(ends));
    assert(after.sent =~= before.sent + all);
    if more.len() < rest.len() {
        assert(rest[more.len() as int] == polls[all.len() as int]);
        assert(rest.skip(more.len() as int + 1) =~= polls.skip(all.len() as int + 1));
    }
}

/// A streaming job that was just made has not been run, and nothing was sent. It ends as it is told:
/// completed with success and failed with an error, and its consumer is told the same.
pub proof fn streaming_job_ends_as_it_is_told<T, E: std::fmt::Display>(
    job: StreamJobState<T, E>,
    handle: JobStreamHandle<T, E>,
    capacity: usize,
    outcome: Result<(), Error<E>>,
)
    ensures
        job.is_fresh(handle, capacity) ==> {
            &&& job.status == JobStatus::Pending
            &&& job.sent.len() == 0
            &&& connected(handle, job.end, job.life, capacity, None)
        },
        job.ended(outcome).status == if outcome is Ok {
            JobStatus::Completed
        } else {
            JobStatus::Failed
        },
        job.ended(outcome).sent == job.sent,
        job.ended(outcome).end == job.end,
        job.ended(outcome).life == job.life.terminal(outcome),
{
}

/// A run of a streaming job stops for one of these reasons alone: the stream ended, it panicked, the
/// channel lost its receiver, the channel is full, or there is nothing more to go on with. Only the
/// first three end the job: the first and the third with success, and the second with the panic. The
/// items before that were all passed on, each as the stream gave it.
pub proof fn streaming_job_stops_for_a_reason<T, E: std::fmt::Display>(
    before: StreamJobState<T, E>,
    polls: Seq<StreamPoll<T, E>>,
    items: Seq<Result<T, Error<E>>>,
    ends: Seq<mpsc::Sender<Result<T, Error<E>>>>,
    run: Driven<JobStatus, T, E>,
    after: StreamJobState<T, E>,
)
    requires
        stream_runs(before, polls, items, ends, run, after),
        before.life.valid(),
        before.life.outcome is None,
    ensures
        after.sent == before.sent + items,
        items.len() <= polls.len(),
        forall|i: int|
            #![trigger polls[i]]
            #![trigger items[i]]
            0 <= i < items.len() ==> polls[i] is Item && reports(polls[i]->Item_0, items[i]),
        took(ends, items),
        before.end == Some(ends[0]),
        ({
            let n = items.len() as int;
            match run {
                Driven::Starved => {
                    &&& n == polls.len()
                    &&& after.status == JobStatus::Running
                    &&& after.life == before.life
                    &&& after.end == Some(ends.last())
                },
                Driven::Blocked { item, polls: rest } => {
                    &&& n < polls.len()
                    &&& polls[n] matches StreamPoll::Item(given) && reports(given, item)
                    &&& rest@ == polls.skip(n + 1)
                    &&& after.status == JobStatus::Running
                    &&& after.life == before.life
                    &&& after.end is Some
                    &&& full(ends.last(), item, after.end->0)
                },
                Driven::Over(status) => {
                    &&& n < polls.len()
                    &&& status == after.status
                    &&& after.life.closed
                    &&& match polls[n] {
                        StreamPoll::Item(given) => {
                            &&& after.status == JobStatus::Completed
                            &&& after.life.outcome == Some(Ok::<(), Error<E>>(()))
                            &&& exists|
                                item: Result<T, Error<E>>,
                                end: mpsc::Sender<Result<T, Error<E>>>,
                            | reports(given, item) && #[trigger] lost(ends.last(), item, end)
                        },
                        StreamPoll::End => {
                            &&& after.status == JobStatus::Completed
                            &&& after.life.outcome == Some(Ok::<(), Error<E>>(()))
                        },
                        StreamPoll::Panicked(panic) => {
                            &&& after.status == JobStatus::Failed
                            &&& after.life.outcome matches Some(Err(Error::TaskPanic(message)))
                                && message@ == panic.text()
                        },
                    }
                },
            }
        }),
{
    assert forall|i: int|
        #![trigger polls[i]]
        #![trigger items[i]]
        0 <= i < items.len() implies polls[i] is Item && reports(polls[i]->Item_0, items[i]) by {
        assert(gives(polls[i], items[i]));
    }
    if run is Over {
        crate::lifecycle::first_outcome_wins(before.life, Ok(()), Ok(()));
    }
}

} // verus!
