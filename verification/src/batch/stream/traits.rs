//! The tasks that stream batches run.

use vstd::prelude::*;

verus! {

/// What a multiplexed task produces: items and outcomes, each for the member of an index.
pub enum BatchStreamEvent<T, E> {
    /// An item for a member. An error in its place does not end the member.
    Item {
        /// The member's index.
        index: usize,
        /// The item.
        item: Result<T, E>,
    },
    /// The outcome of a member. It takes no more items after that.
    Finished {
        /// The member's index.
        index: usize,
        /// The outcome.
        outcome: Result<(), E>,
    },
}

/// A task that produces the items of all members in one stream of events.
pub trait MultiplexedBatchStreamTask {
    /// What one member asks for.
    type Input;

    /// What the members' streams are made of.
    type Item;

    /// What an item or an outcome that could not be had is replaced by.
    type Error: std::fmt::Display;
}

/// A task that prepares once for all members and then produces one stream for each.
pub trait IndependentBatchStreamTask {
    /// What one member asks for.
    type Input;

    /// What is prepared for all members.
    type Shared;

    /// What the members' streams are made of.
    type Item;

    /// What the preparation or an item that could not be had is replaced by.
    type Error: std::fmt::Display;
}

} // verus!
