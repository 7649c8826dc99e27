//! The model that the polls of paged sources share.

use vstd::prelude::*;

use crate::schema::PetRecordView;
use crate::time::Moment;

verus! {

/// The model of a poll under way.
pub struct PollView {
    /// Only what changed after this instant is asked for.
    pub since: Option<Moment>,
    /// Where the next page begins.
    pub offset: nat,
    /// The records so far.
    pub records: Seq<PetRecordView>,
    /// Whether the last page has been read.
    pub done: bool,
}

/// A poll that has just begun.
pub open spec fn begun(since: Option<Moment>) -> PollView {
    PollView { since, offset: 0, records: Seq::empty(), done: false }
}

impl PollView {
    /// The poll after a reply that says nothing has changed: it is over, with
    /// what it has.
    pub open spec fn unchanged(self) -> PollView {
        PollView { done: true, ..self }
    }
}

/// A poll whose first request is answered that nothing has changed ends at once
/// and without records.
pub proof fn nothing_changed_means_no_records(since: Option<Moment>)
    ensures
        begun(since).unchanged().done,
        begun(since).unchanged().records.len() == 0,
{
}

/// A poll begins at the first row, with no records, under way; and a reply that
/// nothing has changed ends it and keeps the rest as it is.
pub proof fn polls_begin_at_the_first_row(since: Option<Moment>, poll: PollView)
    ensures
        begun(since).since == since,
        begun(since).offset == 0,
        begun(since).records.len() == 0,
        !begun(since).done,
        poll.unchanged().done,
        poll.unchanged().since == poll.since,
        poll.unchanged().offset == poll.offset,
        poll.unchanged().records == poll.records,
{
}

} // verus!
