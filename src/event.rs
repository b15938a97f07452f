use vstd::prelude::*;
use crate::domain::{Bookmark, BookmarkId, BookmarkModel};

verus! {

/// Nanoseconds since the origin of the clock that stamped an event.
pub type Timestamp = u64;

/// A fact recorded in the event log.
#[derive(Debug, PartialEq, Clone)]
pub enum DomainEvent {
    BookmarkCreated { id: BookmarkId, url: String, title: String },
    BookmarkDeleted { id: BookmarkId },
}

/// The mathematical value of a [`DomainEvent`].
pub enum EventModel {
    Created { id: Seq<char>, url: Seq<char>, title: Seq<char> },
    Deleted { id: Seq<char> },
}

impl View for DomainEvent {
    type V = EventModel;

    open spec fn view(&self) -> EventModel {
        match self {
            DomainEvent::BookmarkCreated { id, url, title } => EventModel::Created {
                id: id@,
                url: url@,
                title: title@,
            },
            DomainEvent::BookmarkDeleted { id } => EventModel::Deleted { id: id@ },
        }
    }
}

impl DomainEvent {
    /// The event that records the creation of `b`.
    pub fn created(b: &Bookmark) -> (r: DomainEvent)
        ensures
            r@ == created_model(b@),
    {
        DomainEvent::BookmarkCreated { id: b.id.clone(), url: b.url.clone(), title: b.title.clone() }
    }

    /// The event that records the deletion of `id`.
    pub fn deleted(id: &BookmarkId) -> (r: DomainEvent)
        ensures
            r@ == (EventModel::Deleted { id: id@ }),
    {
        DomainEvent::BookmarkDeleted { id: id.clone() }
    }
}

/// An event together with the time at which it was appended.
#[derive(Debug, PartialEq, Clone)]
pub struct DomainEventEnvelope {
    pub time: Timestamp,
    pub payload: DomainEvent,
}

/// The mathematical value of a [`DomainEventEnvelope`].
pub struct EnvelopeModel {
    pub time: Timestamp,
    pub event: EventModel,
}

impl View for DomainEventEnvelope {
    type V = EnvelopeModel;

    open spec fn view(&self) -> EnvelopeModel {
        EnvelopeModel { time: self.time, event: self.payload@ }
    }
}

/// The creation event for a bookmark value.
pub open spec fn created_model(b: BookmarkModel) -> EventModel {
    EventModel::Created { id: b.id, url: b.url, title: b.title }
}

/// The state of the bookmarks: each present id and its current value.
pub type Projection = Map<Seq<char>, BookmarkModel>;

/// The effect of one event on the projection: a creation inserts or
/// overwrites the entry of its id, a deletion removes it.
pub open spec fn apply(m: Projection, e: EventModel) -> Projection {
    match e {
        EventModel::Created { id, url, title } => m.insert(
            id,
            BookmarkModel { id, url, title },
        ),
        EventModel::Deleted { id } => m.remove(id),
    }
}

/// The projection obtained by folding a log of events in order, from empty.
pub open spec fn replay(log: Seq<EventModel>) -> Projection
    decreases log.len(),
{
    if log.len() == 0 {
        Map::empty()
    } else {
        apply(replay(log.drop_last()), log.last())
    }
}

/// What a projection holds for `id`, if anything.
pub open spec fn lookup(m: Projection, id: Seq<char>) -> Option<BookmarkModel> {
    if m.contains_key(id) {
        Some(m[id])
    } else {
        None
    }
}

/// The events of a sequence of envelopes, in order.
pub open spec fn events_of(log: Seq<EnvelopeModel>) -> Seq<EventModel> {
    log.map_values(|e: EnvelopeModel| e.event)
}

/// Envelopes later in the log carry times no earlier than those before them.
pub open spec fn times_sorted(log: Seq<EnvelopeModel>) -> bool {
    forall|i: int, j: int| 0 <= i <= j < log.len() ==> log[i].time <= log[j].time
}

/// The time of the last envelope, or zero for an empty log.
pub open spec fn latest_time(log: Seq<EnvelopeModel>) -> Timestamp {
    if log.len() == 0 {
        0
    } else {
        log.last().time
    }
}

/// Folding one more event extends the fold of the prefix.
pub proof fn lemma_replay_push(log: Seq<EventModel>, e: EventModel)
    ensures
        replay(log.push(e)) == apply(replay(log), e),
{
    assert(log.push(e).drop_last() =~= log);
}

/// The events of an extended envelope log extend the events of the log.
pub proof fn lemma_events_of_push(log: Seq<EnvelopeModel>, e: EnvelopeModel)
    ensures
        events_of(log.push(e)) == events_of(log).push(e.event),
{
    assert(events_of(log.push(e)) =~= events_of(log).push(e.event));
}

} // verus!
