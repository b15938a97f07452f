use vstd::prelude::*;
use crate::clock::Clock;
use crate::domain::{model_of, Bookmark, BookmarkId, BookmarkQuery};
use crate::event::{
    events_of, latest_time, lemma_replay_push, lookup, replay, created_model, times_sorted, DomainEvent,
    DomainEventEnvelope, EnvelopeModel, EventModel,
};

verus! {

/// Why the event store refused an append.
#[derive(Debug, PartialEq, Eq, Clone, Copy)]
pub enum StoreError {
    /// The log cannot take another entry.
    StoreUnavailable,
}

/// The append-only event log, kept in memory: the single source of truth.
pub struct MemoryEventStore {
    events: Vec<DomainEventEnvelope>,
}

impl View for MemoryEventStore {
    type V = Seq<EnvelopeModel>;

    closed spec fn view(&self) -> Seq<EnvelopeModel> {
        self.events@.map_values(|e: DomainEventEnvelope| e@)
    }
}

impl MemoryEventStore {
    /// The store's invariant: times never go backwards along the log.
    pub open spec fn wf(&self) -> bool {
        times_sorted(self@)
    }

    /// The events of the log, in append order.
    pub open spec fn log(&self) -> Seq<EventModel> {
        events_of(self@)
    }

    /// An empty log.
    pub fn new() -> (r: MemoryEventStore)
        ensures
            r@ == Seq::<EnvelopeModel>::empty(),
            r.wf(),
    {
        let r = MemoryEventStore { events: Vec::new() };
        assert(r@ =~= Seq::<EnvelopeModel>::empty());
        r
    }

    /// The number of envelopes in the log.
    pub fn len(&self) -> (r: usize)
        ensures
            r == self@.len(),
    {
        self.events.len()
    }

    /// The envelopes of the log, in append order.
    pub fn events(&self) -> (r: &Vec<DomainEventEnvelope>)
        ensures
            r@.map_values(|e: DomainEventEnvelope| e@) == self@,
    {
        &self.events
    }

    /// Appends `event`, stamped with the clock's current time, at the end of
    /// the log. Fails, and changes nothing, only when the log is full.
    pub fn append<C: Clock>(&mut self, event: DomainEvent, clock: &mut C) -> (r: Result<(), StoreError>)
        requires
            old(self).wf(),
            latest_time(old(self)@) <= old(clock).reading(),
        ensures
            final(self).wf(),
            r is Err <==> old(self)@.len() == usize::MAX,
            r is Ok ==> final(self)@ == old(self)@.push(
                EnvelopeModel { time: final(clock).reading(), event: event@ },
            ),
            r is Err ==> final(self)@ == old(self)@ && *final(clock) == *old(clock),
            old(clock).reading() <= final(clock).reading(),
            latest_time(final(self)@) <= final(clock).reading(),
    {
        if self.events.len() == usize::MAX {
            return Err(StoreError::StoreUnavailable);
        }
        let time = clock.now();
        let ghost before = self@;
        self.events.push(DomainEventEnvelope { time, payload: event });
        assert(self@ =~= before.push(EnvelopeModel { time, event: event@ }));
        Ok(())
    }

    /// Records the creation of `bookmark` and returns its id.
    pub fn save_bookmark<C: Clock>(&mut self, bookmark: &Bookmark, clock: &mut C) -> (r: Result<BookmarkId, StoreError>)
        requires
            old(self).wf(),
            latest_time(old(self)@) <= old(clock).reading(),
        ensures
            final(self).wf(),
            r is Err <==> old(self)@.len() == usize::MAX,
            r is Ok ==> r->Ok_0@ == bookmark.id@ && final(self)@ == old(self)@.push(
                EnvelopeModel { time: final(clock).reading(), event: created_model(bookmark@) },
            ),
            r is Err ==> final(self)@ == old(self)@ && *final(clock) == *old(clock),
            old(clock).reading() <= final(clock).reading(),
            latest_time(final(self)@) <= final(clock).reading(),
    {
        match self.append(DomainEvent::created(bookmark), clock) {
            Ok(()) => Ok(bookmark.id.clone()),
            Err(e) => Err(e),
        }
    }

    /// Records the deletion of the bookmark that `query` names, present or
    /// not.
    pub fn delete_bookmark<C: Clock>(&mut self, query: &BookmarkQuery, clock: &mut C) -> (r: Result<(), StoreError>)
        requires
            old(self).wf(),
            latest_time(old(self)@) <= old(clock).reading(),
        ensures
            final(self).wf(),
            r is Err <==> old(self)@.len() == usize::MAX,
            r is Ok ==> final(self)@ == old(self)@.push(
                EnvelopeModel { time: final(clock).reading(), event: EventModel::Deleted { id: query.id@ } },
            ),
            r is Err ==> final(self)@ == old(self)@ && *final(clock) == *old(clock),
            old(clock).reading() <= final(clock).reading(),
            latest_time(final(self)@) <= final(clock).reading(),
    {
        self.append(DomainEvent::deleted(&query.id), clock)
    }

    /// Replays the whole log in order and returns what it leaves for the id
    /// of `query`: the last creation of that id, unless a deletion followed.
    pub fn read_bookmark(&self, query: &BookmarkQuery) -> (r: Option<Bookmark>)
        ensures
            model_of(r) == lookup(replay(self.log()), query.id@),
    {
        let mut acc: Option<Bookmark> = None;
        let mut i: usize = 0;
        assert(self.log().take(0) =~= Seq::<EventModel>::empty());
        while i < self.events.len()
            invariant
                i <= self.events@.len(),
                model_of(acc) == lookup(replay(self.log().take(i as int)), query.id@),
            decreases self.events@.len() - i,
        {
            proof {
                let prefix = self.log().take(i as int);
                assert(self.log().take(i + 1) =~= prefix.push(self.events@[i as int].payload@));
                lemma_replay_push(prefix, self.events@[i as int].payload@);
            }
            match &self.events[i].payload {
                DomainEvent::BookmarkCreated { id, url, title } => {
                    if *id == query.id {
                        acc = Some(Bookmark { id: id.clone(), url: url.clone(), title: title.clone() });
                    }
                },
                DomainEvent::BookmarkDeleted { id } => {
                    if *id == query.id {
                        acc = None;
                    }
                },
            }
            i = i + 1;
        }
        assert(self.log().take(i as int) =~= self.log());
        acc
    }
}

} // verus!
