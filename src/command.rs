use vstd::prelude::*;
use crate::clock::Clock;
use crate::domain::{Bookmark, BookmarkId, BookmarkQuery};
use crate::event::{
    created_model, events_of, latest_time, lemma_events_of_push, lemma_replay_push, replay,
    EnvelopeModel, EventModel,
};
use crate::event_store::{MemoryEventStore, StoreError};
use crate::read_model::MemoryReadModel;

verus! {

/// The read model is the fold of the event log, and both are well formed.
pub open spec fn in_sync(store: &MemoryEventStore, read_model: &MemoryReadModel) -> bool {
    &&& store.wf()
    &&& read_model.wf()
    &&& replay(store.log()) == read_model@
}

/// Records the creation of `bookmark`, then sets it in the read model.
/// Where the log refuses the event, the read model is left as it was.
pub fn create_bookmark<C: Clock>(
    bookmark: Bookmark,
    store: &mut MemoryEventStore,
    read_model: &mut MemoryReadModel,
    clock: &mut C,
) -> (r: Result<BookmarkId, StoreError>)
    requires
        in_sync(old(store), old(read_model)),
        latest_time(old(store)@) <= old(clock).reading(),
    ensures
        in_sync(final(store), final(read_model)),
        old(clock).reading() <= final(clock).reading(),
        latest_time(final(store)@) <= final(clock).reading(),
        r is Err <==> old(store)@.len() == usize::MAX,
        r is Ok ==> {
            &&& r->Ok_0@ == bookmark.id@
            &&& final(store)@ == old(store)@.push(
                EnvelopeModel { time: final(clock).reading(), event: created_model(bookmark@) },
            )
            &&& final(read_model)@ == old(read_model)@.insert(bookmark.id@, bookmark@)
        },
        r is Err ==> {
            &&& final(store)@ == old(store)@
            &&& *final(read_model) == *old(read_model)
            &&& *final(clock) == *old(clock)
        },
{
    let ghost log = store@;
    match store.save_bookmark(&bookmark, clock) {
        Ok(id) => {
            let ghost e = EnvelopeModel { time: clock.reading(), event: created_model(bookmark@) };
            proof {
                lemma_events_of_push(log, e);
                lemma_replay_push(events_of(log), e.event);
            }
            read_model.upsert(bookmark);
            Ok(id)
        },
        Err(err) => Err(err),
    }
}

/// Records the deletion of `id`, then clears it from the read model. An id
/// that is not present is accepted all the same.
pub fn delete_bookmark<C: Clock>(
    id: BookmarkId,
    store: &mut MemoryEventStore,
    read_model: &mut MemoryReadModel,
    clock: &mut C,
) -> (r: Result<(), StoreError>)
    requires
        in_sync(old(store), old(read_model)),
        latest_time(old(store)@) <= old(clock).reading(),
    ensures
        in_sync(final(store), final(read_model)),
        old(clock).reading() <= final(clock).reading(),
        latest_time(final(store)@) <= final(clock).reading(),
        r is Err <==> old(store)@.len() == usize::MAX,
        r is Ok ==> {
            &&& final(store)@ == old(store)@.push(
                EnvelopeModel { time: final(clock).reading(), event: EventModel::Deleted { id: id@ } },
            )
            &&& final(read_model)@ == old(read_model)@.remove(id@)
        },
        r is Err ==> {
            &&& final(store)@ == old(store)@
            &&& *final(read_model) == *old(read_model)
            &&& *final(clock) == *old(clock)
        },
{
    let ghost log = store@;
    let query = BookmarkQuery { id };
    match store.delete_bookmark(&query, clock) {
        Ok(()) => {
            let ghost e = EnvelopeModel { time: clock.reading(), event: EventModel::Deleted { id: query.id@ } };
            proof {
                lemma_events_of_push(log, e);
                lemma_replay_push(events_of(log), e.event);
            }
            read_model.remove(&query.id);
            Ok(())
        },
        Err(err) => Err(err),
    }
}

} // verus!
