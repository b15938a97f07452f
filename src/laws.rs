use vstd::prelude::*;
use crate::command::in_sync;
use crate::domain::BookmarkModel;
use crate::event::{
    apply, created_model, lemma_replay_push, lookup, replay, EventModel, Projection,
};
use crate::event_store::MemoryEventStore;
use crate::read_model::{lists, MemoryReadModel};

verus! {

/// A command, as the handlers in `command` carry it out.
pub enum CommandModel {
    Create(BookmarkModel),
    Delete(Seq<char>),
}

/// The event that a command appends to the log.
pub open spec fn event_for(c: CommandModel) -> EventModel {
    match c {
        CommandModel::Create(b) => created_model(b),
        CommandModel::Delete(id) => EventModel::Deleted { id },
    }
}

/// The read model after a sequence of commands from empty: each creation
/// sets its bookmark under its id, each deletion clears its id.
pub open spec fn project(cmds: Seq<CommandModel>) -> Projection
    decreases cmds.len(),
{
    if cmds.len() == 0 {
        Map::empty()
    } else {
        let m = project(cmds.drop_last());
        match cmds.last() {
            CommandModel::Create(b) => m.insert(b.id, b),
            CommandModel::Delete(id) => m.remove(id),
        }
    }
}

/// For any sequence of commands, folding the log of their events from empty
/// gives the read model that the same commands leave behind.
pub proof fn law_replay_equivalence(cmds: Seq<CommandModel>)
    ensures
        replay(cmds.map_values(|c: CommandModel| event_for(c))) == project(cmds),
    decreases cmds.len(),
{
    if cmds.len() > 0 {
        let log = cmds.map_values(|c: CommandModel| event_for(c));
        let prefix = cmds.drop_last();
        assert(log.drop_last() =~= prefix.map_values(|c: CommandModel| event_for(c)));
        law_replay_equivalence(prefix);
        match cmds.last() {
            CommandModel::Create(b) => {
                assert(apply(project(prefix), created_model(b)) =~= project(prefix).insert(b.id, b));
            },
            CommandModel::Delete(id) => {},
        }
    }
}

/// While the handlers keep a store and a read model in step, the listing of
/// the read model holds exactly the bookmarks of the replayed log, and a
/// read model rebuilt from the log holds the same.
pub proof fn law_listing_matches_replay(store: &MemoryEventStore, read_model: &MemoryReadModel)
    requires
        in_sync(store, read_model),
    ensures
        lists(read_model.listing(), replay(store.log())),
        forall|id: Seq<char>| lookup(replay(store.log()), id) == lookup(read_model@, id),
{
    read_model.lemma_listing();
}

/// Creating the same id twice leaves the second value, and the log grows by
/// two creation events.
pub proof fn law_create_overwrites(log: Seq<EventModel>, first: BookmarkModel, second: BookmarkModel)
    requires
        first.id == second.id,
    ensures
        ({
            let after = log.push(created_model(first)).push(created_model(second));
            &&& replay(after) == replay(log).insert(second.id, second)
            &&& lookup(replay(after), second.id) == Some(second)
            &&& after.len() == log.len() + 2
            &&& after[log.len() as int] is Created
            &&& after[log.len() as int + 1] is Created
        }),
{
    let one = log.push(created_model(first));
    lemma_replay_push(log, created_model(first));
    lemma_replay_push(one, created_model(second));
    assert(replay(one.push(created_model(second))) =~= replay(log).insert(second.id, second));
}

/// No creation event for `id` stands in `log`.
pub open spec fn never_created(log: Seq<EventModel>, id: Seq<char>) -> bool {
    forall|i: int| 0 <= i < log.len() ==> !(#[trigger] log[i] is Created && log[i]->Created_id == id)
}

/// Deleting an id that was never created adds a deletion event and leaves
/// the projection as it was, without that id before and after.
pub proof fn law_delete_absent(log: Seq<EventModel>, id: Seq<char>)
    requires
        never_created(log, id),
    ensures
        lookup(replay(log), id) == None::<BookmarkModel>,
        replay(log.push(EventModel::Deleted { id })) == replay(log),
        lookup(replay(log.push(EventModel::Deleted { id })), id) == None::<BookmarkModel>,
        log.push(EventModel::Deleted { id }).last() == (EventModel::Deleted { id }),
    decreases log.len(),
{
    if log.len() > 0 {
        let prefix = log.drop_last();
        assert(never_created(prefix, id)) by {
            assert forall|i: int| 0 <= i < prefix.len() implies !(#[trigger] prefix[i] is Created
                && prefix[i]->Created_id == id) by {
                assert(prefix[i] == log[i]);
            }
        }
        law_delete_absent(prefix, id);
        assert(log.last() == log[log.len() - 1]);
    }
    lemma_replay_push(log, EventModel::Deleted { id });
    assert(replay(log).remove(id) =~= replay(log));
}

/// The last event for an id decides: created, created again, then deleted
/// leaves nothing; created, deleted, then created again leaves the second
/// value.
pub proof fn law_last_event_wins(
    log: Seq<EventModel>,
    id: Seq<char>,
    u1: Seq<char>,
    t1: Seq<char>,
    u2: Seq<char>,
    t2: Seq<char>,
)
    ensures
        lookup(
            replay(
                log.push(EventModel::Created { id, url: u1, title: t1 }).push(
                    EventModel::Created { id, url: u2, title: t2 },
                ).push(EventModel::Deleted { id }),
            ),
            id,
        ) == None::<BookmarkModel>,
        lookup(
            replay(
                log.push(EventModel::Created { id, url: u1, title: t1 }).push(
                    EventModel::Deleted { id },
                ).push(EventModel::Created { id, url: u2, title: t2 }),
            ),
            id,
        ) == Some(BookmarkModel { id, url: u2, title: t2 }),
{
    let c1 = EventModel::Created { id, url: u1, title: t1 };
    let c2 = EventModel::Created { id, url: u2, title: t2 };
    let d = EventModel::Deleted { id };
    lemma_replay_push(log, c1);
    lemma_replay_push(log.push(c1), c2);
    lemma_replay_push(log.push(c1).push(c2), d);
    lemma_replay_push(log.push(c1), d);
    lemma_replay_push(log.push(c1).push(d), c2);
}

/// Of two envelopes in a well-formed store, the later one's time is not
/// earlier than the former's.
pub proof fn law_times_monotone(store: &MemoryEventStore, i: int, j: int)
    requires
        store.wf(),
        0 <= i <= j < store@.len(),
    ensures
        store@[i].time <= store@[j].time,
{
}

} // verus!
