use vstd::prelude::*;
use crate::domain::{model_of, Bookmark, BookmarkId, BookmarkModel, BookmarkQuery};
use crate::event::{lemma_replay_push, lookup, replay, DomainEvent, DomainEventEnvelope, Projection};
use crate::event_store::MemoryEventStore;

verus! {

/// The bookmarks present now, keyed by id, listed in the order in which their
/// ids first appeared.
pub struct MemoryReadModel {
    entries: Vec<Bookmark>,
    model: Ghost<Projection>,
}

impl View for MemoryReadModel {
    type V = Projection;

    closed spec fn view(&self) -> Projection {
        self.model@
    }
}

/// A listing of bookmarks holds exactly the entries of `m`, each id once.
pub open spec fn lists(s: Seq<BookmarkModel>, m: Projection) -> bool {
    &&& forall|i: int| 0 <= i < s.len() ==> #[trigger] m.contains_key(s[i].id) && m[s[i].id] == s[i]
    &&& forall|i: int, j: int| 0 <= i < j < s.len() ==> s[i].id != s[j].id
    &&& forall|k: Seq<char>| m.contains_key(k) ==> exists|i: int| 0 <= i < s.len() && #[trigger] s[i].id == k
}

impl MemoryReadModel {
    /// The bookmarks in listing order.
    pub closed spec fn listing(&self) -> Seq<BookmarkModel> {
        self.entries@.map_values(|b: Bookmark| b@)
    }

    /// The listing holds each entry of the map once, and nothing else.
    pub closed spec fn wf(&self) -> bool {
        lists(self.listing(), self@)
    }

    /// The listing of a well-formed read model lists its map.
    pub proof fn lemma_listing(&self)
        requires
            self.wf(),
        ensures
            lists(self.listing(), self@),
    {
    }

    /// A read model with no bookmarks.
    pub fn new() -> (r: MemoryReadModel)
        ensures
            r.wf(),
            r@ == Projection::empty(),
    {
        let r = MemoryReadModel { entries: Vec::new(), model: Ghost(Map::empty()) };
        assert(r.listing() =~= Seq::<BookmarkModel>::empty());
        r
    }

    /// The position of the entry for `id`, if there is one.
    fn position(&self, id: &BookmarkId) -> (r: Option<usize>)
        requires
            self.wf(),
        ensures
            match r {
                Some(j) => j < self.entries@.len() && self.entries@[j as int].id@ == id@,
                None => !self@.contains_key(id@),
            },
    {
        let mut i: usize = 0;
        while i < self.entries.len()
            invariant
                i <= self.entries@.len(),
                forall|k: int| 0 <= k < i ==> self.entries@[k].id@ != id@,
            decreases self.entries@.len() - i,
        {
            if self.entries[i].id == *id {
                return Some(i);
            }
            i = i + 1;
        }
        proof {
            if self@.contains_key(id@) {
                let k = choose|k: int| 0 <= k < self.listing().len() && #[trigger] self.listing()[k].id == id@;
                assert(self.listing()[k].id == self.entries@[k].id@);
            }
        }
        None
    }

    /// What the read model holds for the id of `query`.
    pub fn get(&self, query: &BookmarkQuery) -> (r: Option<Bookmark>)
        requires
            self.wf(),
        ensures
            model_of(r) == lookup(self@, query.id@),
    {
        match self.position(&query.id) {
            Some(j) => {
                assert(self.listing()[j as int] == self.entries@[j as int]@);
                assert(self@.contains_key(self.listing()[j as int].id));
                Some(self.entries[j].duplicate())
            },
            None => None,
        }
    }

    /// Sets the entry for the id of `bookmark` to `bookmark`, overwriting any
    /// earlier one.
    pub fn upsert(&mut self, bookmark: Bookmark)
        requires
            old(self).wf(),
        ensures
            final(self).wf(),
            final(self)@ == old(self)@.insert(bookmark.id@, bookmark@),
    {
        let ghost old_listing = self.listing();
        let ghost old_map = self@;
        let ghost b = bookmark@;
        match self.position(&bookmark.id) {
            Some(j) => {
                self.entries.set(j, bookmark);
                self.model = Ghost(self.model@.insert(b.id, b));
                proof {
                    let s = self.listing();
                    assert(s =~= old_listing.update(j as int, b));
                    assert(old_listing[j as int].id == b.id);
                    assert forall|i: int| 0 <= i < s.len() implies #[trigger] self@.contains_key(s[i].id)
                        && self@[s[i].id] == s[i] by {
                        if i != j {
                            assert(old_listing[i].id != old_listing[j as int].id);
                            assert(old_map.contains_key(old_listing[i].id));
                        }
                    }
                    assert forall|i: int, i2: int| 0 <= i < i2 < s.len() implies s[i].id != s[i2].id by {
                        assert(old_listing[i].id != old_listing[i2].id);
                    }
                    assert forall|k: Seq<char>| self@.contains_key(k) implies exists|i: int|
                        0 <= i < s.len() && #[trigger] s[i].id == k by {
                        if k != b.id {
                            assert(old_map.contains_key(k));
                            let i = choose|i: int| 0 <= i < old_listing.len() && #[trigger] old_listing[i].id == k;
                            assert(s[i].id == k);
                        } else {
                            assert(s[j as int].id == k);
                        }
                    }
                }
            },
            None => {
                self.entries.push(bookmark);
                self.model = Ghost(self.model@.insert(b.id, b));
                proof {
                    let s = self.listing();
                    let n = old_listing.len() as int;
                    assert(s =~= old_listing.push(b));
                    assert forall|i: int| 0 <= i < s.len() implies #[trigger] self@.contains_key(s[i].id)
                        && self@[s[i].id] == s[i] by {
                        if i != n {
                            assert(old_map.contains_key(old_listing[i].id));
                        }
                    }
                    assert forall|i: int, i2: int| 0 <= i < i2 < s.len() implies s[i].id != s[i2].id by {
                        if i2 == n {
                            assert(old_map.contains_key(old_listing[i].id));
                        } else {
                            assert(old_listing[i].id != old_listing[i2].id);
                        }
                    }
                    assert forall|k: Seq<char>| self@.contains_key(k) implies exists|i: int|
                        0 <= i < s.len() && #[trigger] s[i].id == k by {
                        if k != b.id {
                            assert(old_map.contains_key(k));
                            let i = choose|i: int| 0 <= i < old_listing.len() && #[trigger] old_listing[i].id == k;
                            assert(s[i].id == k);
                        } else {
                            assert(s[n].id == k);
                        }
                    }
                }
            },
        }
    }

    /// Clears the entry for `id`; nothing changes where there is none.
    pub fn remove(&mut self, id: &BookmarkId)
        requires
            old(self).wf(),
        ensures
            final(self).wf(),
            final(self)@ == old(self)@.remove(id@),
    {
        let ghost old_listing = self.listing();
        let ghost old_map = self@;
        match self.position(id) {
            Some(j) => {
                self.entries.remove(j);
                self.model = Ghost(self.model@.remove(id@));
                proof {
                    let s = self.listing();
                    assert(s =~= old_listing.remove(j as int));
                    assert(old_listing[j as int].id == id@);
                    assert forall|i: int| 0 <= i < s.len() implies #[trigger] self@.contains_key(s[i].id)
                        && self@[s[i].id] == s[i] by {
                        let oi = if i < j { i } else { i + 1 };
                        assert(s[i] == old_listing[oi]);
                        assert(old_listing[oi].id != old_listing[j as int].id);
                        assert(old_map.contains_key(old_listing[oi].id));
                    }
                    assert forall|i: int, i2: int| 0 <= i < i2 < s.len() implies s[i].id != s[i2].id by {
                        let oi = if i < j { i } else { i + 1 };
                        let oi2 = if i2 < j { i2 } else { i2 + 1 };
                        assert(old_listing[oi].id != old_listing[oi2].id);
                    }
                    assert forall|k: Seq<char>| self@.contains_key(k) implies exists|i: int|
                        0 <= i < s.len() && #[trigger] s[i].id == k by {
                        assert(old_map.contains_key(k));
                        let i = choose|i: int| 0 <= i < old_listing.len() && #[trigger] old_listing[i].id == k;
                        if i < j {
                            assert(s[i].id == k);
                        } else {
                            assert(i != j);
                            assert(s[i - 1].id == k);
                        }
                    }
                }
            },
            None => {
                assert(self@.remove(id@) =~= self@);
            },
        }
    }

    /// The bookmarks present, each once, in listing order.
    pub fn list(&self) -> (r: Vec<Bookmark>)
        requires
            self.wf(),
        ensures
            r@.map_values(|b: Bookmark| b@) == self.listing(),
            lists(r@.map_values(|b: Bookmark| b@), self@),
    {
        let mut r: Vec<Bookmark> = Vec::new();
        let mut i: usize = 0;
        while i < self.entries.len()
            invariant
                i <= self.entries@.len(),
                r@.map_values(|b: Bookmark| b@) == self.listing().take(i as int),
            decreases self.entries@.len() - i,
        {
            let b = self.entries[i].duplicate();
            proof {
                assert(self.listing().take(i + 1) =~= self.listing().take(i as int).push(b@));
                assert(r@.push(b).map_values(|b: Bookmark| b@) =~= r@.map_values(|b: Bookmark| b@).push(b@));
            }
            r.push(b);
            i = i + 1;
        }
        assert(self.listing().take(i as int) =~= self.listing());
        r
    }

    /// A read model built afresh by replaying the whole log of `store`.
    pub fn replayed(store: &MemoryEventStore) -> (r: MemoryReadModel)
        ensures
            r.wf(),
            r@ == replay(store.log()),
    {
        let events = store.events();
        let ghost log = store.log();
        proof {
            assert(log =~= events@.map_values(|e: DomainEventEnvelope| e.payload@));
            assert(log.take(0) =~= Seq::empty());
        }
        let mut r = MemoryReadModel::new();
        let mut i: usize = 0;
        while i < events.len()
            invariant
                i <= events@.len(),
                log == events@.map_values(|e: DomainEventEnvelope| e.payload@),
                r.wf(),
                r@ == replay(log.take(i as int)),
            decreases events@.len() - i,
        {
            proof {
                assert(log.take(i + 1) =~= log.take(i as int).push(events@[i as int].payload@));
                lemma_replay_push(log.take(i as int), events@[i as int].payload@);
            }
            match &events[i].payload {
                DomainEvent::BookmarkCreated { id, url, title } => {
                    r.upsert(Bookmark { id: id.clone(), url: url.clone(), title: title.clone() });
                },
                DomainEvent::BookmarkDeleted { id } => {
                    r.remove(id);
                },
            }
            i = i + 1;
        }
        assert(log.take(i as int) =~= log);
        r
    }
}

} // verus!
