use bookmarks::clock::ManualClock;
use bookmarks::command::{create_bookmark, delete_bookmark};
use bookmarks::domain::{Bookmark, BookmarkQuery};
use bookmarks::event::DomainEvent;
use bookmarks::event_store::MemoryEventStore;
use bookmarks::query::{read_bookmark, read_bookmarks};
use bookmarks::read_model::MemoryReadModel;

fn bookmark(id: &str, url: &str, title: &str) -> Bookmark {
    Bookmark { id: String::from(id), url: String::from(url), title: String::from(title) }
}

fn query(id: &str) -> BookmarkQuery {
    BookmarkQuery { id: String::from(id) }
}

struct Service {
    store: MemoryEventStore,
    read_model: MemoryReadModel,
    clock: ManualClock,
}

impl Service {
    fn new() -> Service {
        Service { store: MemoryEventStore::new(), read_model: MemoryReadModel::new(), clock: ManualClock::new(0) }
    }

    fn create(&mut self, b: Bookmark) -> String {
        create_bookmark(b, &mut self.store, &mut self.read_model, &mut self.clock).unwrap()
    }

    fn delete(&mut self, id: &str) {
        delete_bookmark(String::from(id), &mut self.store, &mut self.read_model, &mut self.clock).unwrap()
    }
}

fn sorted(mut v: Vec<Bookmark>) -> Vec<Bookmark> {
    v.sort_by(|a, b| a.id.cmp(&b.id));
    v
}

#[test]
fn end_to_end_create_read_delete() {
    let mut s = Service::new();
    let id = s.create(bookmark("1", "https://a.example", "A"));
    assert_eq!(id, "1");
    assert_eq!(read_bookmark(query("1"), &s.read_model), Some(bookmark("1", "https://a.example", "A")));
    s.delete("1");
    assert_eq!(read_bookmark(query("1"), &s.read_model), None);
    assert!(read_bookmarks(&s.read_model).iter().all(|b| b.id != "1"));
}

#[test]
fn create_twice_overwrites_and_logs_two_creations() {
    let mut s = Service::new();
    s.create(bookmark("A", "u1", "t1"));
    s.create(bookmark("A", "u2", "t2"));
    assert_eq!(read_bookmark(query("A"), &s.read_model), Some(bookmark("A", "u2", "t2")));
    assert_eq!(read_bookmarks(&s.read_model), vec![bookmark("A", "u2", "t2")]);
    let events = s.store.events();
    assert_eq!(events.len(), 2);
    assert!(events.iter().all(|e| matches!(e.payload, DomainEvent::BookmarkCreated { .. })));
}

#[test]
fn delete_of_absent_id_is_logged_and_changes_nothing() {
    let mut s = Service::new();
    s.create(bookmark("B", "ub", "tb"));
    assert_eq!(read_bookmark(query("Z"), &s.read_model), None);
    s.delete("Z");
    assert_eq!(read_bookmark(query("Z"), &s.read_model), None);
    assert_eq!(s.store.events().len(), 2);
    assert_eq!(s.store.events()[1].payload, DomainEvent::BookmarkDeleted { id: String::from("Z") });
    assert_eq!(read_bookmarks(&s.read_model), vec![bookmark("B", "ub", "tb")]);
}

#[test]
fn created_created_deleted_leaves_nothing() {
    let mut s = Service::new();
    s.create(bookmark("A", "u1", "t1"));
    s.create(bookmark("A", "u2", "t2"));
    s.delete("A");
    assert_eq!(read_bookmark(query("A"), &s.read_model), None);
    assert_eq!(s.store.read_bookmark(&query("A")), None);
}

#[test]
fn created_deleted_created_leaves_second() {
    let mut s = Service::new();
    s.create(bookmark("A", "u1", "t1"));
    s.delete("A");
    s.create(bookmark("A", "u2", "t2"));
    assert_eq!(read_bookmark(query("A"), &s.read_model), Some(bookmark("A", "u2", "t2")));
    assert_eq!(s.store.read_bookmark(&query("A")), Some(bookmark("A", "u2", "t2")));
}

#[test]
fn replaying_the_log_gives_the_live_listing() {
    let mut s = Service::new();
    s.create(bookmark("c", "uc", "tc"));
    s.create(bookmark("a", "ua", "ta"));
    s.delete("c");
    s.create(bookmark("b", "ub", "tb"));
    s.create(bookmark("a", "ua2", "ta2"));
    s.delete("nope");
    let rebuilt = MemoryReadModel::replayed(&s.store);
    assert_eq!(sorted(rebuilt.list()), sorted(read_bookmarks(&s.read_model)));
    assert_eq!(sorted(read_bookmarks(&s.read_model)), vec![bookmark("a", "ua2", "ta2"), bookmark("b", "ub", "tb")]);
    for id in ["a", "b", "c", "nope"] {
        assert_eq!(s.store.read_bookmark(&query(id)), read_bookmark(query(id), &s.read_model));
    }
}

#[test]
fn listing_keeps_first_appearance_order() {
    let mut s = Service::new();
    s.create(bookmark("x", "1", "1"));
    s.create(bookmark("y", "2", "2"));
    s.create(bookmark("x", "3", "3"));
    assert_eq!(read_bookmarks(&s.read_model), vec![bookmark("x", "3", "3"), bookmark("y", "2", "2")]);
    assert_eq!(read_bookmarks(&s.read_model), read_bookmarks(&s.read_model));
}

#[test]
fn read_model_upsert_and_remove() {
    let mut rm = MemoryReadModel::new();
    assert_eq!(rm.list(), vec![]);
    rm.upsert(bookmark("k", "u", "t"));
    rm.upsert(bookmark("k", "u", "t"));
    assert_eq!(rm.list(), vec![bookmark("k", "u", "t")]);
    rm.remove(&String::from("absent"));
    assert_eq!(rm.get(&query("k")), Some(bookmark("k", "u", "t")));
    rm.remove(&String::from("k"));
    assert_eq!(rm.get(&query("k")), None);
    assert_eq!(rm.list(), vec![]);
}

#[test]
fn stamps_come_from_the_clock() {
    let mut s = Service::new();
    s.clock.advance(30);
    s.create(bookmark("A", "u", "t"));
    s.clock.advance(12);
    s.delete("A");
    let times: Vec<u64> = s.store.events().iter().map(|e| e.time).collect();
    assert_eq!(times, vec![30, 42]);
}

#[test]
fn duplicate_copies_every_field() {
    let b = bookmark("i", "u", "t");
    assert_eq!(b.duplicate(), bookmark("i", "u", "t"));
}
