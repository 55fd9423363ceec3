use hn_sync::firebase_listener;
use hn_sync::models::{Item, Kid};
use hn_sync::store::MemoryStore;

fn row(id: i64, title: &str) -> Item {
    Item {
        id,
        deleted: None,
        type_: Some("story".to_string()),
        by: Some("pg".to_string()),
        time: Some(1160418111),
        text: None,
        dead: None,
        parent: None,
        poll: None,
        url: None,
        score: Some(57),
        title: Some(title.to_string()),
        parts: None,
        descendants: Some(0),
    }
}

fn remote(id: i64, kids: Vec<i64>) -> firebase_listener::Item {
    firebase_listener::Item {
        id,
        deleted: None,
        type_: Some("story".to_string()),
        by: Some("dhouston".to_string()),
        time: Some(1175714200),
        text: None,
        dead: None,
        parent: None,
        poll: None,
        url: Some("http://www.getdropbox.com/u/2/screencast.html".to_string()),
        score: Some(111),
        title: Some("My YC app: Dropbox".to_string()),
        parts: None,
        descendants: Some(71),
        kids: Some(kids),
    }
}

#[test]
fn upsert_same_item_twice_keeps_one_row() {
    let mut store = MemoryStore::new();
    let (r, kids) = Item::from_remote(remote(8863, vec![9224, 8917]));
    store.upsert_items(vec![r.clone()]);
    store.upsert_kids(kids.clone());
    let first_item = store.get_item(8863).cloned();
    store.upsert_items(vec![r.clone()]);
    store.upsert_kids(kids);
    assert_eq!(store.item_count(), 1);
    assert_eq!(store.kid_count(), 2);
    assert_eq!(store.get_item(8863).cloned(), first_item);
    assert_eq!(store.get_item(8863), Some(&r));
    assert_eq!(store.get_kid(8863, 9224), Some(0));
    assert_eq!(store.get_kid(8863, 8917), Some(1));
}

#[test]
fn upsert_last_write_wins() {
    let mut store = MemoryStore::new();
    store.upsert_items(vec![row(7, "A")]);
    store.upsert_items(vec![row(7, "B")]);
    assert_eq!(store.item_count(), 1);
    assert_eq!(store.get_item(7).unwrap().title.as_deref(), Some("B"));
}

#[test]
fn upsert_last_write_wins_within_one_batch() {
    let mut store = MemoryStore::new();
    store.upsert_items(vec![row(7, "A"), row(8, "C"), row(7, "B")]);
    assert_eq!(store.item_count(), 2);
    assert_eq!(store.get_item(7).unwrap().title.as_deref(), Some("B"));
}

#[test]
fn upsert_kid_overwrites_display_order() {
    let mut store = MemoryStore::new();
    store.upsert_kids(vec![Kid { item: 1, kid: 2, display_order: 0 }]);
    store.upsert_kids(vec![Kid { item: 1, kid: 2, display_order: 3 }, Kid { item: 1, kid: 4, display_order: 0 }]);
    assert_eq!(store.kid_count(), 2);
    assert_eq!(store.get_kid(1, 2), Some(3));
    assert_eq!(store.get_kid(1, 4), Some(0));
    assert_eq!(store.get_kid(2, 1), None);
}

#[test]
fn max_stored_id_tracks_largest_id() {
    let mut store = MemoryStore::new();
    assert_eq!(store.max_stored_id(), None);
    store.upsert_items(vec![row(5, "x"), row(12, "y"), row(3, "z")]);
    assert_eq!(store.max_stored_id(), Some(12));
    store.upsert_items(vec![row(12, "again")]);
    assert_eq!(store.max_stored_id(), Some(12));
    store.upsert_items(vec![row(-4, "neg")]);
    assert_eq!(store.max_stored_id(), Some(12));
}

#[test]
fn empty_batches_change_nothing() {
    let mut store = MemoryStore::new();
    store.upsert_items(vec![]);
    store.upsert_kids(vec![]);
    assert_eq!(store.item_count(), 0);
    assert_eq!(store.kid_count(), 0);
    assert_eq!(store.max_stored_id(), None);
}

#[test]
fn disjoint_writers_do_not_interfere() {
    let mut a = MemoryStore::new();
    a.upsert_items(vec![row(1, "mine")]);
    a.upsert_items(vec![row(2, "theirs")]);
    let mut b = MemoryStore::new();
    b.upsert_items(vec![row(2, "theirs")]);
    b.upsert_items(vec![row(1, "mine")]);
    assert_eq!(a.get_item(1), b.get_item(1));
    assert_eq!(a.get_item(1).unwrap().title.as_deref(), Some("mine"));
    assert_eq!(a.get_item(1).unwrap().id, 1);
}
