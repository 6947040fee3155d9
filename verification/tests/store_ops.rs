use internotes::note::{Note, NoteDbStatus, Status};
use internotes::store::Store;
use internotes::tombstones::TombstoneBuffer;
use std::sync::Arc;

fn note(uuid: u128, title: &str) -> Note {
    Note {
        uuid,
        db_status: NoteDbStatus::New,
        title: title.to_string(),
        status: Status::Active,
        mod_time: 0,
        description: String::new(),
    }
}

#[test]
fn a_new_store_holds_nothing() {
    let store = Store::new();
    assert_eq!(store.len(), 0);
    assert!(!store.contains(0));
    assert!(store.get(0).is_none());
    assert!(store.snapshot_all().is_empty());
}

#[test]
fn insert_puts_the_note_under_its_identifier() {
    let mut store = Store::new();
    store.insert(note(3, "three"));
    store.insert(note(4, "four"));
    assert_eq!(store.len(), 2);
    assert!(store.contains(3));
    assert!(!store.contains(5));
    assert_eq!(*store.get(4).unwrap(), note(4, "four"));
}

#[test]
fn insert_overwrites_the_note_that_stood_there() {
    let mut store = Store::new();
    store.insert(note(3, "old"));
    store.insert(note(3, "new"));
    assert_eq!(store.len(), 1);
    assert_eq!(store.get(3).unwrap().title, "new");
}

#[test]
fn remove_hands_the_note_over_and_leaves_the_others() {
    let mut store = Store::new();
    store.insert(note(1, "one"));
    store.insert(note(2, "two"));
    let removed = store.remove(1).unwrap();
    assert_eq!(*removed, note(1, "one"));
    assert!(store.remove(1).is_none());
    assert!(store.remove(9).is_none());
    assert_eq!(store.len(), 1);
    assert_eq!(store.get(2).unwrap().title, "two");
}

#[test]
fn get_for_mutation_hands_out_a_copy_and_leaves_the_store() {
    let mut store = Store::new();
    store.insert(note(1, "one"));
    let mut copy = store.get_for_mutation(1).unwrap();
    assert_eq!(copy, note(1, "one"));
    copy.title = String::from("changed");
    assert_eq!(store.get(1).unwrap().title, "one");
    store.insert(copy);
    assert_eq!(store.get(1).unwrap().title, "changed");
    assert!(store.get_for_mutation(2).is_none());
}

#[test]
fn snapshot_all_names_every_note_once() {
    let mut store = Store::new();
    for id in 0..50u128 {
        store.insert(note(id, "n"));
    }
    store.remove(10);
    let mut ids: Vec<u128> = store.snapshot_all().iter().map(|note| note.uuid).collect();
    ids.sort();
    let expected: Vec<u128> = (0..50u128).filter(|id| *id != 10).collect();
    assert_eq!(ids, expected);
}

#[test]
fn tombstones_come_out_in_the_order_they_went_in() {
    let mut buffer = TombstoneBuffer::new();
    assert_eq!(buffer.len(), 0);
    buffer.push(Arc::new(note(5, "five")));
    buffer.push(Arc::new(note(2, "two")));
    assert_eq!(buffer.len(), 2);
    assert!(buffer.holds(5));
    assert!(buffer.holds(2));
    assert!(!buffer.holds(3));
    let drained = buffer.drain();
    assert_eq!(drained.len(), 2);
    assert_eq!(*drained[0], note(5, "five"));
    assert_eq!(*drained[1], note(2, "two"));
    assert_eq!(buffer.len(), 0);
    assert!(!buffer.holds(5));
    assert!(buffer.drain().is_empty());
}

#[test]
fn note_copies_agree_with_the_note() {
    let original = note(8, "eight");
    assert_eq!(original.duplicate(), original);
    assert!(original.same_as(&original.duplicate()));
    let retagged = original.retagged(NoteDbStatus::FromDb);
    assert_eq!(retagged.db_status, NoteDbStatus::FromDb);
    assert_eq!(retagged.title, "eight");
    assert!(!original.same_as(&retagged));
    assert!(original.is_dirty());
    assert!(!retagged.is_dirty());
    assert!(original.retagged(NoteDbStatus::Updated).is_dirty());
    assert_eq!(NoteDbStatus::default(), NoteDbStatus::New);
}
