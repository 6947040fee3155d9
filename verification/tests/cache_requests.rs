use internotes::cache::Cache;
use internotes::error::RequestError;
use internotes::json;
use internotes::note::{Note, NoteDbStatus, Status};
use internotes::reply::{remove_reply, update_reply};

fn payload(uuid: u128, title: &str, status: Status) -> json::Note {
    json::Note {
        uuid,
        title: title.to_string(),
        status,
        mod_time: 1_700_000_000,
        description: String::from("body"),
    }
}

fn stored(uuid: u128, tag: NoteDbStatus, title: &str) -> Note {
    Note {
        uuid,
        db_status: tag,
        title: title.to_string(),
        status: Status::Active,
        mod_time: 7,
        description: String::new(),
    }
}

fn listed_ids(cache: &Cache) -> Vec<u128> {
    let mut ids: Vec<u128> = cache.snapshot_all().iter().map(|note| note.uuid).collect();
    ids.sort();
    ids
}

#[test]
fn create_update_list_delete_delete_again() {
    let mut cache = Cache::new();
    let id = cache.create(payload(0, "x", Status::Active));
    assert_eq!(cache.update(payload(id, "x", Status::Completed)), Ok(()));
    let listed = cache.snapshot_all();
    assert_eq!(listed.len(), 1);
    assert_eq!(listed[0].uuid, id);
    assert_eq!(listed[0].title, "x");
    assert_eq!(listed[0].status, Status::Completed);
    assert_eq!(cache.delete(json::Uuid { uuid: id }), Ok(()));
    assert_eq!(cache.delete(json::Uuid { uuid: id }), Err(RequestError::NotFound));
    assert_eq!(cache.snapshot_all().len(), 0);
}

#[test]
fn new_cache_is_empty() {
    let cache = Cache::new();
    assert_eq!(cache.len(), 0);
    assert_eq!(cache.tombstone_count(), 0);
    assert_eq!(cache.dirty_count(), 0);
    assert!(cache.snapshot_all().is_empty());
    assert!(cache.get(1).is_none());
}

#[test]
fn create_from_takes_the_candidate_when_it_is_free() {
    let mut cache = Cache::new();
    let id = cache.create_from(41, payload(999, "first", Status::Active));
    assert_eq!(id, 41);
    let note = cache.get(41).unwrap();
    assert_eq!(
        *note,
        Note {
            uuid: 41,
            db_status: NoteDbStatus::New,
            title: String::from("first"),
            status: Status::Active,
            mod_time: 1_700_000_000,
            description: String::from("body"),
        }
    );
    assert_eq!(cache.dirty_count(), 1);
    assert_eq!(cache.len(), 1);
}

#[test]
fn create_from_moves_on_to_the_next_free_identifier() {
    let mut cache = Cache::new();
    assert_eq!(cache.create_from(7, payload(0, "a", Status::Active)), 7);
    assert_eq!(cache.create_from(8, payload(0, "b", Status::Active)), 8);
    assert_eq!(cache.create_from(7, payload(0, "c", Status::Active)), 9);
    assert_eq!(listed_ids(&cache), vec![7, 8, 9]);
    assert_eq!(cache.get(7).unwrap().title, "a");
    assert_eq!(cache.get(9).unwrap().title, "c");
}

#[test]
fn create_from_goes_round_after_the_largest_identifier() {
    let mut cache = Cache::new();
    assert_eq!(cache.create_from(u128::MAX, payload(0, "a", Status::Active)), u128::MAX);
    assert_eq!(cache.create_from(u128::MAX, payload(0, "b", Status::Active)), 0);
    assert_eq!(cache.create_from(u128::MAX, payload(0, "c", Status::Active)), 1);
}

#[test]
fn create_from_avoids_an_identifier_that_waits_in_the_tombstones() {
    let mut cache = Cache::new();
    assert_eq!(cache.create_from(5, payload(0, "a", Status::Active)), 5);
    assert_eq!(cache.delete(json::Uuid { uuid: 5 }), Ok(()));
    assert_eq!(cache.tombstone_count(), 1);
    assert_eq!(cache.create_from(5, payload(0, "b", Status::Active)), 6);
    assert!(cache.get(5).is_none());
}

#[test]
fn create_draws_distinct_identifiers() {
    let mut cache = Cache::new();
    let first = cache.create(payload(3, "a", Status::Active));
    let second = cache.create(payload(3, "b", Status::Archived));
    assert_ne!(first, second);
    for id in [first, second] {
        assert_eq!((id >> 76) & 0xf, 4);
        assert_eq!((id >> 62) & 0x3, 2);
    }
    assert_eq!(cache.len(), 2);
    assert_eq!(cache.get(first).unwrap().title, "a");
    assert_eq!(cache.get(second).unwrap().status, Status::Archived);
    assert_eq!(cache.get(first).unwrap().db_status, NoteDbStatus::New);
    assert_eq!(cache.dirty_count(), 2);
}

#[test]
fn update_overwrites_every_field_and_tags_updated() {
    let mut cache = Cache::load(vec![stored(12, NoteDbStatus::FromDb, "old")]);
    let result = cache.update(json::Note {
        uuid: 12,
        title: String::from("new"),
        status: Status::Archived,
        mod_time: -3,
        description: String::from("text"),
    });
    assert_eq!(result, Ok(()));
    assert_eq!(
        *cache.get(12).unwrap(),
        Note {
            uuid: 12,
            db_status: NoteDbStatus::Updated,
            title: String::from("new"),
            status: Status::Archived,
            mod_time: -3,
            description: String::from("text"),
        }
    );
    assert_eq!(cache.dirty_count(), 1);
    assert_eq!(cache.len(), 1);
}

#[test]
fn update_of_a_missing_note_changes_nothing() {
    let mut cache = Cache::load(vec![stored(1, NoteDbStatus::FromDb, "one")]);
    assert_eq!(cache.update(payload(2, "two", Status::Active)), Err(RequestError::NotFound));
    assert_eq!(cache.dirty_count(), 0);
    assert_eq!(listed_ids(&cache), vec![1]);
    assert_eq!(cache.get(1).unwrap().title, "one");
}

#[test]
fn a_snapshot_taken_before_an_update_keeps_its_values() {
    let mut cache = Cache::new();
    let id = cache.create_from(1, payload(0, "before", Status::Active));
    let earlier = cache.get(id).unwrap();
    assert_eq!(cache.update(payload(id, "after", Status::Completed)), Ok(()));
    assert_eq!(earlier.title, "before");
    assert_eq!(earlier.status, Status::Active);
    assert_eq!(cache.get(id).unwrap().title, "after");
}

#[test]
fn delete_moves_the_note_to_the_tombstones() {
    let mut cache = Cache::load(vec![
        stored(1, NoteDbStatus::FromDb, "one"),
        stored(2, NoteDbStatus::FromDb, "two"),
    ]);
    assert_eq!(cache.delete(json::Uuid { uuid: 1 }), Ok(()));
    assert_eq!(listed_ids(&cache), vec![2]);
    assert_eq!(cache.tombstone_count(), 1);
    assert_eq!(cache.dirty_count(), 1);
    let plan = cache.begin_flush();
    assert_eq!(plan.deletes, vec![1]);
}

#[test]
fn delete_of_a_missing_note_leaves_tracker_and_tombstones_alone() {
    let mut cache = Cache::load(vec![stored(1, NoteDbStatus::FromDb, "one")]);
    assert_eq!(cache.delete(json::Uuid { uuid: 1 }), Ok(()));
    let dirty = cache.dirty_count();
    let waiting = cache.tombstone_count();
    assert_eq!(cache.delete(json::Uuid { uuid: 77 }), Err(RequestError::NotFound));
    assert_eq!(cache.delete(json::Uuid { uuid: 1 }), Err(RequestError::NotFound));
    assert_eq!(cache.dirty_count(), dirty);
    assert_eq!(cache.tombstone_count(), waiting);
    assert_eq!(cache.len(), 0);
}

#[test]
fn load_tags_every_note_from_db_and_keeps_the_later_of_two() {
    let cache = Cache::load(vec![
        stored(1, NoteDbStatus::New, "first"),
        stored(2, NoteDbStatus::Updated, "other"),
        stored(1, NoteDbStatus::New, "second"),
    ]);
    assert_eq!(listed_ids(&cache), vec![1, 2]);
    assert_eq!(cache.get(1).unwrap().title, "second");
    assert_eq!(cache.get(1).unwrap().db_status, NoteDbStatus::FromDb);
    assert_eq!(cache.get(2).unwrap().db_status, NoteDbStatus::FromDb);
    assert_eq!(cache.dirty_count(), 0);
}

#[test]
fn a_sequence_of_requests_leaves_its_net_effect() {
    let mut cache = Cache::new();
    let a = cache.create_from(10, payload(0, "a", Status::Active));
    let b = cache.create_from(20, payload(0, "b", Status::Active));
    let c = cache.create_from(30, payload(0, "c", Status::Active));
    assert_eq!(cache.update(payload(b, "b2", Status::Archived)), Ok(()));
    assert_eq!(cache.delete(json::Uuid { uuid: a }), Ok(()));
    assert_eq!(cache.update(payload(a, "a2", Status::Archived)), Err(RequestError::NotFound));
    assert_eq!(cache.update(payload(b, "b3", Status::Completed)), Ok(()));
    let mut first: Vec<Note> = cache.snapshot_all().iter().map(|note| (**note).clone()).collect();
    let mut second: Vec<Note> = cache.snapshot_all().iter().map(|note| (**note).clone()).collect();
    first.sort_by_key(|note| note.uuid);
    second.sort_by_key(|note| note.uuid);
    assert_eq!(first, second);
    assert_eq!(first.len(), 2);
    assert_eq!(first[0].uuid, b);
    assert_eq!(first[0].title, "b3");
    assert_eq!(first[0].status, Status::Completed);
    assert_eq!(first[0].db_status, NoteDbStatus::Updated);
    assert_eq!(first[1].uuid, c);
    assert_eq!(first[1].title, "c");
    assert_eq!(first[1].db_status, NoteDbStatus::New);
    assert_eq!(cache.dirty_count(), 6);
}

#[test]
fn replies_carry_the_code_and_the_status_line() {
    let updated = update_reply(Ok(()));
    assert_eq!((updated.code, updated.status), (200, "note updated successfully"));
    let removed = remove_reply(Ok(()));
    assert_eq!((removed.code, removed.status), (200, "note removed successfully"));
    let missing = update_reply(Err(RequestError::NotFound));
    assert_eq!((missing.code, missing.status), (404, "note not found"));
    let gone = remove_reply(Err(RequestError::NotFound));
    assert_eq!((gone.code, gone.status), (404, "note not found"));
}
