use internotes::cache::Cache;
use internotes::flush::{FlushPlan, FlushReport, UpdateOutcome};
use internotes::json;
use internotes::note::{Note, NoteDbStatus, Status};

fn draft(uuid: u128, title: &str) -> json::Note {
    json::Note {
        uuid,
        title: title.to_string(),
        status: Status::Active,
        mod_time: 10,
        description: String::new(),
    }
}

fn loaded_note(uuid: u128, title: &str) -> Note {
    Note {
        uuid,
        db_status: NoteDbStatus::FromDb,
        title: title.to_string(),
        status: Status::Active,
        mod_time: 10,
        description: String::new(),
    }
}

fn ids(notes: &[std::sync::Arc<Note>]) -> Vec<u128> {
    let mut ids: Vec<u128> = notes.iter().map(|note| note.uuid).collect();
    ids.sort();
    ids
}

fn all_accepted(plan: &FlushPlan) -> FlushReport {
    FlushReport {
        inserted: vec![true; plan.inserts.len()],
        updated: vec![UpdateOutcome::Applied; plan.updates.len()],
        deleted: vec![true; plan.deletes.len()],
    }
}

fn mixed_cache() -> Cache {
    let mut cache = Cache::load(vec![
        loaded_note(1, "one"),
        loaded_note(2, "two"),
        loaded_note(3, "three"),
        loaded_note(4, "four"),
    ]);
    assert_eq!(cache.update(draft(2, "two again")), Ok(()));
    assert_eq!(cache.update(draft(3, "three again")), Ok(()));
    assert_eq!(cache.delete(json::Uuid { uuid: 4 }), Ok(()));
    assert_eq!(cache.delete(json::Uuid { uuid: 1 }), Ok(()));
    assert_eq!(cache.create_from(50, draft(0, "fifty")), 50);
    assert_eq!(cache.create_from(60, draft(0, "sixty")), 60);
    cache
}

#[test]
fn the_plan_sorts_the_notes_by_their_tag() {
    let mut cache = mixed_cache();
    let plan = cache.begin_flush();
    assert_eq!(ids(&plan.inserts), vec![50, 60]);
    assert_eq!(ids(&plan.updates), vec![2, 3]);
    assert_eq!(plan.deletes, vec![4, 1]);
    assert_eq!(plan.covered, 6);
    assert!(!plan.is_empty());
    assert!(plan.inserts.iter().all(|note| note.db_status == NoteDbStatus::New));
    assert!(plan.updates.iter().all(|note| note.db_status == NoteDbStatus::Updated));
    assert_eq!(cache.tombstone_count(), 0);
    assert_eq!(cache.dirty_count(), 6);
    assert_eq!(cache.len(), 4);
}

#[test]
fn the_plan_of_a_clean_cache_is_empty() {
    let mut cache = Cache::load(vec![loaded_note(1, "one"), loaded_note(2, "two")]);
    let plan = cache.begin_flush();
    assert!(plan.is_empty());
    assert_eq!(plan.covered, 0);
    assert!(plan.inserts.is_empty() && plan.updates.is_empty() && plan.deletes.is_empty());
}

#[test]
fn a_second_pass_with_nothing_changed_writes_nothing() {
    let mut cache = mixed_cache();
    let plan = cache.begin_flush();
    let report = all_accepted(&plan);
    cache.complete_flush(&plan, &report, 1000);
    assert_eq!(cache.dirty_count(), 0);
    for id in [2u128, 3, 50, 60] {
        assert_eq!(cache.get(id).unwrap().db_status, NoteDbStatus::FromDb);
    }
    assert_eq!(cache.get(2).unwrap().title, "two again");
    assert!(!cache.needs_flush(5, 15, 1000));
    assert!(!cache.needs_flush(5, 15, u64::MAX));
    let second = cache.begin_flush();
    assert!(second.is_empty());
    assert_eq!(second.covered, 0);
}

#[test]
fn a_rejected_insert_stays_new_and_is_planned_again() {
    let mut cache = Cache::new();
    assert_eq!(cache.create_from(1, draft(0, "kept")), 1);
    assert_eq!(cache.create_from(2, draft(0, "refused")), 2);
    let plan = cache.begin_flush();
    let report = FlushReport {
        inserted: plan.inserts.iter().map(|note| note.uuid == 1).collect(),
        updated: vec![],
        deleted: vec![],
    };
    cache.complete_flush(&plan, &report, 5);
    assert_eq!(cache.get(1).unwrap().db_status, NoteDbStatus::FromDb);
    assert_eq!(cache.get(2).unwrap().db_status, NoteDbStatus::New);
    assert_eq!(cache.dirty_count(), 0);
    let second = cache.begin_flush();
    assert_eq!(ids(&second.inserts), vec![2]);
    assert!(second.updates.is_empty());
}

#[test]
fn an_update_whose_row_is_gone_is_skipped_and_stays_updated() {
    let mut cache = Cache::load(vec![loaded_note(1, "one"), loaded_note(2, "two")]);
    assert_eq!(cache.update(draft(1, "one again")), Ok(()));
    assert_eq!(cache.update(draft(2, "two again")), Ok(()));
    let plan = cache.begin_flush();
    let report = FlushReport {
        inserted: vec![],
        updated: plan
            .updates
            .iter()
            .map(|note| if note.uuid == 1 { UpdateOutcome::Skipped } else { UpdateOutcome::Applied })
            .collect(),
        deleted: vec![],
    };
    cache.complete_flush(&plan, &report, 5);
    assert_eq!(cache.get(1).unwrap().db_status, NoteDbStatus::Updated);
    assert_eq!(cache.get(2).unwrap().db_status, NoteDbStatus::FromDb);
    assert!(!UpdateOutcome::Skipped.is_failure());
    let second = cache.begin_flush();
    assert_eq!(ids(&second.updates), vec![1]);
}

#[test]
fn outcomes_that_fail_keep_the_note_dirty() {
    for outcome in [UpdateOutcome::Rejected, UpdateOutcome::Unchecked, UpdateOutcome::Skipped] {
        let mut cache = Cache::load(vec![loaded_note(1, "one")]);
        assert_eq!(cache.update(draft(1, "one again")), Ok(()));
        let plan = cache.begin_flush();
        let report = FlushReport { inserted: vec![], updated: vec![outcome], deleted: vec![] };
        cache.complete_flush(&plan, &report, 5);
        assert_eq!(cache.get(1).unwrap().db_status, NoteDbStatus::Updated);
    }
    assert!(UpdateOutcome::Rejected.is_failure());
    assert!(UpdateOutcome::Unchecked.is_failure());
    assert!(!UpdateOutcome::Applied.is_failure());
}

#[test]
fn a_note_changed_during_the_pass_stays_dirty() {
    let mut cache = Cache::new();
    assert_eq!(cache.create_from(1, draft(0, "first")), 1);
    let plan = cache.begin_flush();
    assert_eq!(cache.update(draft(1, "second")), Ok(()));
    assert_eq!(cache.create_from(2, draft(0, "late")), 2);
    let report = all_accepted(&plan);
    cache.complete_flush(&plan, &report, 5);
    assert_eq!(cache.get(1).unwrap().db_status, NoteDbStatus::Updated);
    assert_eq!(cache.get(1).unwrap().title, "second");
    assert_eq!(cache.get(2).unwrap().db_status, NoteDbStatus::New);
    assert_eq!(cache.dirty_count(), 2);
    let second = cache.begin_flush();
    assert_eq!(ids(&second.updates), vec![1]);
    assert_eq!(ids(&second.inserts), vec![2]);
    assert_eq!(second.covered, 2);
}

#[test]
fn a_note_deleted_during_the_pass_is_not_brought_back() {
    let mut cache = Cache::new();
    assert_eq!(cache.create_from(1, draft(0, "first")), 1);
    let plan = cache.begin_flush();
    assert_eq!(cache.delete(json::Uuid { uuid: 1 }), Ok(()));
    cache.complete_flush(&plan, &all_accepted(&plan), 5);
    assert!(cache.get(1).is_none());
    assert_eq!(cache.len(), 0);
    assert_eq!(cache.tombstone_count(), 1);
    assert_eq!(cache.dirty_count(), 1);
}

#[test]
fn a_report_that_is_too_short_confirms_only_what_it_reaches() {
    let mut cache = Cache::new();
    assert_eq!(cache.create_from(1, draft(0, "a")), 1);
    assert_eq!(cache.create_from(2, draft(0, "b")), 2);
    let plan = cache.begin_flush();
    let first = plan.inserts[0].uuid;
    let second = plan.inserts[1].uuid;
    let report = FlushReport { inserted: vec![true], updated: vec![], deleted: vec![] };
    cache.complete_flush(&plan, &report, 5);
    assert_eq!(cache.get(first).unwrap().db_status, NoteDbStatus::FromDb);
    assert_eq!(cache.get(second).unwrap().db_status, NoteDbStatus::New);
}

#[test]
fn the_failures_of_a_report_are_counted() {
    let clean = FlushReport {
        inserted: vec![true, true],
        updated: vec![UpdateOutcome::Applied, UpdateOutcome::Skipped],
        deleted: vec![true],
    };
    assert_eq!(clean.failure_count(), 0);
    let mixed = FlushReport {
        inserted: vec![true, false, false],
        updated: vec![
            UpdateOutcome::Rejected,
            UpdateOutcome::Skipped,
            UpdateOutcome::Unchecked,
            UpdateOutcome::Applied,
        ],
        deleted: vec![false, true],
    };
    assert_eq!(mixed.failure_count(), 5);
    let empty = FlushReport { inserted: vec![], updated: vec![], deleted: vec![] };
    assert_eq!(empty.failure_count(), 0);
}

#[test]
fn completing_a_pass_records_its_time() {
    let mut cache = Cache::new();
    assert_eq!(cache.create_from(1, draft(0, "a")), 1);
    let plan = cache.begin_flush();
    cache.complete_flush(&plan, &all_accepted(&plan), 100);
    assert_eq!(cache.create_from(2, draft(0, "b")), 2);
    assert!(!cache.needs_flush(5, 15, 115));
    assert!(cache.needs_flush(5, 15, 116));
}
