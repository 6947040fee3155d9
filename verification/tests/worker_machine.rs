use internotes::cache::Cache;
use internotes::flush::{FlushPlan, FlushReport, UpdateOutcome};
use internotes::json;
use internotes::note::{NoteDbStatus, Status};
use internotes::worker::{AfterFlush, Settings, Worker, WorkerAction, WorkerEvent, WorkerState};

fn fields(title: &str) -> json::Note {
    json::Note {
        uuid: 0,
        title: title.to_string(),
        status: Status::Active,
        mod_time: 10,
        description: String::new(),
    }
}

fn accepted(plan: &FlushPlan) -> FlushReport {
    FlushReport {
        inserted: vec![true; plan.inserts.len()],
        updated: vec![UpdateOutcome::Applied; plan.updates.len()],
        deleted: vec![true; plan.deletes.len()],
    }
}

fn plan_of(action: WorkerAction) -> FlushPlan {
    match action {
        WorkerAction::Flush { plan } => plan,
        _ => panic!("the worker did not begin a pass"),
    }
}

fn is_sleep(action: &WorkerAction, expected: u64) -> bool {
    matches!(action, WorkerAction::Sleep { units } if *units == expected)
}

#[test]
fn the_recommended_settings() {
    let settings = Settings::default();
    assert_eq!(
        settings,
        Settings { count_threshold: 5, time_threshold: 15, idle_pause: 1, flush_pause: 5 }
    );
}

#[test]
fn a_tick_with_nothing_due_ends_in_a_short_rest() {
    let mut cache = Cache::new();
    let mut worker = Worker::new(Settings::default());
    assert_eq!(worker.current(), WorkerState::Idle);
    assert!(matches!(worker.step(&mut cache, WorkerEvent::Tick), WorkerAction::ReadClock));
    assert_eq!(worker.current(), WorkerState::Checking);
    let action = worker.step(&mut cache, WorkerEvent::Clock { now: 100 });
    assert!(is_sleep(&action, 1));
    assert_eq!(worker.current(), WorkerState::Idle);
}

#[test]
fn five_changes_make_the_next_check_begin_a_pass() {
    let mut cache = Cache::new();
    let mut worker = Worker::new(Settings::default());
    for i in 0..4u128 {
        cache.create_from(i, fields("n"));
    }
    worker.step(&mut cache, WorkerEvent::Tick);
    assert!(is_sleep(&worker.step(&mut cache, WorkerEvent::Clock { now: 100 }), 1));
    cache.create_from(4, fields("n"));
    worker.step(&mut cache, WorkerEvent::Tick);
    let plan = plan_of(worker.step(&mut cache, WorkerEvent::Clock { now: 100 }));
    assert_eq!(plan.inserts.len(), 5);
    assert_eq!(plan.covered, 5);
    assert_eq!(worker.current(), WorkerState::Flushing { then: AfterFlush::Rest });
    let report = accepted(&plan);
    let action = worker.step(&mut cache, WorkerEvent::Flushed { plan, report, now: 101 });
    assert!(is_sleep(&action, 5));
    assert_eq!(worker.current(), WorkerState::Idle);
    assert_eq!(cache.dirty_count(), 0);
}

#[test]
fn one_change_waits_for_the_time_threshold() {
    let mut cache = Cache::new();
    let mut worker = Worker::new(Settings::default());
    let empty = cache.begin_flush();
    cache.complete_flush(&empty, &accepted(&empty), 100);
    cache.create_from(1, fields("a"));
    worker.step(&mut cache, WorkerEvent::Tick);
    assert!(is_sleep(&worker.step(&mut cache, WorkerEvent::Clock { now: 115 }), 1));
    worker.step(&mut cache, WorkerEvent::Tick);
    let plan = plan_of(worker.step(&mut cache, WorkerEvent::Clock { now: 116 }));
    assert_eq!(plan.inserts.len(), 1);
}

#[test]
fn termination_right_after_one_create_persists_it_before_the_worker_completes() {
    let mut cache = Cache::new();
    let mut worker = Worker::new(Settings::default());
    let id = cache.create(fields("only"));
    let plan = plan_of(worker.step(&mut cache, WorkerEvent::Terminate));
    assert_eq!(worker.current(), WorkerState::Flushing { then: AfterFlush::Stop });
    assert!(!worker.is_complete());
    assert_eq!(plan.inserts.len(), 1);
    assert_eq!(plan.inserts[0].uuid, id);
    assert_eq!(plan.inserts[0].title, "only");
    assert!(plan.updates.is_empty() && plan.deletes.is_empty());
    let report = accepted(&plan);
    let action = worker.step(&mut cache, WorkerEvent::Flushed { plan, report, now: 3 });
    assert!(matches!(action, WorkerAction::Exit));
    assert!(worker.is_complete());
    assert_eq!(worker.current(), WorkerState::ShuttingDown);
    assert_eq!(cache.get(id).unwrap().db_status, NoteDbStatus::FromDb);
}

#[test]
fn termination_while_checking_begins_the_last_pass() {
    let mut cache = Cache::new();
    let mut worker = Worker::new(Settings::default());
    worker.step(&mut cache, WorkerEvent::Tick);
    assert_eq!(worker.current(), WorkerState::Checking);
    let plan = plan_of(worker.step(&mut cache, WorkerEvent::Terminate));
    assert!(plan.is_empty());
    assert_eq!(worker.current(), WorkerState::Flushing { then: AfterFlush::Stop });
}

#[test]
fn termination_during_a_pass_is_followed_by_one_more_pass() {
    let mut cache = Cache::new();
    let mut worker = Worker::new(Settings { count_threshold: 1, ..Settings::default() });
    cache.create_from(1, fields("a"));
    worker.step(&mut cache, WorkerEvent::Tick);
    let plan = plan_of(worker.step(&mut cache, WorkerEvent::Clock { now: 0 }));
    cache.create_from(2, fields("b"));
    assert!(matches!(worker.step(&mut cache, WorkerEvent::Terminate), WorkerAction::Continue));
    assert_eq!(worker.current(), WorkerState::Flushing { then: AfterFlush::Again });
    assert!(matches!(worker.step(&mut cache, WorkerEvent::Terminate), WorkerAction::Continue));
    assert_eq!(worker.current(), WorkerState::Flushing { then: AfterFlush::Again });
    let report = accepted(&plan);
    let last = plan_of(worker.step(&mut cache, WorkerEvent::Flushed { plan, report, now: 1 }));
    assert_eq!(worker.current(), WorkerState::Flushing { then: AfterFlush::Stop });
    assert_eq!(last.inserts.len(), 1);
    assert_eq!(last.inserts[0].uuid, 2);
    let report = accepted(&last);
    let action = worker.step(&mut cache, WorkerEvent::Flushed { plan: last, report, now: 2 });
    assert!(matches!(action, WorkerAction::Exit));
    assert!(worker.is_complete());
}

#[test]
fn a_stopped_worker_stays_stopped() {
    let mut cache = Cache::new();
    let mut worker = Worker::new(Settings::default());
    let plan = plan_of(worker.step(&mut cache, WorkerEvent::Terminate));
    let report = accepted(&plan);
    worker.step(&mut cache, WorkerEvent::Flushed { plan, report, now: 2 });
    cache.create_from(1, fields("late"));
    assert!(matches!(worker.step(&mut cache, WorkerEvent::Tick), WorkerAction::Exit));
    assert!(matches!(worker.step(&mut cache, WorkerEvent::Clock { now: 99 }), WorkerAction::Exit));
    assert!(matches!(worker.step(&mut cache, WorkerEvent::Terminate), WorkerAction::Exit));
    assert!(worker.is_complete());
    assert_eq!(cache.dirty_count(), 1);
}

#[test]
fn an_event_that_the_state_does_not_expect_changes_nothing() {
    let mut cache = Cache::new();
    let mut worker = Worker::new(Settings { count_threshold: 0, ..Settings::default() });
    cache.create_from(1, fields("a"));
    assert!(matches!(worker.step(&mut cache, WorkerEvent::Clock { now: 9 }), WorkerAction::Continue));
    assert_eq!(worker.current(), WorkerState::Idle);
    let stray = FlushPlan { inserts: vec![], updates: vec![], deletes: vec![], covered: 1 };
    let report = accepted(&stray);
    let action = worker.step(&mut cache, WorkerEvent::Flushed { plan: stray, report, now: 9 });
    assert!(matches!(action, WorkerAction::Continue));
    assert_eq!(cache.dirty_count(), 1);
    worker.step(&mut cache, WorkerEvent::Tick);
    assert!(matches!(worker.step(&mut cache, WorkerEvent::Tick), WorkerAction::Continue));
    assert_eq!(worker.current(), WorkerState::Checking);
    let plan = plan_of(worker.step(&mut cache, WorkerEvent::Clock { now: 9 }));
    assert!(matches!(worker.step(&mut cache, WorkerEvent::Tick), WorkerAction::Continue));
    assert!(matches!(worker.step(&mut cache, WorkerEvent::Clock { now: 9 }), WorkerAction::Continue));
    assert_eq!(worker.current(), WorkerState::Flushing { then: AfterFlush::Rest });
    assert_eq!(plan.inserts.len(), 1);
}
