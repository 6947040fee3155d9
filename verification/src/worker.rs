//! The reconciliation worker as a state machine: each event that the outside
//! world hands in moves the worker to its next state and yields the action
//! that the outside world is to perform next.

use crate::cache::{Cache, CacheView};
use crate::flush::{FlushPlan, FlushReport, PlanView, ReportView};
use crate::tracker::flush_due;
use vstd::prelude::*;

verus! {

/// The thresholds and pauses of the worker, in time units.
#[derive(Clone, Copy, Debug, PartialEq, Eq, Structural)]
pub struct Settings {
    /// A pass is due once this many changes have gathered.
    pub count_threshold: u64,
    /// A pass is due once a change has waited longer than this.
    pub time_threshold: u64,
    /// How long the worker rests after a check that found nothing due.
    pub idle_pause: u64,
    /// How long the worker rests after a pass.
    pub flush_pause: u64,
}

impl Default for Settings {
    /// The recommended settings: a pass after 5 changes or after a change has
    /// waited more than 15 units, with pauses of 1 and 5 units.
    fn default() -> (settings: Settings)
        ensures
            settings == (Settings {
                count_threshold: 5,
                time_threshold: 15,
                idle_pause: 1,
                flush_pause: 5,
            }),
    {
        Settings { count_threshold: 5, time_threshold: 15, idle_pause: 1, flush_pause: 5 }
    }
}

/// What follows the pass that is under way.
#[derive(Clone, Copy, Debug, PartialEq, Eq, Structural)]
pub enum AfterFlush {
    /// The worker rests and waits for the next tick.
    Rest,
    /// Termination was asked for while the pass was under way: one more pass
    /// follows, the last.
    Again,
    /// The pass is the last: the worker stops.
    Stop,
}

/// The state of the worker.
#[derive(Clone, Copy, Debug, PartialEq, Eq, Structural)]
pub enum WorkerState {
    /// Waiting for the next tick.
    Idle,
    /// A tick has come; the worker waits to learn the time.
    Checking,
    /// A pass is under way.
    Flushing { then: AfterFlush },
    /// The last pass is done and the worker has stopped.
    ShuttingDown,
}

/// What the outside world reports to the worker.
pub enum WorkerEvent {
    /// The pause has run out.
    Tick,
    /// The clock was read.
    Clock { now: u64 },
    /// The plan was carried out against the durable table, with this report,
    /// and the clock showed `now` when it was done.
    Flushed { plan: FlushPlan, report: FlushReport, now: u64 },
    /// Termination was asked for.
    Terminate,
}

/// The mathematical value of a [`WorkerEvent`].
pub enum EventView {
    Tick,
    Clock { now: nat },
    Flushed { plan: PlanView, report: ReportView, now: nat },
    Terminate,
}

impl View for WorkerEvent {
    type V = EventView;

    open spec fn view(&self) -> EventView {
        match self {
            WorkerEvent::Tick => EventView::Tick,
            WorkerEvent::Clock { now } => EventView::Clock { now: *now as nat },
            WorkerEvent::Flushed { plan, report, now } => EventView::Flushed {
                plan: plan@,
                report: report@,
                now: *now as nat,
            },
            WorkerEvent::Terminate => EventView::Terminate,
        }
    }
}

/// What the worker asks the outside world to do next.
pub enum WorkerAction {
    /// Wait this long, or until termination is asked for, and report `Tick` or
    /// `Terminate`.
    Sleep { units: u64 },
    /// Read the clock and report `Clock`.
    ReadClock,
    /// Carry out the plan against the durable table and report `Flushed`.
    Flush { plan: FlushPlan },
    /// Nothing is left to do: the worker is complete.
    Exit,
    /// Go on with what was asked last.
    Continue,
}

/// The mathematical value of a [`WorkerAction`].
pub enum ActionView {
    Sleep { units: u64 },
    ReadClock,
    Flush { plan: PlanView },
    Exit,
    Continue,
}

impl View for WorkerAction {
    type V = ActionView;

    open spec fn view(&self) -> ActionView {
        match self {
            WorkerAction::Sleep { units } => ActionView::Sleep { units: *units },
            WorkerAction::ReadClock => ActionView::ReadClock,
            WorkerAction::Flush { plan } => ActionView::Flush { plan: plan@ },
            WorkerAction::Exit => ActionView::Exit,
            WorkerAction::Continue => ActionView::Continue,
        }
    }
}

/// Whether a pass begins: the action hands out a plan of the cache, and the
/// cache is left with its tombstone buffer empty.
pub open spec fn begins(cache: CacheView, next_cache: CacheView, action: ActionView) -> bool {
    &&& action is Flush
    &&& cache.plans(action->plan)
    &&& next_cache == cache.drained()
}

/// The transitions of the worker: whether, in the state `state` and with the
/// cache `cache`, the event leads to the state `next` and the cache
/// `next_cache` with the action `action`.
///
/// A tick leads from `Idle` to `Checking`. The time then decides: a pass
/// begins if one is due, else the worker rests for the idle pause. When the
/// report of a pass comes in, the cache takes it in and the worker rests for
/// the flush pause. Termination begins a pass at once, whatever the
/// thresholds say, and the worker stops when that pass is reported; if a pass
/// is under way when termination is asked for, the last pass follows it. An
/// event that the state does not expect changes nothing.
pub open spec fn transition(
    settings: Settings,
    state: WorkerState,
    cache: CacheView,
    event: EventView,
    next: WorkerState,
    next_cache: CacheView,
    action: ActionView,
) -> bool {
    match (state, event) {
        (WorkerState::ShuttingDown, _) => {
            next == WorkerState::ShuttingDown && next_cache == cache && action == ActionView::Exit
        },
        (WorkerState::Idle, EventView::Tick) => {
            next == WorkerState::Checking && next_cache == cache && action == ActionView::ReadClock
        },
        (WorkerState::Checking, EventView::Clock { now }) => {
            if flush_due(
                cache.dirty,
                cache.last_flush,
                settings.count_threshold as nat,
                settings.time_threshold as nat,
                now,
            ) {
                next == (WorkerState::Flushing { then: AfterFlush::Rest }) && begins(
                    cache,
                    next_cache,
                    action,
                )
            } else {
                next == WorkerState::Idle && next_cache == cache && action == (ActionView::Sleep {
                    units: settings.idle_pause,
                })
            }
        },
        (WorkerState::Idle, EventView::Terminate) | (WorkerState::Checking, EventView::Terminate) => {
            next == (WorkerState::Flushing { then: AfterFlush::Stop }) && begins(
                cache,
                next_cache,
                action,
            )
        },
        (WorkerState::Flushing { then: AfterFlush::Rest }, EventView::Terminate) => {
            next == (WorkerState::Flushing { then: AfterFlush::Again }) && next_cache == cache
                && action == ActionView::Continue
        },
        (WorkerState::Flushing { then }, EventView::Flushed { plan, report, now }) => {
            let settled = cache.settled(plan, report, now);
            match then {
                AfterFlush::Rest => {
                    next == WorkerState::Idle && next_cache == settled && action == (
                    ActionView::Sleep { units: settings.flush_pause })
                },
                AfterFlush::Again => {
                    next == (WorkerState::Flushing { then: AfterFlush::Stop }) && begins(
                        settled,
                        next_cache,
                        action,
                    )
                },
                AfterFlush::Stop => {
                    next == WorkerState::ShuttingDown && next_cache == settled && action
                        == ActionView::Exit
                },
            }
        },
        _ => next == state && next_cache == cache && action == ActionView::Continue,
    }
}

/// The reconciliation worker: its settings and the state it is in.
#[derive(Clone, Copy, Debug, PartialEq, Eq)]
pub struct Worker {
    settings: Settings,
    state: WorkerState,
}

impl Worker {
    /// The settings that the worker was made with.
    pub closed spec fn settings(&self) -> Settings {
        self.settings
    }

    /// The state that the worker is in.
    pub closed spec fn state(&self) -> WorkerState {
        self.state
    }

    /// A worker with the given settings, waiting for its first tick.
    pub fn new(settings: Settings) -> (worker: Worker)
        ensures
            worker.settings() == settings,
            worker.state() == WorkerState::Idle,
    {
        Worker { settings, state: WorkerState::Idle }
    }

    /// The state that the worker is in.
    pub fn current(&self) -> (state: WorkerState)
        ensures
            state == self.state(),
    {
        self.state
    }

    /// Whether the worker has stopped.
    pub fn is_complete(&self) -> (complete: bool)
        ensures
            complete == (self.state() == WorkerState::ShuttingDown),
    {
        match self.state {
            WorkerState::ShuttingDown => true,
            _ => false,
        }
    }

    /// Begins a pass on the cache.
    fn begin(cache: &mut Cache) -> (action: WorkerAction)
        requires
            old(cache).wf(),
        ensures
            final(cache).wf(),
            begins(old(cache)@, final(cache)@, action@),
    {
        WorkerAction::Flush { plan: cache.begin_flush() }
    }

    /// Takes in one event: moves to the next state, changes the cache as the
    /// transition says, and returns the action to perform next.
    pub fn step(&mut self, cache: &mut Cache, event: WorkerEvent) -> (action: WorkerAction)
        requires
            old(cache).wf(),
        ensures
            final(cache).wf(),
            final(self).settings() == old(self).settings(),
            transition(
                old(self).settings(),
                old(self).state(),
                old(cache)@,
                event@,
                final(self).state(),
                final(cache)@,
                action@,
            ),
    {
        match self.state {
            WorkerState::ShuttingDown => WorkerAction::Exit,
            WorkerState::Idle => match event {
                WorkerEvent::Tick => {
                    self.state = WorkerState::Checking;
                    WorkerAction::ReadClock
                },
                WorkerEvent::Terminate => {
                    self.state = WorkerState::Flushing { then: AfterFlush::Stop };
                    Self::begin(cache)
                },
                _ => WorkerAction::Continue,
            },
            WorkerState::Checking => match event {
                WorkerEvent::Clock { now } => {
                    if cache.needs_flush(
                        self.settings.count_threshold,
                        self.settings.time_threshold,
                        now,
                    ) {
                        self.state = WorkerState::Flushing { then: AfterFlush::Rest };
                        Self::begin(cache)
                    } else {
                        self.state = WorkerState::Idle;
                        WorkerAction::Sleep { units: self.settings.idle_pause }
                    }
                },
                WorkerEvent::Terminate => {
                    self.state = WorkerState::Flushing { then: AfterFlush::Stop };
                    Self::begin(cache)
                },
                _ => WorkerAction::Continue,
            },
            WorkerState::Flushing { then } => match event {
                WorkerEvent::Flushed { plan, report, now } => {
                    cache.complete_flush(&plan, &report, now);
                    match then {
                        AfterFlush::Rest => {
                            self.state = WorkerState::Idle;
                            WorkerAction::Sleep { units: self.settings.flush_pause }
                        },
                        AfterFlush::Again => {
                            self.state = WorkerState::Flushing { then: AfterFlush::Stop };
                            Self::begin(cache)
                        },
                        AfterFlush::Stop => {
                            self.state = WorkerState::ShuttingDown;
                            WorkerAction::Exit
                        },
                    }
                },
                WorkerEvent::Terminate => match then {
                    AfterFlush::Rest => {
                        self.state = WorkerState::Flushing { then: AfterFlush::Again };
                        WorkerAction::Continue
                    },
                    _ => WorkerAction::Continue,
                },
                _ => WorkerAction::Continue,
            },
        }
    }
}

} // verus!
