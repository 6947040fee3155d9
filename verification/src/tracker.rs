//! The change tracker: how many changes have gathered since the last
//! reconciliation, and when that reconciliation was completed.

use vstd::prelude::*;

verus! {

/// Whether a reconciliation is due: the changes have reached the count
/// threshold, or there is at least one change and more than the time threshold
/// has passed since the last completed reconciliation.
pub open spec fn flush_due(
    dirty: nat,
    last_flush: Option<nat>,
    count_threshold: nat,
    time_threshold: nat,
    now: nat,
) -> bool {
    dirty >= count_threshold || (dirty != 0 && last_flush is Some && now - last_flush->0
        > time_threshold)
}

/// The number that a counter shows once one more change is recorded. A counter
/// that is full stays full, so that it never falls back to zero.
pub open spec fn bumped(dirty: nat) -> nat {
    if dirty < u64::MAX {
        dirty + 1
    } else {
        dirty
    }
}

/// The number of changes that are left once `covered` of them are reconciled.
pub open spec fn uncovered(dirty: nat, covered: nat) -> nat {
    if dirty >= covered {
        (dirty - covered) as nat
    } else {
        0
    }
}

/// Counts the changes made since the last reconciliation and remembers when
/// that reconciliation was completed.
#[derive(Clone, Copy, Debug, PartialEq, Eq)]
pub struct ChangeTracker {
    dirty: u64,
    last_flush: Option<u64>,
}

impl ChangeTracker {
    /// The number of changes recorded and not yet reconciled.
    pub closed spec fn dirty(&self) -> nat {
        self.dirty as nat
    }

    /// The time at which the last reconciliation was completed, if one was.
    pub closed spec fn last_flush(&self) -> Option<nat> {
        match self.last_flush {
            Some(at) => Some(at as nat),
            None => None,
        }
    }

    /// A tracker with no change recorded and no reconciliation completed.
    pub fn new() -> (tracker: ChangeTracker)
        ensures
            tracker.dirty() == 0,
            tracker.last_flush() is None,
    {
        ChangeTracker { dirty: 0, last_flush: None }
    }

    /// The number of changes recorded and not yet reconciled.
    pub fn dirty_count(&self) -> (count: u64)
        ensures
            count == self.dirty(),
    {
        self.dirty
    }

    /// The time at which the last reconciliation was completed, if one was.
    pub fn last_flush_time(&self) -> (at: Option<u64>)
        ensures
            at is Some == self.last_flush() is Some,
            at matches Some(t) ==> self.last_flush() == Some(t as nat),
    {
        self.last_flush
    }

    /// Records one change.
    pub fn record_change(&mut self)
        ensures
            final(self).dirty() == bumped(old(self).dirty()),
            final(self).last_flush() == old(self).last_flush(),
    {
        if self.dirty < u64::MAX {
            self.dirty = self.dirty + 1;
        }
    }

    /// Whether a reconciliation is due at the time `now`.
    pub fn needs_flush(&self, count_threshold: u64, time_threshold: u64, now: u64) -> (due: bool)
        ensures
            due == flush_due(
                self.dirty(),
                self.last_flush(),
                count_threshold as nat,
                time_threshold as nat,
                now as nat,
            ),
    {
        if self.dirty >= count_threshold {
            return true;
        }
        if self.dirty == 0 {
            return false;
        }
        match self.last_flush {
            Some(at) => now > at && now - at > time_threshold,
            None => false,
        }
    }

    /// Closes a reconciliation that was completed at the time `now` and that
    /// covered the first `covered` changes: those leave the count, the ones
    /// recorded since stay in it.
    pub fn reset(&mut self, covered: u64, now: u64)
        ensures
            final(self).dirty() == uncovered(old(self).dirty(), covered as nat),
            final(self).last_flush() == Some(now as nat),
    {
        if self.dirty >= covered {
            self.dirty = self.dirty - covered;
        } else {
            self.dirty = 0;
        }
        self.last_flush = Some(now);
    }
}

} // verus!
