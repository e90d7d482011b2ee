//! The session monitor's bookkeeping: play-time accumulation across poll
//! ticks, and the ordered cleanup that ends a session.
//!
//! The monitor is ticked on a fixed interval with the current monotonic
//! clock, the pause flag, and whether the monitored process is still alive.
//! An unpaused tick accumulates the wall time since the previous tick and
//! asks the caller to persist everything accumulated and not yet persisted;
//! a paused tick only refreshes the reference instant, so that un-pausing
//! never counts the paused interval. Persistence is best-effort: the caller
//! confirms a persist that reached storage, and a failed one is simply not
//! confirmed, so the next tick hands out the longer total instead of losing
//! the increment. A tick that finds the process gone ends the session.

use vstd::prelude::*;

verus! {

/// What one monitor tick asks the caller to do: persist this many seconds —
/// everything accumulated and not yet confirmed persisted; zero means
/// nothing to persist — and run the session cleanup when the tick ended the
/// session.
pub struct TickOutcome {
    pub persist_secs: u64,
    pub ended: bool,
}

/// The running bookkeeping of one monitored session.
pub struct SessionMonitor {
    /// The catalog entry whose play time is accumulated.
    pub element_id: i32,
    /// The clock reading of the previous tick.
    pub last_check_secs: u64,
    /// Active seconds accumulated so far.
    pub accumulated_secs: u64,
    /// Accumulated seconds not yet confirmed persisted.
    pub pending_secs: u64,
}

/// The seconds one tick accumulates: the wall time since the previous tick
/// when unpaused, nothing when paused.
pub open spec fn tick_delta(last: u64, now: u64, paused: bool) -> int {
    if paused {
        0
    } else {
        now - last
    }
}

impl SessionMonitor {
    /// Start monitoring at the given clock reading.
    pub fn new(element_id: i32, now_secs: u64) -> (r: Self)
        ensures
            r.element_id == element_id,
            r.last_check_secs == now_secs,
            r.accumulated_secs == 0,
            r.pending_secs == 0,
    {
        SessionMonitor {
            element_id,
            last_check_secs: now_secs,
            accumulated_secs: 0,
            pending_secs: 0,
        }
    }

    /// One poll tick at clock reading `now_secs`. The clock is monotonic,
    /// and a session cannot accumulate more seconds than the counters hold.
    pub fn tick(&mut self, now_secs: u64, paused: bool, alive: bool) -> (r: TickOutcome)
        requires
            now_secs >= old(self).last_check_secs,
            old(self).accumulated_secs + (now_secs - old(self).last_check_secs) <= u64::MAX,
            old(self).pending_secs + (now_secs - old(self).last_check_secs) <= u64::MAX,
        ensures
            final(self).element_id == old(self).element_id,
            final(self).last_check_secs == now_secs,
            final(self).accumulated_secs == old(self).accumulated_secs + tick_delta(
                old(self).last_check_secs,
                now_secs,
                paused,
            ),
            final(self).pending_secs == old(self).pending_secs + tick_delta(
                old(self).last_check_secs,
                now_secs,
                paused,
            ),
            r.persist_secs == final(self).pending_secs,
            r.ended == !alive,
    {
        if !paused {
            let delta = now_secs - self.last_check_secs;
            self.accumulated_secs = self.accumulated_secs + delta;
            self.pending_secs = self.pending_secs + delta;
        }
        self.last_check_secs = now_secs;
        TickOutcome { persist_secs: self.pending_secs, ended: !alive }
    }

    /// The caller confirms that the seconds handed out have reached storage:
    /// nothing is pending any more. A failed persist simply goes
    /// unconfirmed, and the next tick hands out the longer total.
    pub fn persisted(&mut self)
        ensures
            final(self).element_id == old(self).element_id,
            final(self).last_check_secs == old(self).last_check_secs,
            final(self).accumulated_secs == old(self).accumulated_secs,
            final(self).pending_secs == 0,
    {
        self.pending_secs = 0;
    }
}

/// The active (unpaused) seconds over a run of ticks starting from clock
/// reading `last`: each tick carries its clock reading and its pause flag.
pub open spec fn active_total(last: u64, ticks: Seq<(u64, bool)>) -> int
    decreases ticks.len(),
{
    if ticks.len() == 0 {
        0
    } else {
        tick_delta(last, ticks[0].0, ticks[0].1) + active_total(ticks[0].0, ticks.drop_first())
    }
}

/// The paused seconds over the same run.
pub open spec fn paused_total(last: u64, ticks: Seq<(u64, bool)>) -> int
    decreases ticks.len(),
{
    if ticks.len() == 0 {
        0
    } else {
        (if ticks[0].1 {
            ticks[0].0 - last
        } else {
            0int
        }) + paused_total(ticks[0].0, ticks.drop_first())
    }
}

/// The ticks' clock readings never run backwards from `last`.
pub open spec fn monotone_ticks(last: u64, ticks: Seq<(u64, bool)>) -> bool
    decreases ticks.len(),
{
    ticks.len() == 0 || (ticks[0].0 >= last && monotone_ticks(ticks[0].0, ticks.drop_first()))
}

/// Law: time accounting. Over any monotone run of ticks, the accumulated
/// active seconds equal the total elapsed wall time minus exactly the paused
/// intervals.
pub proof fn lemma_time_accounting(last: u64, ticks: Seq<(u64, bool)>)
    requires
        monotone_ticks(last, ticks),
        ticks.len() > 0,
    ensures
        active_total(last, ticks) == (ticks.last().0 - last) - paused_total(last, ticks),
    decreases ticks.len(),
{
    if ticks.len() == 1 {
        assert(ticks.drop_first().len() == 0);
        assert(active_total(ticks[0].0, ticks.drop_first()) == 0);
        assert(paused_total(ticks[0].0, ticks.drop_first()) == 0);
    } else {
        lemma_time_accounting(ticks[0].0, ticks.drop_first());
        assert(ticks.drop_first().last() == ticks.last());
    }
}

/// Whether a session start should attempt to register a pause shortcut:
/// only when a shortcut-key setting is stored and nonempty. Parsing the key
/// and registering the OS hotkey are the shell's work, and both remain
/// best-effort.
pub fn should_register_pause_shortcut(setting: &Option<Vec<u8>>) -> (r: bool)
    ensures
        r == match setting {
            Some(key) => key@.len() > 0,
            None => false,
        },
{
    match setting {
        Some(key) => key.len() > 0,
        None => false,
    }
}

/// One step of the session cleanup, in the order the steps must run. Each is
/// best-effort: a failing step must not keep the later ones from running.
#[derive(Debug, Clone, Copy, PartialEq, Eq, Structural)]
pub enum CleanupStep {
    /// Stop the screenshot watcher.
    StopWatcher,
    /// Persist the final last-played-at timestamp.
    PersistLastPlayed,
    /// Turn tracking off (which also forces the pause flag back to false).
    ClearTracking,
    /// Unregister the pause shortcut, when one was registered.
    UnregisterShortcut,
    /// Tell the UI layer that recent-activity state changed.
    NotifyUi,
}

/// The cleanup steps a finished session must run, in order; the shortcut is
/// unregistered only when one was registered at session start.
pub open spec fn spec_cleanup_steps(shortcut_registered: bool) -> Seq<CleanupStep> {
    if shortcut_registered {
        seq![
            CleanupStep::StopWatcher,
            CleanupStep::PersistLastPlayed,
            CleanupStep::ClearTracking,
            CleanupStep::UnregisterShortcut,
            CleanupStep::NotifyUi,
        ]
    } else {
        seq![
            CleanupStep::StopWatcher,
            CleanupStep::PersistLastPlayed,
            CleanupStep::ClearTracking,
            CleanupStep::NotifyUi,
        ]
    }
}

/// The ordered cleanup plan for a finished session.
pub fn cleanup_steps(shortcut_registered: bool) -> (steps: Vec<CleanupStep>)
    ensures
        steps@ == spec_cleanup_steps(shortcut_registered),
{
    let mut steps: Vec<CleanupStep> = Vec::new();
    steps.push(CleanupStep::StopWatcher);
    steps.push(CleanupStep::PersistLastPlayed);
    steps.push(CleanupStep::ClearTracking);
    if shortcut_registered {
        steps.push(CleanupStep::UnregisterShortcut);
    }
    steps.push(CleanupStep::NotifyUi);
    assert(steps@ =~= spec_cleanup_steps(shortcut_registered));
    steps
}

} // verus!
