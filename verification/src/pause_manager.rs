//! Shared pause/tracking state of the session monitor.
//!
//! Two flags: `tracking` is on while a session monitor is accumulating play
//! time, `paused` is a user-toggled sub-state of tracking. Turning tracking
//! off always forces `paused` back to false, and toggling the pause outside a
//! tracking session is a user-facing error. Callers that share one manager
//! across tasks wrap it in their own synchronization and hold the lock across
//! each whole operation.

use vstd::prelude::*;

verus! {

/// Toggling the pause was requested while no session was being tracked.
#[derive(Debug, Clone, Copy, PartialEq, Eq, Structural)]
pub struct NotTrackingError;

/// A second session tried to begin while one was already tracked.
#[derive(Debug, Clone, Copy, PartialEq, Eq, Structural)]
pub struct AlreadyTrackingError;

/// The pause/tracking flags of one monitor session.
pub struct PauseManager {
    tracking: bool,
    paused: bool,
}

/// The flags after `set_tracking`: the pause flag survives only while
/// tracking stays on.
pub open spec fn spec_set_tracking(paused_before: bool, tracking: bool) -> (bool, bool) {
    (tracking, tracking && paused_before)
}

/// The reply and the new pause flag after `toggle`.
pub open spec fn spec_toggle(tracking: bool, paused: bool) -> (Result<
    bool,
    NotTrackingError,
>, bool) {
    if tracking {
        (Ok(!paused), !paused)
    } else {
        (Err(NotTrackingError), paused)
    }
}

impl PauseManager {
    /// Whether a session is currently tracked.
    pub closed spec fn tracking_spec(&self) -> bool {
        self.tracking
    }

    /// Whether the tracked session is currently paused.
    pub closed spec fn paused_spec(&self) -> bool {
        self.paused
    }

    /// A fresh manager: not tracking, not paused.
    pub fn new() -> (s: Self)
        ensures
            !s.tracking_spec(),
            !s.paused_spec(),
    {
        PauseManager { tracking: false, paused: false }
    }

    pub fn is_paused(&self) -> (r: bool)
        ensures
            r == self.paused_spec(),
    {
        self.paused
    }

    pub fn set_paused(&mut self, paused: bool)
        ensures
            final(self).paused_spec() == paused,
            final(self).tracking_spec() == old(self).tracking_spec(),
    {
        self.paused = paused;
    }

    pub fn is_tracking(&self) -> (r: bool)
        ensures
            r == self.tracking_spec(),
    {
        self.tracking
    }

    /// Turn tracking on or off; turning it off forces the pause flag back to
    /// false.
    pub fn set_tracking(&mut self, tracking: bool)
        ensures
            (final(self).tracking_spec(), final(self).paused_spec()) == spec_set_tracking(
                old(self).paused_spec(),
                tracking,
            ),
    {
        self.tracking = tracking;
        if !tracking {
            self.paused = false;
        }
    }

    /// Begin a tracking session, unpaused. The shared state carries exactly
    /// one session at a time: beginning while one is already tracked is
    /// rejected and changes nothing.
    pub fn begin_tracking(&mut self) -> (r: Result<(), AlreadyTrackingError>)
        ensures
            old(self).tracking_spec() ==> {
                &&& r is Err
                &&& final(self).tracking_spec()
                &&& final(self).paused_spec() == old(self).paused_spec()
            },
            !old(self).tracking_spec() ==> {
                &&& r is Ok
                &&& final(self).tracking_spec()
                &&& !final(self).paused_spec()
            },
    {
        if self.tracking {
            return Err(AlreadyTrackingError);
        }
        self.tracking = true;
        self.paused = false;
        Ok(())
    }

    /// Flip the pause flag of the tracked session and report the new value;
    /// an error (and no change) when no session is tracked.
    pub fn toggle(&mut self) -> (r: Result<bool, NotTrackingError>)
        ensures
            (r, final(self).paused_spec()) == spec_toggle(
                old(self).tracking_spec(),
                old(self).paused_spec(),
            ),
            final(self).tracking_spec() == old(self).tracking_spec(),
    {
        if !self.tracking {
            return Err(NotTrackingError);
        }
        self.paused = !self.paused;
        Ok(self.paused)
    }
}

/// Law: pause semantics. Toggling without tracking fails and changes nothing;
/// with tracking on, a toggle flips the pause flag and a second toggle
/// restores it; turning tracking off always leaves the pause flag false.
pub proof fn lemma_pause_semantics(paused: bool)
    ensures
        spec_toggle(false, paused).0 is Err,
        spec_toggle(false, paused).1 == paused,
        spec_toggle(true, paused).0 == Ok::<bool, NotTrackingError>(!paused),
        spec_toggle(true, paused).1 == !paused,
        spec_toggle(true, spec_toggle(true, paused).1).1 == paused,
        spec_set_tracking(paused, false).1 == false,
{
}

} // verus!
