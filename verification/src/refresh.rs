//! The in-flight guard of the background collection: at most one
//! collection runs at a time, so that a hanging one (NVML) does not pile up
//! others behind it, and a request for live values made while one runs is
//! not lost but run once, right after it.

use vstd::prelude::*;

verus! {

/// Whether a collection is running, and whether a live one was asked for
/// meanwhile.
pub struct RefreshGuard {
    running: bool,
    pending_live: bool,
}

impl RefreshGuard {
    pub closed spec fn spec_running(&self) -> bool {
        self.running
    }

    pub closed spec fn spec_pending_live(&self) -> bool {
        self.pending_live
    }

    /// No collection running, none deferred.
    pub fn new() -> (r: Self)
        ensures
            !r.spec_running(),
            !r.spec_pending_live(),
    {
        RefreshGuard { running: false, pending_live: false }
    }

    /// A collection is asked for, with live values or not. Returns whether
    /// to start it now: only when none is running. Otherwise a live request
    /// is remembered for when the running one finishes.
    pub fn request(&mut self, live: bool) -> (start: bool)
        ensures
            start == !old(self).spec_running(),
            final(self).spec_running(),
            final(self).spec_pending_live() == (old(self).spec_pending_live() || (
            old(self).spec_running() && live)),
    {
        if self.running {
            if live {
                self.pending_live = true;
            }
            return false;
        }
        self.running = true;
        true
    }

    /// The running collection has finished. Returns whether to ask for a
    /// live one at once: a live request came meanwhile and the popup is
    /// still open. The deferred request is used up either way.
    pub fn finish(&mut self, popup_open: bool) -> (rerun_live: bool)
        ensures
            rerun_live == (old(self).spec_pending_live() && popup_open),
            !final(self).spec_running(),
            !final(self).spec_pending_live(),
    {
        let pending = self.pending_live;
        self.running = false;
        self.pending_live = false;
        pending && popup_open
    }

    /// Whether a collection is running.
    pub fn is_running(&self) -> (r: bool)
        ensures
            r == self.spec_running(),
    {
        self.running
    }
}

} // verus!
