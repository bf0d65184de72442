//! The debounce gate: filters raw hardware-change notifications down to the
//! ones that warrant a fresh look at the device inventory.
//!
//! Times are milliseconds on a monotonic clock of the caller's choosing.

use vstd::prelude::*;
use crate::signal::is_eligible;

verus! {

/// Default cooldown between two accepted signals.
pub const COOLDOWN_MILLIS: u64 = 2000;

/// Pause between accepting a signal and probing, so that the host's device
/// enumeration can settle.
pub const SETTLE_MILLIS: u64 = 500;

/// Time gone by from `last` to `now`; zero where the clock reads earlier than
/// `last`.
pub open spec fn elapsed(last: u64, now: u64) -> int {
    if now >= last {
        now - last
    } else {
        0
    }
}

/// The cooldown window: when the last accepted signal was recorded, if any
/// was, and how long signals stay suppressed after it.
#[derive(Clone, Copy, Debug, PartialEq, Eq, Structural)]
pub struct CooldownWindow {
    pub last_accepted: Option<u64>,
    pub threshold: u64,
}

impl CooldownWindow {
    /// Whether `now` falls inside the window: a signal was recorded and less
    /// than the threshold has gone by since.
    pub open spec fn suppresses(self, now: u64) -> bool {
        self.last_accepted matches Some(last) && elapsed(last, now) < self.threshold
    }
}

/// Decides which hardware-change signals are acted on.
#[derive(Clone, Copy, Debug, PartialEq, Eq, Structural)]
pub struct DebounceGate {
    window: CooldownWindow,
}

impl View for DebounceGate {
    type V = CooldownWindow;

    closed spec fn view(&self) -> CooldownWindow {
        self.window
    }
}

impl DebounceGate {
    /// A gate that has accepted nothing yet.
    pub fn new(threshold_millis: u64) -> (gate: DebounceGate)
        ensures
            gate@ == (CooldownWindow { last_accepted: None, threshold: threshold_millis }),
    {
        DebounceGate { window: CooldownWindow { last_accepted: None, threshold: threshold_millis } }
    }

    /// The cooldown window as it stands.
    pub fn window(&self) -> (window: CooldownWindow)
        ensures
            window == self@,
    {
        self.window
    }

    /// What `accept` answers.
    pub open spec fn accepts(&self, signal_code: u64, now: u64) -> bool {
        is_eligible(signal_code) && !self@.suppresses(now)
    }

    /// Whether a signal received at `now` warrants a probe. A code outside
    /// the recognized set never does. A recognized one does unless a
    /// recorded acceptance lies less than the threshold back; the first one
    /// always does. Nothing is written: the caller records the acceptance
    /// with `record` once the cycle that it started is over.
    pub fn accept(&self, signal_code: u64, now: u64) -> (accepted: bool)
        ensures
            accepted == self.accepts(signal_code, now),
    {
        if !is_eligible(signal_code) {
            return false;
        }
        match self.window.last_accepted {
            Some(last) => now.saturating_sub(last) >= self.window.threshold,
            None => true,
        }
    }

    /// Starts the cooldown at `now`. Called after the probe and the commands
    /// that an accepted signal led to, so that the window covers the time it
    /// took to settle and react.
    pub fn record(&mut self, now: u64)
        ensures
            final(self)@ == (CooldownWindow { last_accepted: Some(now), threshold: old(self)@.threshold }),
    {
        self.window.last_accepted = Some(now);
    }
}

/// On a clock that does not run backwards, once an acceptance was recorded
/// at `last` a signal at `now` is accepted exactly if its code is recognized
/// and at least the threshold lies between the two: at most one probe per
/// cooldown interval.
pub proof fn lemma_one_probe_per_window(gate: DebounceGate, signal_code: u64, last: u64, now: u64)
    requires
        gate@.last_accepted == Some(last),
        last <= now,
    ensures
        gate.accepts(signal_code, now) <==> is_eligible(signal_code) && now - last
            >= gate@.threshold,
{
}

} // verus!
