//! The re-injection cadence. Every fast tick re-evaluates the scraper and
//! the settings button; on the first tick with a window, and on every
//! `SLOW_TICK_PERIOD`-th one after, the full plugin bundle is re-injected
//! too. One counter drives both, so the slow action never drifts out of
//! phase with the fast one.

use vstd::prelude::*;

verus! {

/// Seconds between fast ticks.
pub const FAST_TICK_SECS: u64 = 2;

/// Fast ticks per plugin re-injection.
pub const SLOW_TICK_PERIOD: u32 = 8;

/// What one tick does in the page.
#[derive(Debug, Clone, Copy, PartialEq, Eq, Structural)]
pub enum TickAction {
    /// No main window: nothing to do this time.
    Skip,
    /// Re-evaluate the scraper and the settings button.
    Refresh,
    /// Refresh, then rebuild and re-inject the plugin bundle.
    RefreshAndReinject,
}

/// The action of the `n`-th tick that found a window.
pub open spec fn action_for(n: u32) -> TickAction {
    if n <= 1 || n % SLOW_TICK_PERIOD == 0 {
        TickAction::RefreshAndReinject
    } else {
        TickAction::Refresh
    }
}

/// Counts the ticks that found a window (saturating at `u32::MAX`).
pub struct InjectionScheduler {
    ticks: u32,
}

impl InjectionScheduler {
    pub closed spec fn ticks(&self) -> u32 {
        self.ticks
    }

    pub fn new() -> (r: InjectionScheduler)
        ensures
            r.ticks() == 0,
    {
        InjectionScheduler { ticks: 0 }
    }

    /// Advances one fast tick. Without a main window the tick is skipped
    /// and not counted.
    pub fn tick(&mut self, window_present: bool) -> (r: TickAction)
        ensures
            !window_present ==> r == TickAction::Skip && final(self).ticks() == old(self).ticks(),
            window_present ==> final(self).ticks() == (if old(self).ticks() < u32::MAX {
                (old(self).ticks() + 1) as u32
            } else {
                u32::MAX
            }) && r == action_for(final(self).ticks()),
    {
        if !window_present {
            return TickAction::Skip;
        }
        self.ticks = self.ticks.saturating_add(1);
        if self.ticks <= 1 || self.ticks % SLOW_TICK_PERIOD == 0 {
            TickAction::RefreshAndReinject
        } else {
            TickAction::Refresh
        }
    }
}

} // verus!
