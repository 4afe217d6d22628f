use vstd::prelude::*;
use std::time::{Duration, Instant};

verus! {

/// `std::time::Instant`, a reading of the monotonic clock, carried opaquely.
#[verifier::external_type_specification]
#[verifier::external_body]
pub struct ExInstant(std::time::Instant);

/// Relies on `Instant::now`: a reading of the monotonic clock.
#[verifier::external_body]
fn now() -> (r: Instant) {
    Instant::now()
}

/// Relies on `Instant::duration_since`: the time from `earlier` to `later`.
#[verifier::external_body]
fn duration_since(later: &Instant, earlier: &Instant) -> (r: Duration) {
    later.duration_since(*earlier)
}

/// Relies on `Duration::as_secs`: the whole seconds of `d`.
#[verifier::external_body]
fn whole_secs(d: &Duration) -> (r: u64) {
    d.as_secs()
}

/// Counts rendered frames and reports how many were rendered in the last whole
/// second that was measured.
pub struct FpsMeter {
    last_time: Instant,
    frames: u32,
    fps: u32,
}

impl FpsMeter {
    /// Frames counted since the last measurement.
    pub closed spec fn frames(&self) -> u32 {
        self.frames
    }

    /// The rate of the last measurement.
    pub closed spec fn rate(&self) -> u32 {
        self.fps
    }

    /// When the last measurement was taken.
    pub closed spec fn since(&self) -> Instant {
        self.last_time
    }

    pub fn new() -> (r: Self)
        ensures
            r.frames() == 0,
            r.rate() == 0,
    {
        Self { last_time: now(), frames: 0, fps: 0 }
    }

    /// Counts one frame rendered at `now`, `elapsed_secs` whole seconds after the
    /// last measurement. From one second on, the count becomes the rate and a new
    /// measurement starts at `now`. The count stops at `u32::MAX`.
    pub fn record_frame(&mut self, now: Instant, elapsed_secs: u64)
        ensures
            ({
                let counted = if old(self).frames() == u32::MAX {
                    u32::MAX
                } else {
                    (old(self).frames() + 1) as u32
                };
                if elapsed_secs >= 1 {
                    &&& final(self).rate() == counted
                    &&& final(self).frames() == 0
                    &&& final(self).since() == now
                } else {
                    &&& final(self).rate() == old(self).rate()
                    &&& final(self).frames() == counted
                    &&& final(self).since() == old(self).since()
                }
            }),
    {
        self.frames = self.frames.saturating_add(1);
        if elapsed_secs >= 1 {
            self.fps = self.frames;
            self.frames = 0;
            self.last_time = now;
        }
    }

    /// Counts one frame rendered now: see `record_frame`.
    pub fn tick(&mut self)
        ensures
            ({
                let counted = if old(self).frames() == u32::MAX {
                    u32::MAX
                } else {
                    (old(self).frames() + 1) as u32
                };
                ||| final(self).rate() == old(self).rate() && final(self).frames() == counted
                ||| final(self).rate() == counted && final(self).frames() == 0
            }),
    {
        let t = now();
        let elapsed = duration_since(&t, &self.last_time);
        let secs = whole_secs(&elapsed);
        self.record_frame(t, secs);
    }

    /// Frames rendered in the last second that was measured.
    pub fn fps(&self) -> (r: u32)
        ensures
            r == self.rate(),
    {
        self.fps
    }
}

} // verus!
