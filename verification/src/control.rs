//! Scheduler and Controller for sample-accurate start/stop timings.
//!
//! Times are engine ticks (`TICKS_PER_FRAME` ticks per frame).  The value
//! `u64::MAX` stands for "not scheduled".

use vstd::prelude::*;

verus! {

use crate::AudioError;

/// Start and stop times of a source node's audio stream.
#[derive(Clone, Copy, Debug, PartialEq, Eq, Structural)]
pub struct Scheduler {
    start: u64,
    stop: u64,
}

impl Scheduler {
    /// The scheduled start time in ticks.
    pub closed spec fn start_time(self) -> u64 {
        self.start
    }

    /// The scheduled stop time in ticks.
    pub closed spec fn stop_time(self) -> u64 {
        self.stop
    }

    /// Create a new Scheduler.  Initial playback state is inactive.
    pub fn new() -> (r: Scheduler)
        ensures
            r.start_time() == u64::MAX,
            r.stop_time() == u64::MAX,
    {
        Scheduler { start: u64::MAX, stop: u64::MAX }
    }

    /// Retrieve the playback start time.
    pub fn get_start_at(&self) -> (t: u64)
        ensures
            t == self.start_time(),
    {
        self.start
    }

    /// Schedule playback to start at this tick.  Scheduling a start more
    /// than once is a user error (`InvalidState`) and leaves the existing
    /// schedule in place.
    pub fn start_at(&mut self, start: u64) -> (r: Result<(), AudioError>)
        ensures
            old(self).start_time() == u64::MAX ==> r == Result::<(), AudioError>::Ok(())
                && final(self).start_time() == start,
            old(self).start_time() != u64::MAX ==> r == Result::<(), AudioError>::Err(
                AudioError::InvalidState,
            ) && *final(self) == *old(self),
            final(self).stop_time() == old(self).stop_time(),
    {
        if self.start != u64::MAX {
            return Err(AudioError::InvalidState);
        }
        self.start = start;
        Ok(())
    }

    /// Retrieve the playback stop time.
    pub fn get_stop_at(&self) -> (t: u64)
        ensures
            t == self.stop_time(),
    {
        self.stop
    }

    /// Schedule playback to stop at this tick.
    pub fn stop_at(&mut self, stop: u64)
        ensures
            final(self).stop_time() == stop,
            final(self).start_time() == old(self).start_time(),
    {
        self.stop = stop;
    }
}

impl Default for Scheduler {
    /// Same as `Scheduler::new`.
    fn default() -> (r: Self)
        ensures
            r.start_time() == u64::MAX,
            r.stop_time() == u64::MAX,
    {
        Scheduler::new()
    }
}

/// Playback controls of a buffer-backed source node: scheduling plus loop
/// region, offset and duration.
#[derive(Clone, Copy, Debug, PartialEq, Eq, Structural)]
pub struct Controller {
    scheduler: Scheduler,
    loop_: bool,
    loop_start: u64,
    loop_end: u64,
    offset: u64,
    duration: u64,
}

impl Controller {
    /// The embedded scheduler.
    pub closed spec fn scheduler_spec(self) -> Scheduler {
        self.scheduler
    }

    /// Whether looping is enabled.
    pub closed spec fn loop_spec(self) -> bool {
        self.loop_
    }

    /// Loop start in ticks.
    pub closed spec fn loop_start_spec(self) -> u64 {
        self.loop_start
    }

    /// Loop end in ticks.
    pub closed spec fn loop_end_spec(self) -> u64 {
        self.loop_end
    }

    /// Playback offset in ticks.
    pub closed spec fn offset_spec(self) -> u64 {
        self.offset
    }

    /// Playback duration in ticks.
    pub closed spec fn duration_spec(self) -> u64 {
        self.duration
    }

    /// Create a new Controller.  It will not be active.
    pub fn new() -> (r: Controller)
        ensures
            r.scheduler_spec().start_time() == u64::MAX,
            r.scheduler_spec().stop_time() == u64::MAX,
            !r.loop_spec(),
            r.loop_start_spec() == 0,
            r.loop_end_spec() == u64::MAX,
            r.offset_spec() == u64::MAX,
            r.duration_spec() == u64::MAX,
    {
        Controller {
            scheduler: Scheduler::new(),
            loop_: false,
            loop_start: 0,
            loop_end: u64::MAX,
            offset: u64::MAX,
            duration: u64::MAX,
        }
    }

    /// Borrow the scheduler.
    pub fn scheduler(&self) -> (r: &Scheduler)
        ensures
            *r == self.scheduler_spec(),
    {
        &self.scheduler
    }

    /// Whether looping is enabled.
    pub fn loop_(&self) -> (r: bool)
        ensures
            r == self.loop_spec(),
    {
        self.loop_
    }

    /// Enable or disable looping.
    pub fn set_loop(&mut self, loop_: bool)
        ensures
            final(self).loop_spec() == loop_,
            final(self).scheduler_spec() == old(self).scheduler_spec(),
            final(self).loop_start_spec() == old(self).loop_start_spec(),
            final(self).loop_end_spec() == old(self).loop_end_spec(),
            final(self).offset_spec() == old(self).offset_spec(),
            final(self).duration_spec() == old(self).duration_spec(),
    {
        self.loop_ = loop_;
    }

    /// Loop start time in ticks.
    pub fn loop_start(&self) -> (t: u64)
        ensures
            t == self.loop_start_spec(),
    {
        self.loop_start
    }

    /// Set the loop start time.
    pub fn set_loop_start(&mut self, loop_start: u64)
        ensures
            final(self).loop_start_spec() == loop_start,
            final(self).scheduler_spec() == old(self).scheduler_spec(),
            final(self).loop_spec() == old(self).loop_spec(),
            final(self).loop_end_spec() == old(self).loop_end_spec(),
            final(self).offset_spec() == old(self).offset_spec(),
            final(self).duration_spec() == old(self).duration_spec(),
    {
        self.loop_start = loop_start;
    }

    /// Loop end time in ticks.
    pub fn loop_end(&self) -> (t: u64)
        ensures
            t == self.loop_end_spec(),
    {
        self.loop_end
    }

    /// Set the loop end time.
    pub fn set_loop_end(&mut self, loop_end: u64)
        ensures
            final(self).loop_end_spec() == loop_end,
            final(self).scheduler_spec() == old(self).scheduler_spec(),
            final(self).loop_spec() == old(self).loop_spec(),
            final(self).loop_start_spec() == old(self).loop_start_spec(),
            final(self).offset_spec() == old(self).offset_spec(),
            final(self).duration_spec() == old(self).duration_spec(),
    {
        self.loop_end = loop_end;
    }

    /// Playback offset in ticks.
    pub fn offset(&self) -> (t: u64)
        ensures
            t == self.offset_spec(),
    {
        self.offset
    }

    /// Set the playback offset.
    pub fn set_offset(&mut self, offset: u64)
        ensures
            final(self).offset_spec() == offset,
            final(self).scheduler_spec() == old(self).scheduler_spec(),
            final(self).loop_spec() == old(self).loop_spec(),
            final(self).loop_start_spec() == old(self).loop_start_spec(),
            final(self).loop_end_spec() == old(self).loop_end_spec(),
            final(self).duration_spec() == old(self).duration_spec(),
    {
        self.offset = offset;
    }

    /// Playback duration in ticks.
    pub fn duration(&self) -> (t: u64)
        ensures
            t == self.duration_spec(),
    {
        self.duration
    }

    /// Set the playback duration.
    pub fn set_duration(&mut self, duration: u64)
        ensures
            final(self).duration_spec() == duration,
            final(self).scheduler_spec() == old(self).scheduler_spec(),
            final(self).loop_spec() == old(self).loop_spec(),
            final(self).loop_start_spec() == old(self).loop_start_spec(),
            final(self).loop_end_spec() == old(self).loop_end_spec(),
            final(self).offset_spec() == old(self).offset_spec(),
    {
        self.duration = duration;
    }
}

impl Default for Controller {
    /// Same as `Controller::new`.
    fn default() -> (r: Self)
        ensures
            r.scheduler_spec().start_time() == u64::MAX,
            r.scheduler_spec().stop_time() == u64::MAX,
            !r.loop_spec(),
            r.loop_start_spec() == 0,
            r.loop_end_spec() == u64::MAX,
            r.offset_spec() == u64::MAX,
            r.duration_spec() == u64::MAX,
    {
        Controller::new()
    }
}

} // verus!
