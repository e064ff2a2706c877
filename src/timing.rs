//! The frame clock: readings of a monotonic clock in nanoseconds, folded into
//! the time of the last frame, the time between the last two frames and a
//! frame counter.
use vstd::prelude::*;

verus! {

/// Clock state of the running simulation, all times in nanoseconds of one
/// monotonic clock.
#[derive(Clone, Copy, Debug, PartialEq, Eq)]
pub struct Timing {
    /// When the last frame started.
    pub time: u64,
    /// How long before `time` the frame ahead of it started.
    pub time_since_last_frame: u64,
    /// When the simulation started.
    pub start_time: u64,
    /// How many frames have started.
    pub frame: u64,
}

impl Timing {
    /// The clock never runs behind the start, the last step is part of the
    /// time elapsed since the start, and before the first frame no time has
    /// passed.
    pub open spec fn wf(self) -> bool {
        &&& self.start_time <= self.time
        &&& self.time_since_last_frame <= self.time - self.start_time
        &&& (self.frame == 0 ==> self.time == self.start_time && self.time_since_last_frame == 0)
    }

    /// Nanoseconds from the start to the last frame.
    pub open spec fn elapsed_spec(self) -> nat {
        (self.time - self.start_time) as nat
    }

    /// A clock started at `now`, before any frame.
    pub open spec fn new_spec(now: u64) -> Timing {
        Timing { time: now, time_since_last_frame: 0, start_time: now, frame: 0 }
    }

    /// The clock after a frame that starts at the reading `now`. A reading
    /// behind the last one counts as no time at all, so the clock never
    /// runs backwards. The first frame starts the clock afresh: its step is
    /// zero and the time since the start counts from it, so whatever came
    /// before it (setting up the device) brings no jump.
    pub open spec fn advanced(self, now: u64) -> Timing {
        let t = if now >= self.time { now } else { self.time };
        if self.frame == 0 {
            Timing { time: t, time_since_last_frame: 0, start_time: t, frame: 1 }
        } else {
            Timing {
                time: t,
                time_since_last_frame: (t - self.time) as u64,
                start_time: self.start_time,
                frame: (self.frame + 1) as u64,
            }
        }
    }

    /// A clock started at `now`, before any frame.
    pub fn new(now: u64) -> (r: Timing)
        ensures
            r == Timing::new_spec(now),
            r.wf(),
    {
        Timing { time: now, time_since_last_frame: 0, start_time: now, frame: 0 }
    }

    /// Nanoseconds between the last two frames.
    pub fn dt(&self) -> (r: u64)
        ensures
            r == self.time_since_last_frame,
    {
        self.time_since_last_frame
    }

    /// Nanoseconds from the start to the last frame.
    pub fn elapsed(&self) -> (r: u64)
        requires
            self.wf(),
        ensures
            r == self.elapsed_spec(),
    {
        self.time - self.start_time
    }

    /// Starts a frame at the clock reading `now`: the time between frames is
    /// what passed since the last one, and the counter goes up by one.
    pub fn advance_time(&mut self, now: u64)
        requires
            old(self).wf(),
            old(self).frame < u64::MAX,
        ensures
            *final(self) == old(self).advanced(now),
            final(self).wf(),
            final(self).time >= old(self).time,
            final(self).elapsed_spec() == old(self).elapsed_spec() + final(self).time_since_last_frame,
            old(self).frame == 0 ==> final(self).time_since_last_frame == 0,
            old(self).frame > 0 ==> final(self).time_since_last_frame == final(self).time
                - old(self).time,
            old(self).frame > 0 ==> final(self).start_time == old(self).start_time,
            final(self).frame == old(self).frame + 1,
    {
        let t: u64 = if now >= self.time { now } else { self.time };
        if self.frame == 0 {
            self.start_time = t;
            self.time_since_last_frame = 0;
        } else {
            self.time_since_last_frame = t - self.time;
        }
        self.time = t;
        self.frame = self.frame + 1;
    }
}

/// The clock after frames that start at each reading of `nows` in turn.
pub open spec fn run_frames(t: Timing, nows: Seq<u64>) -> Timing
    decreases nows.len(),
{
    if nows.len() == 0 {
        t
    } else {
        run_frames(t.advanced(nows[0]), nows.drop_first())
    }
}

/// Over any run of frames, whatever the clock reads, the time of the last
/// frame never decreases, the clock stays consistent, the start stays put
/// once a frame has run, and the counter counts the frames.
pub proof fn lemma_time_never_decreases(t: Timing, nows: Seq<u64>)
    requires
        t.wf(),
        t.frame + nows.len() <= u64::MAX,
    ensures
        run_frames(t, nows).wf(),
        run_frames(t, nows).time >= t.time,
        t.frame > 0 ==> run_frames(t, nows).start_time == t.start_time,
        run_frames(t, nows).frame == t.frame + nows.len(),
    decreases nows.len(),
{
    if nows.len() > 0 {
        lemma_time_never_decreases(t.advanced(nows[0]), nows.drop_first());
    }
}

/// The first frame of a clock that has run no frame yet has a step of
/// zero and starts the elapsed time at zero, whenever it comes.
pub proof fn lemma_first_frame_has_no_jump(t: Timing, now: u64)
    requires
        t.wf(),
        t.frame == 0,
    ensures
        t.advanced(now).time_since_last_frame == 0,
        t.advanced(now).elapsed_spec() == 0,
        t.advanced(now).wf(),
{
}

} // verus!
