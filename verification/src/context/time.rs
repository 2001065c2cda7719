use std::time::{Duration, Instant};
use vstd::prelude::*;

verus! {

#[verifier::external_type_specification]
#[verifier::external_body]
pub struct ExInstant(Instant);

/// `Instant::now`: some point of the monotonic clock; nothing is promised of it.
#[verifier::external_body]
fn now() -> Instant {
    Instant::now()
}

/// `Instant::elapsed`: the time that has passed since `since`; nothing is
/// promised of it.
#[verifier::external_body]
fn elapsed(since: &Instant) -> Duration {
    since.elapsed()
}

/// `Duration::as_millis`: the whole milliseconds in `d`; nothing is promised
/// of their number.
#[verifier::external_body]
fn as_millis(d: &Duration) -> u128 {
    d.as_millis()
}

/// The counters of a frame clock, without the clock.
pub struct Frames {
    /// The frame rate aimed at.
    pub target_fps: u64,
    /// Frames counted, starting over each time `target_fps` is reached.
    pub current_on_target: u64,
    /// Frames counted since the running second began.
    pub current: u64,
    /// Milliseconds between the last two updates.
    pub delta_ms: u128,
    /// The mean frame time reported at the end of the last full second, in
    /// milliseconds.
    pub average_ms: u64,
    /// The frame count of the last full second.
    pub fps: u64,
}

/// The mean frame time in milliseconds where `frames` of them fill a
/// second: a thousand over `frames`, rounded down; with no frame at all, the
/// largest value there is.
pub open spec fn mean_frame_ms(frames: u64) -> u64 {
    if frames == 0 {
        u64::MAX
    } else {
        (1000int / frames as int) as u64
    }
}

/// The counter that starts over at `target`: one more than `count`, or zero
/// where that would reach `target`.
pub open spec fn next_on_target(count: u64, target: u64) -> u64 {
    if count + 1 < target {
        (count + 1) as u64
    } else {
        0
    }
}

impl Frames {
    /// The counters after one more frame.
    pub open spec fn counted(self) -> Frames {
        Frames {
            current_on_target: next_on_target(self.current_on_target, self.target_fps),
            current: if self.current == u64::MAX {
                0
            } else {
                (self.current + 1) as u64
            },
            ..self
        }
    }

    /// The counters after an update that found `delta_ms` milliseconds gone
    /// since the update before and `since_second_ms` since the running second
    /// began. A second that is over is summed up and a new one begins.
    pub open spec fn updated(self, delta_ms: u128, since_second_ms: u128) -> Frames {
        let f = Frames { delta_ms, ..self }.counted();
        if since_second_ms >= 1000 {
            Frames { average_ms: mean_frame_ms(f.current_on_target), fps: f.current, current: 0, ..f }
        } else {
            f
        }
    }
}

/// A frame clock: counts frames, and once a second sums them up.
pub struct TimeInfo {
    target_fps: u64,
    current_on_target: u64,
    current: u64,
    second_start: Instant,
    prev_time: Instant,
    delta_ms: u128,
    average_ms: u64,
    fps: u64,
}

impl View for TimeInfo {
    type V = Frames;

    closed spec fn view(&self) -> Frames {
        Frames {
            target_fps: self.target_fps,
            current_on_target: self.current_on_target,
            current: self.current,
            delta_ms: self.delta_ms,
            average_ms: self.average_ms,
            fps: self.fps,
        }
    }
}

impl TimeInfo {
    /// What holds of every frame clock: the counter that starts over stays
    /// below the target, or at zero where the target is zero.
    pub open spec fn wf(self) -> bool {
        self@.current_on_target == 0 || self@.current_on_target < self@.target_fps
    }

    #[verifier::type_invariant]
    spec fn inv(self) -> bool {
        self.wf()
    }

    /// A clock that aims at `fps` frames a second and has counted none.
    pub fn new(fps: u64) -> (t: Self)
        ensures
            t.wf(),
            t@ == (Frames {
                target_fps: fps,
                current_on_target: 0,
                current: 0,
                delta_ms: 0,
                average_ms: 0,
                fps,
            }),
    {
        Self {
            target_fps: fps,
            prev_time: now(),
            current_on_target: 0,
            current: 0,
            delta_ms: 0,
            average_ms: 0,
            second_start: now(),
            fps,
        }
    }

    /// Sets both reference points to the present. The counters stay.
    pub fn start(&mut self)
        ensures
            final(self)@ == old(self)@,
    {
        proof {
            use_type_invariant(&*self);
        }
        self.prev_time = now();
        self.second_start = now();
    }

    fn increment_frame(&mut self)
        ensures
            final(self)@ == old(self)@.counted(),
    {
        proof {
            use_type_invariant(&*self);
        }
        if self.current_on_target + 1 < self.target_fps {
            self.current_on_target += 1;
        } else {
            self.current_on_target = 0;
        }

        self.current = self.current.wrapping_add(1);
    }

    /// The bookkeeping of one update, given the two times the clock showed:
    /// `delta_ms` since the update before, `since_second_ms` since the
    /// running second began. Returns whether that second is over.
    pub fn record(&mut self, delta_ms: u128, since_second_ms: u128) -> (second: bool)
        ensures
            final(self)@ == old(self)@.updated(delta_ms, since_second_ms),
            second == (since_second_ms >= 1000),
    {
        proof {
            use_type_invariant(&*self);
        }
        self.delta_ms = delta_ms;
        self.increment_frame();
        proof {
            use_type_invariant(&*self);
        }
        if since_second_ms >= 1000 {
            self.average_ms = if self.current_on_target == 0 {
                u64::MAX
            } else {
                1000 / self.current_on_target
            };
            self.fps = self.current;
            self.current = 0;
            true
        } else {
            false
        }
    }

    /// Reads the clock and counts a frame. Returns whether a second has
    /// gone by since the last time it did; the frames of that second are
    /// then summed up and a new second begins.
    pub fn update(&mut self) -> (second: bool)
        ensures
            exists|delta_ms: u128, since_second_ms: u128|
                final(self)@ == #[trigger] old(self)@.updated(delta_ms, since_second_ms) && second
                    == (since_second_ms >= 1000),
    {
        proof {
            use_type_invariant(&*self);
        }
        let delta: Duration = elapsed(&self.prev_time);
        let delta_ms: u128 = as_millis(&delta);
        self.prev_time = now();
        let since_second: Duration = elapsed(&self.second_start);
        let since_second_ms: u128 = as_millis(&since_second);
        let ghost before = self@;
        let second = self.record(delta_ms, since_second_ms);
        proof {
            use_type_invariant(&*self);
        }
        if second {
            self.second_start = now();
        }
        assert(self@ == before.updated(delta_ms, since_second_ms));
        second
    }

    /// The mean frame time of the last full second, in milliseconds.
    pub fn get_average_delta_ms(&self) -> (ms: u128)
        ensures
            ms == self@.average_ms,
    {
        self.average_ms as u128
    }

    /// The frame count of the last full second; until one is over, the target.
    pub fn get_average_fps(&self) -> (fps: u64)
        ensures
            fps == self@.fps,
    {
        self.fps
    }

    /// Milliseconds between the last two updates.
    pub fn delta_time_ms(&self) -> (ms: u128)
        ensures
            ms == self@.delta_ms,
    {
        self.delta_ms
    }
}

} // verus!
