use vstd::prelude::*;

verus! {

/// The frame rate a limiter starts with.
pub const DEFAULT_FPS: usize = 60;

/// A frame-rate limit. Zero means no limit.
pub struct Fps {
    target_fps: usize,
}

impl View for Fps {
    type V = usize;

    /// The frame rate aimed at.
    closed spec fn view(&self) -> usize {
        self.target_fps
    }
}

impl Fps {
    /// A limit of `DEFAULT_FPS` frames a second.
    pub fn new() -> (f: Self)
        ensures
            f@ == DEFAULT_FPS,
    {
        Self::with_fps(DEFAULT_FPS)
    }

    /// A limit of `fps` frames a second.
    pub fn with_fps(fps: usize) -> (f: Self)
        ensures
            f@ == fps,
    {
        Self { target_fps: fps }
    }

    pub fn get_target_fps(&self) -> (fps: usize)
        ensures
            fps == self@,
    {
        self.target_fps
    }

    pub fn set_target_fps(&mut self, fps: usize)
        ensures
            final(self)@ == fps,
    {
        self.target_fps = fps;
    }

    /// Whether frames are held back at all: they are unless the rate is zero.
    pub fn is_limited(&self) -> (limited: bool)
        ensures
            limited == (self@ != 0),
    {
        self.target_fps != 0
    }
}

/// How long a frame that has taken `elapsed` still has to wait to fill
/// `frame`, both in nanoseconds: the rest, if there is one.
pub fn time_left(frame: u128, elapsed: u128) -> (wait: Option<u128>)
    ensures
        wait == if elapsed < frame {
            Some((frame - elapsed) as u128)
        } else {
            None
        },
{
    if elapsed < frame {
        Some(frame - elapsed)
    } else {
        None
    }
}

} // verus!
