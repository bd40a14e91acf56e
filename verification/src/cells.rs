//! The play/pause flag and the position counter.
//!
//! Like the volume, each is held as its value, and each operation is one
//! indivisible step on it.

use vstd::prelude::*;

verus! {

/// Whether the player is playing (`true`) or paused (`false`).
#[derive(Debug)]
pub struct PlayState {
    playing: bool,
}

impl View for PlayState {
    type V = bool;

    closed spec fn view(&self) -> bool {
        self.playing
    }
}

impl PlayState {
    /// A state that is playing.
    pub fn new() -> (state: Self)
        ensures
            state@,
    {
        Self::with_state(true)
    }

    /// A state that is playing if `playing` is set, paused if not.
    pub fn with_state(playing: bool) -> (state: Self)
        ensures
            state@ == playing,
    {
        PlayState { playing }
    }

    /// Pauses a playing state and resumes a paused one.
    ///
    /// Returns the state that was stored before: `true` if it was playing.
    pub fn toggle(&mut self) -> (previous: bool)
        ensures
            previous == old(self)@,
            final(self)@ == !old(self)@,
    {
        let previous = self.playing;
        self.playing = !previous;
        previous
    }

    /// Whether playback is paused.
    pub fn is_paused(&self) -> (paused: bool)
        ensures
            paused == !self@,
    {
        !self.playing
    }
}

impl Default for PlayState {
    /// A state that is playing.
    fn default() -> (state: Self)
        ensures
            state@,
    {
        Self::new()
    }
}

/// The sum of two 64-bit counts as a 64-bit counter holds it: it starts again
/// from zero when it passes the largest value.
pub open spec fn wrapping_sum(a: u64, b: u64) -> u64 {
    if a + b > u64::MAX {
        (a + b - u64::MAX - 1) as u64
    } else {
        (a + b) as u64
    }
}

/// The whole frames in `samples` interleaved samples of `channels` channels;
/// none where there is no channel.
pub open spec fn frames_in(samples: int, channels: int) -> int {
    if channels <= 0 {
        0
    } else {
        samples / channels
    }
}

/// The whole frames in `samples` interleaved samples of `channels` channels.
pub fn frames_of(samples: usize, channels: usize) -> (frames: usize)
    ensures
        frames == frames_in(samples as int, channels as int),
        frames * channels <= samples,
{
    if channels == 0 {
        0
    } else {
        let frames = samples / channels;
        assert(frames * channels <= samples) by (nonlinear_arith)
            requires
                frames == samples / channels,
                channels > 0,
        ;
        frames
    }
}

/// The number of frames that have been handed to the device.
#[derive(Debug)]
pub struct CurrentSample {
    frames: u64,
}

impl View for CurrentSample {
    type V = u64;

    closed spec fn view(&self) -> u64 {
        self.frames
    }
}

impl CurrentSample {
    /// A counter at zero.
    pub fn new() -> (counter: Self)
        ensures
            counter@ == 0,
    {
        CurrentSample { frames: 0 }
    }

    /// A counter that starts at `frames`, for playback that skips ahead.
    pub fn starting_at(frames: u64) -> (counter: Self)
        ensures
            counter@ == frames,
    {
        CurrentSample { frames }
    }

    /// Moves the counter on by `samples`.
    pub fn advance(&mut self, samples: u64)
        ensures
            final(self)@ == wrapping_sum(old(self)@, samples),
    {
        self.frames = self.frames.wrapping_add(samples);
    }

    /// Moves the counter on by `samples` and returns the count from before.
    pub fn get_and_advance(&mut self, samples: u64) -> (previous: u64)
        ensures
            previous == old(self)@,
            final(self)@ == wrapping_sum(old(self)@, samples),
    {
        let previous = self.frames;
        self.frames = previous.wrapping_add(samples);
        previous
    }

    /// The count.
    pub fn get(&self) -> (frames: u64)
        ensures
            frames == self@,
    {
        self.frames
    }
}

impl Default for CurrentSample {
    /// A counter at zero.
    fn default() -> (counter: Self)
        ensures
            counter@ == 0,
    {
        Self::new()
    }
}

} // verus!
