//! Animation and effect descriptors: pure value types consumed by widgets.
//! They hold timing parameters and frame material; the loop outside the
//! library decides when to advance them.

use vstd::prelude::*;

verus! {

/// A text animation descriptor.
#[derive(Clone, Copy, PartialEq, Eq, Structural, Debug)]
pub enum TextAnimation {
    /// Reveals one character per interval, in milliseconds.
    Typewriter(u64),
    /// Scrolls the text leftward at the given speed.
    ScrollLeft(u32),
}

impl TextAnimation {
    pub fn typewriter(interval_ms: u64) -> (t: TextAnimation)
        ensures
            t == TextAnimation::Typewriter(interval_ms),
    {
        TextAnimation::Typewriter(interval_ms)
    }

    pub fn scroll_left(speed: u32) -> (t: TextAnimation)
        ensures
            t == TextAnimation::ScrollLeft(speed),
    {
        TextAnimation::ScrollLeft(speed)
    }
}

/// A frame-by-frame animation: a list of text frames and the interval, in
/// milliseconds, at which the loop advances them.
pub struct FrameAnimation {
    pub frames: Vec<String>,
    pub interval_ms: u64,
}

impl FrameAnimation {
    pub fn new(frames: Vec<String>, interval_ms: u64) -> (a: FrameAnimation)
        ensures
            a.frames@ == frames@,
            a.interval_ms == interval_ms,
    {
        FrameAnimation { frames, interval_ms }
    }

    /// The frame currently shown: the first one, or nothing while the
    /// animation holds no frames.
    pub fn get_current_frame(&self) -> (r: Option<String>)
        ensures
            match r {
                Some(s) => self.frames@.len() > 0 && s@ == self.frames@[0]@,
                None => self.frames@.len() == 0,
            },
    {
        if self.frames.len() > 0 {
            Some(self.frames[0].clone())
        } else {
            None
        }
    }
}

/// A named visual effect with its duration or interval in milliseconds.
#[derive(Clone, Copy, PartialEq, Eq, Structural, Debug)]
pub enum Effect {
    Fade(u64),
    Slide(u64),
    Blink(u64),
    Pulse(u64),
}

impl Effect {
    pub fn fade(duration_ms: u64) -> (e: Effect)
        ensures
            e == Effect::Fade(duration_ms),
    {
        Effect::Fade(duration_ms)
    }

    pub fn slide(duration_ms: u64) -> (e: Effect)
        ensures
            e == Effect::Slide(duration_ms),
    {
        Effect::Slide(duration_ms)
    }

    pub fn blink(interval_ms: u64) -> (e: Effect)
        ensures
            e == Effect::Blink(interval_ms),
    {
        Effect::Blink(interval_ms)
    }

    pub fn pulse(duration_ms: u64) -> (e: Effect)
        ensures
            e == Effect::Pulse(duration_ms),
    {
        Effect::Pulse(duration_ms)
    }
}

/// The ordered set of active effects.
pub struct EffectManager {
    pub effects: Vec<Effect>,
}

impl EffectManager {
    pub fn new() -> (m: EffectManager)
        ensures
            m.effects@.len() == 0,
    {
        EffectManager { effects: Vec::new() }
    }

    pub fn add_effect(&mut self, effect: Effect)
        ensures
            final(self).effects@ == old(self).effects@.push(effect),
    {
        self.effects.push(effect);
    }
}

} // verus!
