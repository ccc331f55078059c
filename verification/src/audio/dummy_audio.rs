//! The audio backend of platforms without sound: every call succeeds and
//! does nothing.

use vstd::prelude::*;

verus! {

/// The native audio context of a platform without sound.
pub struct AudioContext {}

impl AudioContext {
    pub fn new() -> (ctx: AudioContext)
        ensures
            ctx == (AudioContext {}),
    {
        AudioContext {}
    }

    /// Pauses all sound; nothing to do here.
    pub fn pause(&mut self)
        ensures
            *final(self) == *old(self),
    {
    }

    /// Resumes all sound; nothing to do here.
    pub fn resume(&mut self)
        ensures
            *final(self) == *old(self),
    {
    }
}

/// A sound of a platform without sound.
pub struct Sound {}

impl Sound {
    /// Loads a sound from encoded bytes; the bytes are not looked at.
    pub fn load(_ctx: &mut AudioContext, _data: &[u8]) -> (s: Sound)
        ensures
            s == (Sound {}),
            *final(_ctx) == *old(_ctx),
    {
        Sound {}
    }

    /// A silent sound is loaded at once.
    pub fn is_loaded(&self) -> (b: bool)
        ensures
            b,
    {
        true
    }

    /// Stops the sound; nothing to do here.
    pub fn stop(&mut self, _ctx: &mut AudioContext)
        ensures
            *final(self) == *old(self),
            *final(_ctx) == *old(_ctx),
    {
    }
}

} // verus!
