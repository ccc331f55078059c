//! The registry of loaded sounds.

pub mod dummy_audio;

use vstd::prelude::*;
use std::collections::HashMap;

use dummy_audio::{AudioContext as QuadSndContext, Sound as QuadSndSound};

use crate::error::GameResult;

verus! {

broadcast use vstd::std_specs::hash::group_hash_axioms;

/// The audio state: the native context and every sound loaded so far, each
/// under the id that its `Sound` handle carries.
pub struct AudioContext {
    native_ctx: QuadSndContext,
    sounds: HashMap<usize, QuadSndSound>,
    id: usize,
}

/// A handle to a loaded sound.
#[derive(Debug, Clone, Copy, PartialEq, Eq, Structural)]
pub struct Sound(pub usize);

impl AudioContext {
    /// The loaded sounds by id.
    pub closed spec fn sounds(&self) -> Map<usize, QuadSndSound> {
        self.sounds@
    }

    /// The id that the next sound will get.
    pub closed spec fn next_id(&self) -> nat {
        self.id as nat
    }

    /// Every loaded sound has an id below the next one.
    pub closed spec fn wf(&self) -> bool {
        forall|i: usize| #[trigger] self.sounds@.contains_key(i) ==> i < self.id
    }

    /// No sound loaded yet.
    pub fn new() -> (ctx: AudioContext)
        ensures
            ctx.wf(),
            ctx.sounds() == Map::<usize, QuadSndSound>::empty(),
            ctx.next_id() == 0,
    {
        AudioContext { native_ctx: QuadSndContext::new(), sounds: HashMap::new(), id: 0 }
    }

    /// Pauses all sound.
    pub fn pause(&mut self)
        ensures
            final(self).sounds() == old(self).sounds(),
            final(self).next_id() == old(self).next_id(),
            final(self).wf() == old(self).wf(),
    {
        self.native_ctx.pause()
    }

    /// Resumes all sound.
    pub fn resume(&mut self)
        ensures
            final(self).sounds() == old(self).sounds(),
            final(self).next_id() == old(self).next_id(),
            final(self).wf() == old(self).wf(),
    {
        self.native_ctx.resume()
    }

    /// Loads a sound from encoded bytes and registers it under a fresh id.
    pub fn load(&mut self, bytes: &[u8]) -> (s: Sound)
        requires
            old(self).wf(),
            old(self).next_id() < usize::MAX,
        ensures
            final(self).wf(),
            s.0 == old(self).next_id(),
            !old(self).sounds().contains_key(s.0),
            final(self).sounds().contains_key(s.0),
            final(self).sounds().remove(s.0) == old(self).sounds(),
            final(self).next_id() == old(self).next_id() + 1,
    {
        let sound = QuadSndSound::load(&mut self.native_ctx, bytes);
        let id = self.id;
        self.sounds.insert(id, sound);
        self.id = self.id + 1;
        assert(self.sounds@.remove(id) =~= old(self).sounds@);
        Sound(id)
    }

    /// Stops the sound `sound`, which has to be registered here.
    pub fn stop(&mut self, sound: Sound) -> (r: GameResult<()>)
        requires
            old(self).wf(),
            old(self).sounds().contains_key(sound.0),
        ensures
            r is Ok,
            final(self).wf(),
            final(self).sounds() == old(self).sounds(),
            final(self).next_id() == old(self).next_id(),
    {
        let id = sound.0;
        match self.sounds.remove(&id) {
            Some(mut s) => {
                s.stop(&mut self.native_ctx);
                self.sounds.insert(id, s);
                assert(self.sounds@ =~= old(self).sounds@);
            },
            None => {},
        }
        Ok(())
    }

    /// Whether `sound` is registered here.
    pub fn contains(&self, sound: Sound) -> (b: bool)
        ensures
            b == self.sounds().contains_key(sound.0),
    {
        self.sounds.contains_key(&sound.0)
    }
}

impl Default for AudioContext {
    fn default() -> (ctx: AudioContext)
        ensures
            ctx.wf(),
            ctx.sounds() == Map::<usize, QuadSndSound>::empty(),
            ctx.next_id() == 0,
    {
        AudioContext::new()
    }
}

/// A sound to play, with whether it repeats and its volume (of the
/// platform's volume type `V`).
pub struct Source<V> {
    sound: Sound,
    looped: bool,
    volume: V,
}

impl<V: Copy> Source<V> {
    /// The registered sound that this source plays.
    pub closed spec fn sound(&self) -> Sound {
        self.sound
    }

    /// Whether the source repeats.
    pub closed spec fn looped(&self) -> bool {
        self.looped
    }

    /// The source's volume.
    pub closed spec fn volume_of(&self) -> V {
        self.volume
    }

    /// Loads a sound from encoded bytes into `ctx` and makes a source of it
    /// that plays once at `default_volume`.
    pub fn from_bytes(ctx: &mut AudioContext, bytes: &[u8], default_volume: V) -> (r: GameResult<
        Source<V>,
    >)
        requires
            old(ctx).wf(),
            old(ctx).next_id() < usize::MAX,
        ensures
            r matches Ok(src) && src.sound().0 == old(ctx).next_id() && !src.looped()
                && src.volume_of() == default_volume,
            final(ctx).wf(),
            !old(ctx).sounds().contains_key(old(ctx).next_id() as usize),
            final(ctx).sounds().contains_key(old(ctx).next_id() as usize),
            final(ctx).sounds().remove(old(ctx).next_id() as usize) == old(ctx).sounds(),
            final(ctx).next_id() == old(ctx).next_id() + 1,
    {
        let sound = ctx.load(bytes);
        Ok(Source { sound, looped: false, volume: default_volume })
    }

    /// Plays the source; on a platform without sound there is nothing to do.
    /// Its sound has to be registered in `ctx`.
    pub fn play(&self, ctx: &mut AudioContext) -> (r: GameResult<()>)
        requires
            old(ctx).sounds().contains_key(self.sound().0),
        ensures
            r is Ok,
            *final(ctx) == *old(ctx),
    {
        Ok(())
    }

    /// Stops the source. Its sound has to be registered in `ctx`.
    pub fn stop(&self, ctx: &mut AudioContext) -> (r: GameResult<()>)
        requires
            old(ctx).wf(),
            old(ctx).sounds().contains_key(self.sound().0),
        ensures
            r is Ok,
            final(ctx).wf(),
            final(ctx).sounds() == old(ctx).sounds(),
            final(ctx).next_id() == old(ctx).next_id(),
    {
        ctx.stop(self.sound)
    }

    /// Sets the volume. Its sound has to be registered in `ctx`.
    pub fn set_volume(&mut self, ctx: &mut AudioContext, volume: V) -> (r: GameResult<()>)
        requires
            old(ctx).sounds().contains_key(old(self).sound().0),
        ensures
            r is Ok,
            final(self).volume_of() == volume,
            final(self).sound() == old(self).sound(),
            final(self).looped() == old(self).looped(),
            *final(ctx) == *old(ctx),
    {
        self.volume = volume;
        Ok(())
    }

    /// The volume.
    pub fn volume(&self) -> (v: V)
        ensures
            v == self.volume_of(),
    {
        self.volume
    }

    /// Sets whether the source repeats.
    pub fn set_repeat(&mut self, repeat: bool)
        ensures
            final(self).looped() == repeat,
            final(self).sound() == old(self).sound(),
            final(self).volume_of() == old(self).volume_of(),
    {
        self.looped = repeat;
    }

    /// Whether the source repeats.
    pub fn repeat(&self) -> (b: bool)
        ensures
            b == self.looped(),
    {
        self.looped
    }

    /// The sound this source plays.
    pub fn get_sound(&self) -> (s: Sound)
        ensures
            s == self.sound(),
    {
        self.sound
    }
}

/// Sounds loaded one after the other get different handles, and loading a
/// sound keeps every sound loaded before: both stay registered. `b` is `a`
/// after loading `first`, `c` is `b` after loading `second`.
pub proof fn law_loaded_sounds_are_distinct(
    a: AudioContext,
    b: AudioContext,
    c: AudioContext,
    first: Sound,
    second: Sound,
)
    requires
        a.wf(),
        first.0 == a.next_id(),
        b.sounds().contains_key(first.0),
        b.sounds().remove(first.0) == a.sounds(),
        b.next_id() == a.next_id() + 1,
        second.0 == b.next_id(),
        c.sounds().contains_key(second.0),
        c.sounds().remove(second.0) == b.sounds(),
    ensures
        first != second,
        c.sounds().contains_key(first.0),
        c.sounds().contains_key(second.0),
{
    assert(b.sounds().remove(second.0).contains_key(first.0));
}

/// Sources made one after the other play different sounds, both of which
/// stay registered: `b` is `a` after `Source::from_bytes` gave `first`, `c`
/// is `b` after it gave `second`.
pub proof fn law_sources_are_distinct<V: Copy>(
    a: AudioContext,
    b: AudioContext,
    c: AudioContext,
    first: Source<V>,
    second: Source<V>,
)
    requires
        a.wf(),
        first.sound().0 == a.next_id(),
        b.sounds().contains_key(a.next_id() as usize),
        b.sounds().remove(a.next_id() as usize) == a.sounds(),
        b.next_id() == a.next_id() + 1,
        second.sound().0 == b.next_id(),
        c.sounds().contains_key(b.next_id() as usize),
        c.sounds().remove(b.next_id() as usize) == b.sounds(),
    ensures
        first.sound() != second.sound(),
        c.sounds().contains_key(first.sound().0),
        c.sounds().contains_key(second.sound().0),
{
    law_loaded_sounds_are_distinct(a, b, c, first.sound(), second.sound());
}

} // verus!
