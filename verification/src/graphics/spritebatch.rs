//! Sprite batches: the sprites drawn with one image in one call, and the
//! length of their copy on the GPU.

use vstd::prelude::*;
use vstd::string::StringExecFns;

use crate::error::{GameError, GameResult};
use crate::graphics::mesh::FlushPlan;

verus! {

/// An index of a particular sprite in a `SpriteBatch`.
#[derive(Copy, Clone, Debug, PartialEq, Eq, Structural, PartialOrd, Ord, Hash)]
pub struct SpriteIdx(pub usize);

pub const SPRITE_OUT_OF_BOUNDS: &'static str = "Provided index is out of bounds.";

/// The sprites of a batch, each given by its draw parameters, and the
/// length of the GPU-side array they are copied into on every draw.
pub struct SpriteBatch<P> {
    sprites: Vec<P>,
    gpu_len: usize,
}

impl<P: Copy> SpriteBatch<P> {
    /// The sprites, in order.
    pub closed spec fn sprites(&self) -> Seq<P> {
        self.sprites@
    }

    /// The length of the GPU-side sprite array.
    pub closed spec fn gpu_len(&self) -> nat {
        self.gpu_len as nat
    }

    /// A batch without sprites.
    pub fn new() -> (b: Self)
        ensures
            b.sprites() == Seq::<P>::empty(),
            b.gpu_len() == 0,
    {
        SpriteBatch { sprites: Vec::new(), gpu_len: 0 }
    }

    /// Adds a sprite at the end and returns its handle.
    pub fn add(&mut self, param: P) -> (idx: SpriteIdx)
        ensures
            final(self).sprites() == old(self).sprites().push(param),
            idx.0 == old(self).sprites().len(),
            final(self).gpu_len() == old(self).gpu_len(),
    {
        self.sprites.push(param);
        SpriteIdx(self.sprites.len() - 1)
    }

    /// Replaces the sprite `handle`; an error if there is no such sprite.
    pub fn set(&mut self, handle: SpriteIdx, param: P) -> (r: GameResult<()>)
        ensures
            final(self).gpu_len() == old(self).gpu_len(),
            handle.0 < old(self).sprites().len() ==> {
                &&& r is Ok
                &&& final(self).sprites() == old(self).sprites().update(handle.0 as int, param)
            },
            handle.0 >= old(self).sprites().len() ==> {
                &&& r matches Err(GameError::RenderError(m)) && m@ == SPRITE_OUT_OF_BOUNDS@
                &&& final(self).sprites() == old(self).sprites()
            },
    {
        if handle.0 < self.sprites.len() {
            self.sprites.set(handle.0, param);
            Ok(())
        } else {
            Err(GameError::RenderError(SPRITE_OUT_OF_BOUNDS.to_owned()))
        }
    }

    /// The sprites.
    pub fn get_sprites(&self) -> (s: &[P])
        ensures
            s@ == self.sprites(),
    {
        self.sprites.as_slice()
    }

    /// The sprites, to be changed in place. Nothing more is needed for the
    /// change to show: every draw copies all sprites to the GPU again (see
    /// `prepare_draw`).
    pub fn get_sprites_mut(&mut self) -> (s: &mut [P])
        ensures
            s@ == old(self).sprites(),
            final(self).sprites() == final(s)@,
            final(self).gpu_len() == old(self).gpu_len(),
    {
        self.sprites.as_mut_slice()
    }

    /// The number of sprites, which is how many instances a draw renders.
    pub fn len(&self) -> (n: usize)
        ensures
            n == self.sprites().len(),
    {
        self.sprites.len()
    }

    /// Removes all sprites.
    pub fn clear(&mut self)
        ensures
            final(self).sprites() == Seq::<P>::empty(),
            final(self).gpu_len() == old(self).gpu_len(),
    {
        self.sprites.clear();
    }

    /// The image was replaced: its GPU array starts out empty.
    pub fn reset_gpu(&mut self)
        ensures
            final(self).sprites() == old(self).sprites(),
            final(self).gpu_len() == 0,
    {
        self.gpu_len = 0;
    }

    /// Prepares a draw, which copies every sprite, changed or not, to the GPU
    /// array from its first position on: the plan always covers all sprites,
    /// after a new array of the batch's length if the old one is too short.
    pub fn prepare_draw(&mut self) -> (plan: FlushPlan)
        ensures
            plan == (FlushPlan {
                new_buffer: old(self).sprites().len() > old(self).gpu_len(),
                start: 0,
                end: old(self).sprites().len() as usize,
            }),
            final(self).sprites() == old(self).sprites(),
            final(self).gpu_len() == if plan.new_buffer {
                old(self).sprites().len()
            } else {
                old(self).gpu_len()
            },
            final(self).gpu_len() >= final(self).sprites().len(),
    {
        let n = self.sprites.len();
        let new_buffer = n > self.gpu_len;
        if new_buffer {
            self.gpu_len = n;
        }
        FlushPlan { new_buffer, start: 0, end: n }
    }
}

} // verus!
