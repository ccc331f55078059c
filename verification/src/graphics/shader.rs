//! Blend modes and the blend states they stand for.

use vstd::prelude::*;

verus! {

/// An enum for specifying default and custom blend modes.
///
/// What each of them does is given by `BlendMode::blend_states`.
#[derive(Clone, Copy, Debug, PartialEq, Eq, Structural, Hash)]
pub enum BlendMode {
    /// When combining two fragments, add their values together, saturating at 1.0
    Add,
    /// When combining two fragments, subtract the source value from the destination value
    Subtract,
    /// When combining two fragments, add the value of the source times its
    /// alpha channel with the value of the destination multiplied by the inverse
    /// of the source alpha channel. Has the usual transparency effect.
    Alpha,
    /// When combining two fragments, multiply their values together (including alpha)
    Multiply,
    /// When combining two fragments, choose the source value (including source alpha)
    Replace,
    /// When using premultiplied alpha, use this.
    Premultiplied,
}

/// How source and destination are combined.
#[derive(Clone, Copy, Debug, PartialEq, Eq, Structural)]
pub enum Equation {
    Add,
    Subtract,
    ReverseSubtract,
}

/// A value that a blend factor takes from a fragment.
#[derive(Clone, Copy, Debug, PartialEq, Eq, Structural)]
pub enum BlendValue {
    SourceColor,
    SourceAlpha,
    DestinationColor,
    DestinationAlpha,
}

/// A factor that source or destination is multiplied by.
#[derive(Clone, Copy, Debug, PartialEq, Eq, Structural)]
pub enum BlendFactor {
    Zero,
    One,
    Value(BlendValue),
    OneMinusValue(BlendValue),
    SourceAlphaSaturate,
}

/// One blend equation with its source and destination factors.
#[derive(Clone, Copy, Debug, PartialEq, Eq, Structural)]
pub struct BlendState {
    pub equation: Equation,
    pub sfactor: BlendFactor,
    pub dfactor: BlendFactor,
}

/// A blend state, written out.
pub open spec fn bs(equation: Equation, sfactor: BlendFactor, dfactor: BlendFactor) -> BlendState {
    BlendState { equation, sfactor, dfactor }
}

/// The (color, alpha) blend states of each blend mode.
pub open spec fn blend_table(bm: BlendMode) -> (BlendState, BlendState) {
    let src_alpha = BlendFactor::Value(BlendValue::SourceAlpha);
    let one_minus_dst_alpha = BlendFactor::OneMinusValue(BlendValue::DestinationAlpha);
    match bm {
        BlendMode::Add => (
            bs(Equation::Add, src_alpha, BlendFactor::One),
            bs(Equation::Add, src_alpha, BlendFactor::One),
        ),
        BlendMode::Subtract => (
            bs(Equation::ReverseSubtract, src_alpha, BlendFactor::One),
            bs(Equation::Add, BlendFactor::Zero, BlendFactor::One),
        ),
        BlendMode::Alpha => (
            bs(Equation::Add, src_alpha, BlendFactor::OneMinusValue(BlendValue::SourceAlpha)),
            bs(Equation::Add, one_minus_dst_alpha, BlendFactor::One),
        ),
        BlendMode::Premultiplied => (
            bs(Equation::Add, BlendFactor::One, BlendFactor::OneMinusValue(BlendValue::SourceAlpha)),
            bs(Equation::Add, one_minus_dst_alpha, BlendFactor::One),
        ),
        BlendMode::Multiply => (
            bs(Equation::Add, BlendFactor::Value(BlendValue::DestinationColor), BlendFactor::Zero),
            bs(Equation::Add, BlendFactor::Value(BlendValue::DestinationAlpha), BlendFactor::Zero),
        ),
        BlendMode::Replace => (
            bs(Equation::Add, BlendFactor::One, BlendFactor::Zero),
            bs(Equation::Add, BlendFactor::One, BlendFactor::Zero),
        ),
    }
}

impl BlendState {
    pub fn new(equation: Equation, sfactor: BlendFactor, dfactor: BlendFactor) -> (s: BlendState)
        ensures
            s == bs(equation, sfactor, dfactor),
    {
        BlendState { equation, sfactor, dfactor }
    }
}

impl BlendMode {
    /// The (color, alpha) blend states that this mode stands for.
    pub fn blend_states(self) -> (states: (BlendState, BlendState))
        ensures
            states == blend_table(self),
    {
        match self {
            BlendMode::Add => (
                BlendState::new(
                    Equation::Add,
                    BlendFactor::Value(BlendValue::SourceAlpha),
                    BlendFactor::One,
                ),
                BlendState::new(
                    Equation::Add,
                    BlendFactor::Value(BlendValue::SourceAlpha),
                    BlendFactor::One,
                ),
            ),
            BlendMode::Subtract => (
                BlendState::new(
                    Equation::ReverseSubtract,
                    BlendFactor::Value(BlendValue::SourceAlpha),
                    BlendFactor::One,
                ),
                BlendState::new(Equation::Add, BlendFactor::Zero, BlendFactor::One),
            ),
            BlendMode::Alpha => (
                BlendState::new(
                    Equation::Add,
                    BlendFactor::Value(BlendValue::SourceAlpha),
                    BlendFactor::OneMinusValue(BlendValue::SourceAlpha),
                ),
                BlendState::new(
                    Equation::Add,
                    BlendFactor::OneMinusValue(BlendValue::DestinationAlpha),
                    BlendFactor::One,
                ),
            ),
            BlendMode::Premultiplied => (
                BlendState::new(
                    Equation::Add,
                    BlendFactor::One,
                    BlendFactor::OneMinusValue(BlendValue::SourceAlpha),
                ),
                BlendState::new(
                    Equation::Add,
                    BlendFactor::OneMinusValue(BlendValue::DestinationAlpha),
                    BlendFactor::One,
                ),
            ),
            BlendMode::Multiply => (
                BlendState::new(
                    Equation::Add,
                    BlendFactor::Value(BlendValue::DestinationColor),
                    BlendFactor::Zero,
                ),
                BlendState::new(
                    Equation::Add,
                    BlendFactor::Value(BlendValue::DestinationAlpha),
                    BlendFactor::Zero,
                ),
            ),
            BlendMode::Replace => (
                BlendState::new(Equation::Add, BlendFactor::One, BlendFactor::Zero),
                BlendState::new(Equation::Add, BlendFactor::One, BlendFactor::Zero),
            ),
        }
    }
}

/// An ID used by the graphics context to uniquely identify a shader.
pub type ShaderId = usize;

/// The id of the default shader, which is created first.
pub const DEFAULT_SHADER_ID: ShaderId = 0;

/// Keeps the shader that was in use when it was taken; releasing it makes
/// that shader current again, whatever was set in between.
#[derive(Debug)]
pub struct ShaderLock {
    previous_shader: ShaderId,
}

impl ShaderLock {
    /// The shader that releasing the lock restores.
    pub closed spec fn previous(&self) -> ShaderId {
        self.previous_shader
    }

    /// Gives up the lock: `current` goes back to the shader the lock keeps.
    pub fn release(self, current: &mut ShaderId)
        ensures
            released(self, *final(current)),
    {
        *current = self.previous_shader;
    }
}

/// Uses the shader `ps` until the returned lock is released.
pub fn use_shader(current: &mut ShaderId, ps: ShaderId) -> (lock: ShaderLock)
    ensures
        used(*old(current), ps, lock, *final(current)),
{
    let previous_shader = *current;
    set_shader(current, ps);
    ShaderLock { previous_shader }
}

/// Sets the current shader to render with.
pub fn set_shader(current: &mut ShaderId, ps: ShaderId)
    ensures
        *final(current) == ps,
{
    *current = ps;
}

/// Clears the current shader, restoring the default shader. Releasing a
/// `ShaderLock` afterwards still restores the shader it was taken over.
pub fn clear_shader(current: &mut ShaderId)
    ensures
        *final(current) == DEFAULT_SHADER_ID,
{
    *current = DEFAULT_SHADER_ID;
}

/// `use_shader(ps)` turned the current shader `before` into `after` and
/// gave `lock`.
pub open spec fn used(before: ShaderId, ps: ShaderId, lock: ShaderLock, after: ShaderId) -> bool {
    after == ps && lock.previous() == before
}

/// Releasing `lock` left `after` as the current shader.
pub open spec fn released(lock: ShaderLock, after: ShaderId) -> bool {
    after == lock.previous()
}

/// Taking a lock with `use_shader` and releasing it restores the shader that
/// was current before, whatever shaders were set or cleared in between:
/// `use_shader(ps)` on `before` gave `lock` and made `ps` current, and
/// releasing the lock, whatever shader was current by then, left `after`.
pub proof fn law_lock_restores_shader(before: ShaderId, ps: ShaderId, lock: ShaderLock, after: ShaderId)
    requires
        used(before, ps, lock, ps),
        released(lock, after),
    ensures
        after == before,
{
}

} // verus!
