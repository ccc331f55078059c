//! The Scene system is for transitioning between *completely* different
//! states that have entirely different game loops but which all share a
//! state. It operates as a stack, with new scenes getting pushed to the stack
//! (while the old ones stay in memory unchanged): a push-down automaton.
//!
//! The stack here is generic over the scene value `S`; a game keeps boxed
//! scene trait objects in it.

use vstd::prelude::*;

verus! {

/// A command to change to a new scene, either by pushing a new one,
/// popping one or replacing the current scene (pop and then push).
pub enum SceneSwitch<S> {
    NoChange,
    Push(S),
    Replace(S),
    Pop,
}

impl<S> SceneSwitch<S> {
    /// A command that replaces the current scene with `scene`.
    pub fn replace(scene: S) -> (sw: Self)
        ensures
            sw == SceneSwitch::Replace(scene),
    {
        SceneSwitch::Replace(scene)
    }

    /// A command that pushes `scene` on top of the current one.
    pub fn push(scene: S) -> (sw: Self)
        ensures
            sw == SceneSwitch::Push(scene),
    {
        SceneSwitch::Push(scene)
    }
}

/// Whether `switch` can be carried out on a stack holding `scenes`:
/// popping and replacing need a scene to take away.
pub open spec fn switch_allowed<S>(scenes: Seq<S>, switch: SceneSwitch<S>) -> bool {
    match switch {
        SceneSwitch::Pop | SceneSwitch::Replace(_) => scenes.len() > 0,
        _ => true,
    }
}

/// The stack after `switch`, and the scene it took away, if any.
pub open spec fn apply_switch<S>(scenes: Seq<S>, switch: SceneSwitch<S>) -> (Seq<S>, Option<S>) {
    match switch {
        SceneSwitch::NoChange => (scenes, None),
        SceneSwitch::Pop => (scenes.drop_last(), Some(scenes.last())),
        SceneSwitch::Push(s) => (scenes.push(s), None),
        SceneSwitch::Replace(s) => (scenes.drop_last().push(s), Some(scenes.last())),
    }
}

/// The lowest scene that is drawn, given for each scene whether it wants the
/// scene below it drawn too: walking down from the top while scenes ask for
/// the one below.
pub open spec fn lowest_drawn_spec(draw_previous: Seq<bool>, i: int) -> bool {
    &&& 0 <= i < draw_previous.len()
    &&& forall|j: int| i < j < draw_previous.len() ==> #[trigger] draw_previous[j]
    &&& !draw_previous[i]
}

/// A stack of scenes, together with a shared world object.
pub struct SceneStack<C, S> {
    pub world: C,
    scenes: Vec<S>,
}

impl<C, S> SceneStack<C, S> {
    /// The scenes, bottom first.
    pub closed spec fn scenes(&self) -> Seq<S> {
        self.scenes@
    }

    /// The shared world object.
    pub closed spec fn world_state(&self) -> C {
        self.world
    }

    /// An empty stack around `global_state`.
    pub fn new(global_state: C) -> (st: Self)
        ensures
            st.world_state() == global_state,
            st.scenes() == Seq::<S>::empty(),
    {
        SceneStack { world: global_state, scenes: Vec::new() }
    }

    /// Adds a new scene to the top of the stack.
    pub fn push(&mut self, scene: S)
        ensures
            final(self).scenes() == old(self).scenes().push(scene),
            final(self).world_state() == old(self).world_state(),
    {
        self.scenes.push(scene)
    }

    /// Removes the top scene from the stack and returns it.
    pub fn pop(&mut self) -> (s: S)
        requires
            old(self).scenes().len() > 0,
        ensures
            s == old(self).scenes().last(),
            final(self).scenes() == old(self).scenes().drop_last(),
            final(self).world_state() == old(self).world_state(),
    {
        self.scenes.pop().unwrap()
    }

    /// Returns the current (top) scene.
    pub fn current(&self) -> (s: &S)
        requires
            self.scenes().len() > 0,
        ensures
            *s == self.scenes().last(),
    {
        let n = self.scenes.len();
        &self.scenes[n - 1]
    }

    /// The number of scenes on the stack.
    pub fn len(&self) -> (n: usize)
        ensures
            n == self.scenes().len(),
    {
        self.scenes.len()
    }

    /// Executes the given command; if it is a pop or replace it returns
    /// `Some(old_scene)`, otherwise `None`.
    pub fn switch(&mut self, next_scene: SceneSwitch<S>) -> (old_scene: Option<S>)
        requires
            switch_allowed(old(self).scenes(), next_scene),
        ensures
            (final(self).scenes(), old_scene) == apply_switch(old(self).scenes(), next_scene),
            final(self).world_state() == old(self).world_state(),
    {
        match next_scene {
            SceneSwitch::NoChange => None,
            SceneSwitch::Pop => {
                let s = self.pop();
                Some(s)
            },
            SceneSwitch::Push(s) => {
                self.push(s);
                None
            },
            SceneSwitch::Replace(s) => {
                let old_scene = self.pop();
                self.push(s);
                Some(old_scene)
            },
        }
    }
}

/// The index of the lowest scene to draw: scenes are drawn from there up to
/// the top. `draw_previous[i]` says whether scene `i` wants the scene below
/// it drawn too. Some scene must not ask for that, for the bottom scene has
/// none below it.
pub fn lowest_drawn(draw_previous: &[bool]) -> (i: usize)
    requires
        exists|j: int| 0 <= j < draw_previous@.len() && !draw_previous@[j],
    ensures
        lowest_drawn_spec(draw_previous@, i as int),
{
    let mut i = draw_previous.len();
    loop
        invariant
            i <= draw_previous@.len(),
            forall|j: int| i <= j < draw_previous@.len() ==> #[trigger] draw_previous@[j],
            exists|j: int| 0 <= j < draw_previous@.len() && !draw_previous@[j],
        decreases i,
    {
        if i == 0 {
            proof {
                let j = choose|j: int| 0 <= j < draw_previous@.len() && !draw_previous@[j];
                assert(draw_previous@[j]);
            }
            return 0;
        }
        i = i - 1;
        if !draw_previous[i] {
            return i;
        }
    }
}

/// Pushing a scene and then popping gives back that scene and the stack as it was.
pub proof fn law_push_then_pop<S>(scenes: Seq<S>, scene: S)
    ensures
        apply_switch(apply_switch(scenes, SceneSwitch::Push(scene)).0, SceneSwitch::Pop)
            == (scenes, Some(scene)),
{
    assert(scenes.push(scene).drop_last() =~= scenes);
}

/// Replacing is popping and then pushing.
pub proof fn law_replace_is_pop_then_push<S>(scenes: Seq<S>, scene: S)
    requires
        scenes.len() > 0,
    ensures
        apply_switch(scenes, SceneSwitch::Replace(scene)) == (
            apply_switch(apply_switch(scenes, SceneSwitch::<S>::Pop).0, SceneSwitch::Push(scene)).0,
            apply_switch(scenes, SceneSwitch::<S>::Pop).1,
        ),
{
}

/// Old scenes stay unchanged under a push: everything below the top is kept.
pub proof fn law_push_keeps_scenes_below<S>(scenes: Seq<S>, scene: S)
    ensures
        apply_switch(scenes, SceneSwitch::Push(scene)).0.subrange(0, scenes.len() as int) == scenes,
        apply_switch(scenes, SceneSwitch::Push(scene)).0.last() == scene,
{
    assert(scenes.push(scene).subrange(0, scenes.len() as int) =~= scenes);
}

} // verus!
