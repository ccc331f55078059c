//! Key and mouse-button sets, as the input layer reports them.

use vstd::prelude::*;

use crate::seq_set::{lemma_insert_present, lemma_push_fresh, lemma_remove_absent, lemma_remove_at};

verus! {

/// A mouse button.
#[derive(Hash, Debug, Eq, PartialEq, Structural, Clone, Copy)]
pub enum MouseButton {
    Left,
    Middle,
    Right,
    Button4,
    Button5,
}

/// A mouse button as the windowing layer reports it.
#[derive(Hash, Debug, Eq, PartialEq, Structural, Clone, Copy)]
pub enum QuadMouseButton {
    Right,
    Left,
    Middle,
    Unknown,
}

/// The library's button for a button of the windowing layer: an unknown
/// button counts as the fourth button.
pub open spec fn button_of(button: QuadMouseButton) -> MouseButton {
    match button {
        QuadMouseButton::Left => MouseButton::Left,
        QuadMouseButton::Right => MouseButton::Right,
        QuadMouseButton::Middle => MouseButton::Middle,
        QuadMouseButton::Unknown => MouseButton::Button4,
    }
}

impl From<QuadMouseButton> for MouseButton {
    fn from(button: QuadMouseButton) -> (b: MouseButton) {
        match button {
            QuadMouseButton::Left => MouseButton::Left,
            QuadMouseButton::Right => MouseButton::Right,
            QuadMouseButton::Middle => MouseButton::Middle,
            QuadMouseButton::Unknown => MouseButton::Button4,
        }
    }
}

impl vstd::std_specs::convert::FromSpecImpl<QuadMouseButton> for MouseButton {
    open spec fn obeys_from_spec() -> bool {
        true
    }

    open spec fn from_spec(button: QuadMouseButton) -> MouseButton {
        button_of(button)
    }
}

/// The position of `key` in `keys`, or `keys.len()` if it is not there.
fn find_string(keys: &Vec<String>, key: &String) -> (i: usize)
    ensures
        i <= keys@.len(),
        i < keys@.len() ==> keys@[i as int]@ == key@,
        i == keys@.len() ==> forall|j: int| 0 <= j < keys@.len() ==> keys@[j]@ != key@,
{
    let mut i: usize = 0;
    while i < keys.len()
        invariant
            i <= keys@.len(),
            forall|j: int| 0 <= j < i ==> keys@[j]@ != key@,
        decreases keys@.len() - i,
    {
        if keys[i] == *key {
            return i;
        }
        i = i + 1;
    }
    i
}

/// The key names held in `keys`.
pub open spec fn names(keys: Seq<String>) -> Seq<Seq<char>> {
    keys.map_values(|k: String| k@)
}

/// The position of `button` in `buttons`, or `buttons.len()` if it is not there.
fn find_button(buttons: &Vec<MouseButton>, button: MouseButton) -> (i: usize)
    ensures
        i <= buttons@.len(),
        i < buttons@.len() ==> buttons@[i as int] == button,
        i == buttons@.len() ==> !buttons@.contains(button),
{
    let mut i: usize = 0;
    while i < buttons.len()
        invariant
            i <= buttons@.len(),
            forall|j: int| 0 <= j < i ==> buttons@[j] != button,
        decreases buttons@.len() - i,
    {
        if buttons[i] == button {
            return i;
        }
        i = i + 1;
    }
    i
}

/// Adds `key` to the set held in `keys`.
fn insert_string(keys: &mut Vec<String>, key: String)
    requires
        names(old(keys)@).no_duplicates(),
    ensures
        names(final(keys)@).no_duplicates(),
        names(final(keys)@).to_set() == names(old(keys)@).to_set().insert(key@),
{
    let i = find_string(keys, &key);
    let ghost n = names(keys@);
    if i == keys.len() {
        proof {
            assert(!n.contains(key@));
            lemma_push_fresh(n, key@);
        }
        keys.push(key);
        assert(names(keys@) =~= n.push(key@));
    } else {
        proof {
            lemma_insert_present(n, i as int);
        }
    }
}

/// Takes `key` out of the set held in `keys`.
fn remove_string(keys: &mut Vec<String>, key: &String)
    requires
        names(old(keys)@).no_duplicates(),
    ensures
        names(final(keys)@).no_duplicates(),
        names(final(keys)@).to_set() == names(old(keys)@).to_set().remove(key@),
{
    let i = find_string(keys, key);
    let ghost n = names(keys@);
    if i < keys.len() {
        proof {
            lemma_remove_at(n, i as int);
        }
        keys.remove(i);
        assert(names(keys@) =~= n.remove(i as int));
    } else {
        proof {
            lemma_remove_absent(n, key@);
        }
    }
}

/// The keys and mouse buttons that are held down, and the keys pressed
/// during the current frame.
pub struct InputHandler {
    keys: Vec<String>,
    frame_keys: Vec<String>,
    mouse_keys: Vec<MouseButton>,
}

impl InputHandler {
    /// The names of the keys held down.
    pub closed spec fn keys(&self) -> Set<Seq<char>> {
        names(self.keys@).to_set()
    }

    /// The names of the keys pressed during the current frame.
    pub closed spec fn frame_keys(&self) -> Set<Seq<char>> {
        names(self.frame_keys@).to_set()
    }

    /// The mouse buttons held down.
    pub closed spec fn mouse_keys(&self) -> Set<MouseButton> {
        self.mouse_keys@.to_set()
    }

    pub closed spec fn wf(&self) -> bool {
        &&& names(self.keys@).no_duplicates()
        &&& names(self.frame_keys@).no_duplicates()
        &&& self.mouse_keys@.no_duplicates()
    }

    /// Nothing held, nothing pressed.
    pub fn new() -> (h: InputHandler)
        ensures
            h.wf(),
            h.keys() == Set::<Seq<char>>::empty(),
            h.frame_keys() == Set::<Seq<char>>::empty(),
            h.mouse_keys() == Set::<MouseButton>::empty(),
    {
        let h = InputHandler { keys: Vec::new(), frame_keys: Vec::new(), mouse_keys: Vec::new() };
        assert(names(h.keys@).to_set() =~= Set::<Seq<char>>::empty());
        assert(names(h.frame_keys@).to_set() =~= Set::<Seq<char>>::empty());
        assert(h.mouse_keys@.to_set() =~= Set::<MouseButton>::empty());
        h
    }

    /// A key went down: it is held, and pressed in this frame.
    pub fn handle_key_down(&mut self, key: String)
        requires
            old(self).wf(),
        ensures
            final(self).wf(),
            final(self).keys() == old(self).keys().insert(key@),
            final(self).frame_keys() == old(self).frame_keys().insert(key@),
            final(self).mouse_keys() == old(self).mouse_keys(),
    {
        insert_string(&mut self.keys, key.clone());
        insert_string(&mut self.frame_keys, key);
    }

    /// The frame ended: no key counts as pressed in the next one yet.
    pub fn handle_end_frame(&mut self)
        requires
            old(self).wf(),
        ensures
            final(self).wf(),
            final(self).keys() == old(self).keys(),
            final(self).frame_keys() == Set::<Seq<char>>::empty(),
            final(self).mouse_keys() == old(self).mouse_keys(),
    {
        self.frame_keys.clear();
        assert(names(self.frame_keys@).to_set() =~= Set::<Seq<char>>::empty());
    }

    /// A key went up: it is no longer held.
    pub fn handle_key_up(&mut self, key: String)
        requires
            old(self).wf(),
        ensures
            final(self).wf(),
            final(self).keys() == old(self).keys().remove(key@),
            final(self).frame_keys() == old(self).frame_keys(),
            final(self).mouse_keys() == old(self).mouse_keys(),
    {
        remove_string(&mut self.keys, &key);
    }

    /// A mouse button went down.
    pub fn handle_mouse_down(&mut self, button: QuadMouseButton)
        requires
            old(self).wf(),
        ensures
            final(self).wf(),
            final(self).mouse_keys() == old(self).mouse_keys().insert(button_of(button)),
            final(self).keys() == old(self).keys(),
            final(self).frame_keys() == old(self).frame_keys(),
    {
        let b = MouseButton::from(button);
        let i = find_button(&self.mouse_keys, b);
        if i == self.mouse_keys.len() {
            proof {
                lemma_push_fresh(self.mouse_keys@, b);
            }
            self.mouse_keys.push(b);
        } else {
            proof {
                lemma_insert_present(self.mouse_keys@, i as int);
            }
        }
    }

    /// A mouse button went up.
    pub fn handle_mouse_up(&mut self, button: QuadMouseButton)
        requires
            old(self).wf(),
        ensures
            final(self).wf(),
            final(self).mouse_keys() == old(self).mouse_keys().remove(button_of(button)),
            final(self).keys() == old(self).keys(),
            final(self).frame_keys() == old(self).frame_keys(),
    {
        let b = MouseButton::from(button);
        let i = find_button(&self.mouse_keys, b);
        if i < self.mouse_keys.len() {
            proof {
                lemma_remove_at(self.mouse_keys@, i as int);
            }
            self.mouse_keys.remove(i);
        } else {
            proof {
                lemma_remove_absent(self.mouse_keys@, b);
            }
        }
    }

    /// Whether the key is held down.
    pub fn is_key_pressed(&self, key: &str) -> (b: bool)
        requires
            self.wf(),
        ensures
            b == self.keys().contains(key@),
    {
        let k = key.to_owned();
        let i = find_string(&self.keys, &k);
        proof {
            if i < self.keys@.len() {
                assert(names(self.keys@)[i as int] == key@);
            } else {
                assert forall|j: int| 0 <= j < names(self.keys@).len() implies names(self.keys@)[j] != key@ by {}
            }
        }
        i < self.keys.len()
    }

    /// Whether the key was pressed during the current frame.
    pub fn is_key_down(&self, key: &str) -> (b: bool)
        requires
            self.wf(),
        ensures
            b == self.frame_keys().contains(key@),
    {
        let k = key.to_owned();
        let i = find_string(&self.frame_keys, &k);
        proof {
            if i < self.frame_keys@.len() {
                assert(names(self.frame_keys@)[i as int] == key@);
            } else {
                assert forall|j: int| 0 <= j < names(self.frame_keys@).len() implies names(self.frame_keys@)[j] != key@ by {}
            }
        }
        i < self.frame_keys.len()
    }

    /// Whether the mouse button is held down.
    pub fn is_mouse_key_down(&self, key: &MouseButton) -> (b: bool)
        requires
            self.wf(),
        ensures
            b == self.mouse_keys().contains(*key),
    {
        let i = find_button(&self.mouse_keys, *key);
        i < self.mouse_keys.len()
    }
}

/// A key that goes down and up again within one frame is not held any more,
/// but still counts as pressed in that frame.
pub proof fn law_key_tap(a: InputHandler, b: InputHandler, c: InputHandler, key: Seq<char>)
    requires
        b.keys() == a.keys().insert(key),
        b.frame_keys() == a.frame_keys().insert(key),
        c.keys() == b.keys().remove(key),
        c.frame_keys() == b.frame_keys(),
    ensures
        !c.keys().contains(key),
        c.frame_keys().contains(key),
        c.keys() == a.keys().remove(key),
{
    assert(c.keys() =~= a.keys().remove(key));
}

} // verus!
