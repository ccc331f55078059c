//! The state an immediate-mode UI keeps between calls: focus, the window
//! being moved, the group being dragged, and the mouse as it was reported.
//!
//! What needs geometry (whether a point lies in a rectangle, where a widget
//! goes) is worked out by the caller and handed in.

use vstd::prelude::*;

use super::{drag_of, Drag, Event, Events, Id, Tree};

verus! {

/// How far a drag has come: clicked, with the mouse position and the
/// group's position at the click, or dragging, with the offset from the
/// mouse to the group.
#[derive(Clone, Copy)]
pub enum DragState<P, V> {
    Clicked(P, P),
    Dragging(V),
}

/// The slot that `insert_widget` fills next.
pub open spec fn next_slot<W>(t: Tree<W>) -> usize {
    match t.first_disposed() {
        Some(d) => d as usize,
        None => t.len() as usize,
    }
}

/// The first index from `i` on whose entry is true, if any.
pub open spec fn first_hit_from(hits: Seq<bool>, i: int) -> Option<int>
    decreases hits.len() - i,
{
    if i < 0 || i >= hits.len() {
        None
    } else if hits[i] {
        Some(i)
    } else {
        first_hit_from(hits, i + 1)
    }
}

/// The first index whose entry is true, if any.
pub open spec fn first_hit(hits: Seq<bool>) -> Option<int> {
    first_hit_from(hits, 0)
}

/// The last index below `upto` whose entry is true, if any.
pub open spec fn last_hit_before(hits: Seq<bool>, upto: int) -> Option<int>
    decreases upto,
{
    if upto <= 0 {
        None
    } else if upto - 1 < hits.len() && hits[upto - 1] {
        Some(upto - 1)
    } else {
        last_hit_before(hits, upto - 1)
    }
}

/// The UI state between calls.
pub struct Ui<W, P, V> {
    focused: Option<usize>,
    moving: Option<(usize, V)>,
    dragging: Option<(Id, DragState<P, V>)>,
    current_element: Option<usize>,
    hovered: Option<Id>,
    events: Events<P>,
    tree: Tree<W>,
    mouse_position: P,
    is_mouse_down: bool,
    click_down: bool,
    click_up: bool,
    mouse_wheel: V,
}

impl<W, P: Copy, V: Copy> Ui<W, P, V> {
    /// The focused window's element, if a window has focus.
    pub closed spec fn focused(&self) -> Option<usize> {
        self.focused
    }

    /// The window being moved by its title bar, with the offset from its
    /// corner to the mouse.
    pub closed spec fn moving(&self) -> Option<(usize, V)> {
        self.moving
    }

    /// The group being dragged.
    pub closed spec fn dragging(&self) -> Option<(Id, DragState<P, V>)> {
        self.dragging
    }

    /// The element that new widgets go below.
    pub closed spec fn current(&self) -> Option<usize> {
        self.current_element
    }

    /// The hoverable group under the mouse in this frame.
    pub closed spec fn hovered(&self) -> Option<Id> {
        self.hovered
    }

    pub closed spec fn events(&self) -> Events<P> {
        self.events
    }

    pub closed spec fn tree(&self) -> Tree<W> {
        self.tree
    }

    pub closed spec fn mouse_position(&self) -> P {
        self.mouse_position
    }

    pub closed spec fn mouse_is_down(&self) -> bool {
        self.is_mouse_down
    }

    pub closed spec fn pressed_this_frame(&self) -> bool {
        self.click_down
    }

    pub closed spec fn released_this_frame(&self) -> bool {
        self.click_up
    }

    pub closed spec fn wheel(&self) -> V {
        self.mouse_wheel
    }

    pub open spec fn wf(&self) -> bool {
        self.tree().wf()
    }

    /// New widgets can go below the current element.
    pub open spec fn current_live(&self) -> bool {
        &&& self.current() is Some
        &&& self.current()->0 < self.tree().len()
        &&& !self.tree().disposed(self.current()->0 as int)
    }

    /// `b` agrees with `a` on everything but the tree and the current element.
    pub open spec fn keeps(a: Self, b: Self) -> bool {
        &&& b.focused() == a.focused()
        &&& b.moving() == a.moving()
        &&& b.dragging() == a.dragging()
        &&& b.hovered() == a.hovered()
        &&& b.events().frame() == a.events().frame()
        &&& b.events().previous() == a.events().previous()
        &&& b.mouse_position() == a.mouse_position()
        &&& b.mouse_is_down() == a.mouse_is_down()
        &&& b.pressed_this_frame() == a.pressed_this_frame()
        &&& b.released_this_frame() == a.released_this_frame()
        &&& b.wheel() == a.wheel()
    }

    /// A UI without windows, the mouse at `origin` and not pressed.
    pub fn new(origin: P, no_wheel: V) -> (ui: Self)
        ensures
            ui.wf(),
            ui.tree().len() == 0,
            ui.tree().windows() == Seq::<usize>::empty(),
            ui.focused() is None,
            ui.moving() is None,
            ui.dragging() is None,
            ui.current() is None,
            ui.hovered() is None,
            ui.events().frame() == Seq::<Event<P>>::empty(),
            ui.events().previous() == Seq::<Event<P>>::empty(),
            ui.mouse_position() == origin,
            !ui.mouse_is_down(),
            !ui.pressed_this_frame(),
            !ui.released_this_frame(),
            ui.wheel() == no_wheel,
    {
        Ui {
            focused: None,
            moving: None,
            dragging: None,
            current_element: None,
            hovered: None,
            events: Events::new(),
            tree: Tree::new(),
            mouse_position: origin,
            is_mouse_down: false,
            click_down: false,
            click_up: false,
            mouse_wheel: no_wheel,
        }
    }

    /// Starts the window `id` of this frame (see `Tree::insert_window`);
    /// widgets go below it from now on. Returns its element.
    pub fn window(&mut self, id: Id, window: W) -> (r: usize)
        requires
            old(self).wf(),
        ensures
            final(self).wf(),
            Tree::window_inserted(old(self).tree(), final(self).tree(), id, window, r),
            final(self).current() == Some(r),
            final(self).current_live(),
            Self::keeps(*old(self), *final(self)),
    {
        let r = self.tree.insert_window(id, window);
        self.current_element = Some(r);
        r
    }

    /// Adds a widget below the current element.
    fn add_widget(&mut self, widget: W) -> (r: usize)
        requires
            old(self).wf(),
            old(self).current_live(),
        ensures
            final(self).wf(),
            r == next_slot(old(self).tree()),
            Tree::widget_inserted(old(self).tree(), final(self).tree(), old(self).current()->0, widget, r),
            final(self).current() == old(self).current(),
            Self::keeps(*old(self), *final(self)),
    {
        let parent = self.current_element.unwrap();
        let r = self.tree.insert_widget(parent, widget);
        proof {
            let pre = old(self).tree();
            let post = self.tree();
            assert(r == match pre.first_disposed() {
                Some(d) => d,
                None => pre.len() as int,
            });
            assert(post.len() == if pre.first_disposed() is Some { pre.len() } else { pre.len() + 1 });
            assert(post.widget(r as int) == widget);
            assert(post.table()[parent as int] == pre.table()[parent as int].push(r));
            assert(forall|e: int| 0 <= e < pre.len() && e != r && e != parent ==> #[trigger] post.table()[e] == pre.table()[e]);
            assert forall|e: int| 0 <= e < pre.len() && e != r implies #[trigger] post.widget(e) == pre.widget(e)
                && post.window_id(e) == pre.window_id(e) && post.disposed(e) == pre.disposed(e) by {
                assert(self.tree.widget(e) == old(self).tree.widget(e));
            }
        }
        r
    }

    /// Adds a button below the current element. Returns whether it was
    /// clicked in the previous frame.
    pub fn button(&mut self, id: Id, widget: W) -> (clicked: bool)
        requires
            old(self).wf(),
            old(self).current_live(),
        ensures
            final(self).wf(),
            Tree::widget_inserted(
                old(self).tree(),
                final(self).tree(),
                old(self).current()->0,
                widget,
                next_slot(old(self).tree()),
            ),
            final(self).current() == old(self).current(),
            Self::keeps(*old(self), *final(self)),
            clicked == exists|i: int|
                0 <= i < old(self).events().previous().len() && #[trigger] old(self).events().previous()[i]
                    == Event::<P>::ButtonClick(id),
    {
        self.add_widget(widget);
        self.events.previous_frame_button_clicked(id)
    }

    /// Adds a label below the current element.
    pub fn label(&mut self, widget: W)
        requires
            old(self).wf(),
            old(self).current_live(),
        ensures
            final(self).wf(),
            Tree::widget_inserted(
                old(self).tree(),
                final(self).tree(),
                old(self).current()->0,
                widget,
                next_slot(old(self).tree()),
            ),
            final(self).current() == old(self).current(),
            Self::keeps(*old(self), *final(self)),
    {
        self.add_widget(widget);
    }

    /// Starts a group below the current element: widgets go below the group
    /// until `end_group`. Returns the element to go back to.
    pub fn begin_group(&mut self, widget: W) -> (outer: Option<usize>)
        requires
            old(self).wf(),
            old(self).current_live(),
        ensures
            final(self).wf(),
            outer == old(self).current(),
            Tree::widget_inserted(
                old(self).tree(),
                final(self).tree(),
                old(self).current()->0,
                widget,
                next_slot(old(self).tree()),
            ),
            final(self).current() == Some(next_slot(old(self).tree())),
            Self::keeps(*old(self), *final(self)),
    {
        let outer = self.current_element;
        let r = self.add_widget(widget);
        self.current_element = Some(r);
        outer
    }

    /// Ends the group `id`: widgets go below `outer` again. Returns the drag
    /// state of the group as the previous frame left it.
    pub fn end_group(&mut self, outer: Option<usize>, id: Id) -> (d: Drag<P>)
        ensures
            final(self).current() == outer,
            final(self).tree() == old(self).tree(),
            Self::keeps(*old(self), *final(self)),
            d == drag_of(old(self).events().previous(), id),
    {
        self.current_element = outer;
        self.events.previous_frame_drag(id)
    }

    /// The mouse went down: the first window of the window list under it
    /// gets focus and moves to the front, and the last window up to that
    /// one whose title bar is under it starts moving, with its offset from
    /// `offsets`. Without a window under the mouse nothing has focus.
    /// `in_title`, `in_window` and `offsets` are given per window of the list.
    pub fn mouse_down(&mut self, in_title: &[bool], in_window: &[bool], offsets: &[V])
        requires
            old(self).wf(),
            in_title@.len() == old(self).tree().windows().len(),
            in_window@.len() == old(self).tree().windows().len(),
            offsets@.len() == old(self).tree().windows().len(),
        ensures
            final(self).wf(),
            final(self).mouse_is_down(),
            final(self).pressed_this_frame(),
            final(self).focused() == match first_hit(in_window@) {
                Some(k) => Some(old(self).tree().windows()[k]),
                None => None,
            },
            final(self).moving() == match last_hit_before(
                in_title@,
                match first_hit(in_window@) {
                    Some(k) => k + 1,
                    None => in_window@.len() as int,
                },
            ) {
                Some(j) => Some((old(self).tree().windows()[j], offsets@[j])),
                None => old(self).moving(),
            },
            match first_hit(in_window@) {
                Some(k) => {
                    &&& final(self).tree().windows() == seq![old(self).tree().windows()[k]]
                        + old(self).tree().windows().remove(k)
                    &&& final(self).tree().table() == old(self).tree().table()
                    &&& forall|f: int| 0 <= f < old(self).tree().len() ==> #[trigger] final(self).tree().widget(f)
                        == old(self).tree().widget(f) && final(self).tree().disposed(f)
                        == old(self).tree().disposed(f) && final(self).tree().window_id(f)
                        == old(self).tree().window_id(f)
                },
                None => final(self).tree() == old(self).tree(),
            },
            final(self).dragging() == old(self).dragging(),
            final(self).current() == old(self).current(),
            final(self).hovered() == old(self).hovered(),
            final(self).events() == old(self).events(),
            final(self).mouse_position() == old(self).mouse_position(),
            final(self).released_this_frame() == old(self).released_this_frame(),
            final(self).wheel() == old(self).wheel(),
    {
        self.is_mouse_down = true;
        self.click_down = true;
        let n = self.tree.window_list().len();
        let mut i: usize = 0;
        while i < n
            invariant
                self.wf(),
                self.tree == old(self).tree,
                n == self.tree.windows().len(),
                n == in_title@.len(),
                n == in_window@.len(),
                n == offsets@.len(),
                i <= n,
                self.is_mouse_down,
                self.click_down,
                first_hit(in_window@) == first_hit_from(in_window@, i as int),
                self.moving == match last_hit_before(in_title@, i as int) {
                    Some(j) => Some((old(self).tree().windows()[j], offsets@[j])),
                    None => old(self).moving(),
                },
                self.focused == old(self).focused,
                self.dragging == old(self).dragging,
                self.current_element == old(self).current_element,
                self.hovered == old(self).hovered,
                self.events == old(self).events,
                self.mouse_position == old(self).mouse_position,
                self.click_up == old(self).click_up,
                self.mouse_wheel == old(self).mouse_wheel,
            decreases n - i,
        {
            let wid = self.tree.window_list()[i];
            if in_title[i] {
                self.moving = Some((wid, offsets[i]));
            }
            if in_window[i] {
                self.focused = Some(wid);
                self.tree.raise_window(i);
                return;
            }
            i = i + 1;
        }
        self.focused = None;
    }

    /// The mouse went up: no window is moved any more.
    pub fn mouse_up(&mut self)
        ensures
            final(self).moving() is None,
            !final(self).mouse_is_down(),
            final(self).released_this_frame(),
            final(self).tree() == old(self).tree(),
            final(self).focused() == old(self).focused(),
            final(self).dragging() == old(self).dragging(),
            final(self).current() == old(self).current(),
            final(self).hovered() == old(self).hovered(),
            final(self).events() == old(self).events(),
            final(self).mouse_position() == old(self).mouse_position(),
            final(self).pressed_this_frame() == old(self).pressed_this_frame(),
            final(self).wheel() == old(self).wheel(),
    {
        self.moving = None;
        self.is_mouse_down = false;
        self.click_up = true;
    }

    /// The wheel was turned by `delta`.
    pub fn mouse_wheel(&mut self, delta: V)
        ensures
            final(self).wheel() == delta,
            final(self).tree() == old(self).tree(),
            final(self).current() == old(self).current(),
            Self::keeps_but_wheel(*old(self), *final(self)),
    {
        self.mouse_wheel = delta;
    }

    /// The mouse moved to `position`. Returns the window being moved, if
    /// any, with the offset from its corner to the mouse: its corner goes to
    /// `position` minus that offset.
    pub fn mouse_move(&mut self, position: P) -> (moved: Option<(usize, V)>)
        ensures
            moved == old(self).moving(),
            final(self).mouse_position() == position,
            final(self).tree() == old(self).tree(),
            final(self).current() == old(self).current(),
            final(self).focused() == old(self).focused(),
            final(self).moving() == old(self).moving(),
            final(self).dragging() == old(self).dragging(),
            final(self).hovered() == old(self).hovered(),
            final(self).events() == old(self).events(),
            final(self).mouse_is_down() == old(self).mouse_is_down(),
            final(self).pressed_this_frame() == old(self).pressed_this_frame(),
            final(self).released_this_frame() == old(self).released_this_frame(),
            final(self).wheel() == old(self).wheel(),
    {
        self.mouse_position = position;
        self.moving
    }

    /// Starts a frame: the events of the last one become readable.
    pub fn begin_frame(&mut self)
        ensures
            final(self).events().previous() == old(self).events().frame(),
            final(self).events().frame() == Seq::<Event<P>>::empty(),
            final(self).tree() == old(self).tree(),
            final(self).current() == old(self).current(),
            final(self).focused() == old(self).focused(),
            final(self).moving() == old(self).moving(),
            final(self).dragging() == old(self).dragging(),
            final(self).hovered() == old(self).hovered(),
            final(self).mouse_position() == old(self).mouse_position(),
            final(self).mouse_is_down() == old(self).mouse_is_down(),
            final(self).pressed_this_frame() == old(self).pressed_this_frame(),
            final(self).released_this_frame() == old(self).released_this_frame(),
            final(self).wheel() == old(self).wheel(),
    {
        self.events.next_frame();
    }

    /// `b` agrees with `a` on everything but the tree, the current element
    /// and the wheel.
    pub open spec fn keeps_but_wheel(a: Self, b: Self) -> bool {
        &&& b.focused() == a.focused()
        &&& b.moving() == a.moving()
        &&& b.dragging() == a.dragging()
        &&& b.hovered() == a.hovered()
        &&& b.events() == a.events()
        &&& b.mouse_position() == a.mouse_position()
        &&& b.mouse_is_down() == a.mouse_is_down()
        &&& b.pressed_this_frame() == a.pressed_this_frame()
        &&& b.released_this_frame() == a.released_this_frame()
    }

    /// The windows in the order they are drawn, back to front (the window
    /// list from its end), each with whether it has focus.
    pub fn draw_order(&self) -> (order: Vec<(usize, bool)>)
        ensures
            order@.len() == self.tree().windows().len(),
            forall|i: int|
                0 <= i < order@.len() ==> {
                    let w = self.tree().windows()[self.tree().windows().len() - 1 - i];
                    #[trigger] order@[i] == (w, self.focused() == Some(w))
                },
    {
        let windows = self.tree.window_list();
        let n = windows.len();
        let mut order: Vec<(usize, bool)> = Vec::new();
        let mut i: usize = 0;
        while i < n
            invariant
                n == windows@.len(),
                windows@ == self.tree().windows(),
                i <= n,
                order@.len() == i,
                forall|k: int|
                    0 <= k < i ==> {
                        let w = windows@[n - 1 - k];
                        #[trigger] order@[k] == (w, self.focused() == Some(w))
                    },
            decreases n - i,
        {
            let w = windows[n - 1 - i];
            let focused = match self.focused {
                Some(f) => f == w,
                None => false,
            };
            order.push((w, focused));
            i = i + 1;
        }
        order
    }

    /// A button was drawn in a window that has focus (`focused`) or not,
    /// under the mouse (`hovered`) or not: a click is recorded when the
    /// mouse went up over it in a focused window.
    pub fn button_drawn(&mut self, id: Id, focused: bool, hovered: bool)
        ensures
            final(self).events().frame() == if focused && hovered && old(self).released_this_frame() {
                old(self).events().frame().push(Event::ButtonClick(id))
            } else {
                old(self).events().frame()
            },
            final(self).events().previous() == old(self).events().previous(),
            final(self).tree() == old(self).tree(),
            final(self).current() == old(self).current(),
            final(self).focused() == old(self).focused(),
            final(self).moving() == old(self).moving(),
            final(self).dragging() == old(self).dragging(),
            final(self).hovered() == old(self).hovered(),
            final(self).mouse_position() == old(self).mouse_position(),
            final(self).mouse_is_down() == old(self).mouse_is_down(),
            final(self).pressed_this_frame() == old(self).pressed_this_frame(),
            final(self).released_this_frame() == old(self).released_this_frame(),
            final(self).wheel() == old(self).wheel(),
    {
        if focused && hovered && self.click_up {
            self.events.push(Event::ButtonClick(id));
        }
    }

    /// A group `id` was drawn, at `origin`, under the mouse (`under_mouse`)
    /// or not. A draggable group with children that the mouse is held down
    /// on starts a drag when nothing is dragged yet. A draggable or
    /// hoverable group under the mouse becomes the hovered one when hovering
    /// is tracked (`track_hover`). Returns whether it did.
    pub fn group_drawn(
        &mut self,
        id: Id,
        origin: P,
        has_childs: bool,
        draggable: bool,
        hoverable: bool,
        under_mouse: bool,
        track_hover: bool,
    ) -> (hovered: bool)
        ensures
            final(self).dragging() == if draggable && has_childs && old(self).dragging() is None
                && old(self).mouse_is_down() && under_mouse {
                Some((id, DragState::Clicked(old(self).mouse_position(), origin)))
            } else {
                old(self).dragging()
            },
            hovered == ((draggable || hoverable) && under_mouse && track_hover),
            final(self).hovered() == if hovered { Some(id) } else { old(self).hovered() },
            final(self).events() == old(self).events(),
            final(self).tree() == old(self).tree(),
            final(self).current() == old(self).current(),
            final(self).focused() == old(self).focused(),
            final(self).moving() == old(self).moving(),
            final(self).mouse_position() == old(self).mouse_position(),
            final(self).mouse_is_down() == old(self).mouse_is_down(),
            final(self).pressed_this_frame() == old(self).pressed_this_frame(),
            final(self).released_this_frame() == old(self).released_this_frame(),
            final(self).wheel() == old(self).wheel(),
    {
        if draggable && has_childs && self.dragging.is_none() && self.is_mouse_down && under_mouse {
            self.dragging = Some((id, DragState::Clicked(self.mouse_position, origin)));
        }
        if (draggable || hoverable) && under_mouse && track_hover {
            self.hovered = Some(id);
            true
        } else {
            false
        }
    }

    /// Ends the drawing of a frame. A clicked group that the mouse has moved
    /// away from (`moved_away`) is dragged from now on, at `drag_offset` from
    /// the mouse. A dragged group is dropped where the mouse is, over the
    /// hovered group, once the mouse is up, and is still dragged otherwise;
    /// either is recorded. Then the frame's hover, clicks and wheel are reset.
    pub fn end_draw(&mut self, moved_away: bool, drag_offset: V, no_wheel: V)
        ensures
            final(self).dragging() == match old(self).dragging() {
                Some((id, DragState::Clicked(_, _))) => if moved_away {
                    Some((id, DragState::Dragging(drag_offset)))
                } else {
                    old(self).dragging()
                },
                Some((id, DragState::Dragging(_))) => if old(self).mouse_is_down() {
                    old(self).dragging()
                } else {
                    None
                },
                None => None,
            },
            final(self).events().frame() == match old(self).dragging() {
                Some((id, DragState::Dragging(_))) => old(self).events().frame().push(
                    if old(self).mouse_is_down() {
                        Event::Dragging(id)
                    } else {
                        Event::DragDrop(id, old(self).mouse_position(), old(self).hovered())
                    },
                ),
                _ => old(self).events().frame(),
            },
            final(self).events().previous() == old(self).events().previous(),
            final(self).hovered() is None,
            !final(self).pressed_this_frame(),
            !final(self).released_this_frame(),
            final(self).wheel() == no_wheel,
            final(self).tree() == old(self).tree(),
            final(self).current() == old(self).current(),
            final(self).focused() == old(self).focused(),
            final(self).moving() == old(self).moving(),
            final(self).mouse_position() == old(self).mouse_position(),
            final(self).mouse_is_down() == old(self).mouse_is_down(),
    {
        match self.dragging {
            Some((id, DragState::Clicked(_, _))) => {
                if moved_away {
                    self.dragging = Some((id, DragState::Dragging(drag_offset)));
                }
            },
            Some((id, DragState::Dragging(_))) => {
                if self.is_mouse_down {
                    self.events.push(Event::Dragging(id));
                } else {
                    self.events.push(Event::DragDrop(id, self.mouse_position, self.hovered));
                    self.dragging = None;
                }
            },
            None => {},
        }
        self.hovered = None;
        self.click_down = false;
        self.click_up = false;
        self.mouse_wheel = no_wheel;
    }

    /// The tree of windows and widgets.
    pub fn get_tree(&self) -> (t: &Tree<W>)
        ensures
            *t == self.tree(),
    {
        &self.tree
    }

    /// The events of the frame being built and of the one before.
    pub fn get_events(&self) -> (e: &Events<P>)
        ensures
            *e == self.events(),
    {
        &self.events
    }

    /// The focused window's element.
    pub fn focused_window(&self) -> (f: Option<usize>)
        ensures
            f == self.focused(),
    {
        self.focused
    }

    /// The group being dragged.
    pub fn dragged(&self) -> (d: Option<(Id, DragState<P, V>)>)
        ensures
            d == self.dragging(),
    {
        self.dragging
    }

    /// The hovered group of this frame.
    pub fn hovered_group(&self) -> (h: Option<Id>)
        ensures
            h == self.hovered(),
    {
        self.hovered
    }

    /// Where the mouse was last reported.
    pub fn mouse_at(&self) -> (p: P)
        ensures
            p == self.mouse_position(),
    {
        self.mouse_position
    }

    /// Whether the mouse is held down.
    pub fn is_mouse_down(&self) -> (b: bool)
        ensures
            b == self.mouse_is_down(),
    {
        self.is_mouse_down
    }

    /// Whether the mouse went down in this frame.
    pub fn click_down(&self) -> (b: bool)
        ensures
            b == self.pressed_this_frame(),
    {
        self.click_down
    }

    /// Whether the mouse went up in this frame.
    pub fn click_up(&self) -> (b: bool)
        ensures
            b == self.released_this_frame(),
    {
        self.click_up
    }

    /// The wheel movement of this frame.
    pub fn wheel_delta(&self) -> (v: V)
        ensures
            v == self.wheel(),
    {
        self.mouse_wheel
    }

    /// Whether new widgets can go below the current element.
    pub fn has_live_current(&self) -> (b: bool)
        ensures
            b == self.current_live(),
    {
        match self.current_element {
            Some(e) => e < self.tree.element_count() && !self.tree.is_disposed(e),
            None => false,
        }
    }
}

/// Whether no event in `s` is a drag or drop of `id`.
pub open spec fn no_drag_of<P>(s: Seq<Event<P>>, id: Id) -> bool {
    forall|i: int|
        0 <= i < s.len() ==> match #[trigger] s[i] {
            Event::Dragging(j) => j != id,
            Event::DragDrop(j, _, _) => j != id,
            Event::ButtonClick(_) => true,
        }
}

/// After events that say nothing of the drag of `id`, the next event
/// decides.
proof fn lemma_drag_of_push<P>(s: Seq<Event<P>>, id: Id, ev: Event<P>)
    requires
        no_drag_of(s, id),
    ensures
        drag_of(s.push(ev), id) == drag_of(seq![ev], id),
    decreases s.len(),
{
    if s.len() > 0 {
        let t = s.push(ev);
        assert(t.drop_first() =~= s.drop_first().push(ev));
        assert(no_drag_of(s.drop_first(), id)) by {
            assert forall|i: int| 0 <= i < s.drop_first().len() implies match #[trigger] s.drop_first()[i] {
                Event::Dragging(j) => j != id,
                Event::DragDrop(j, _, _) => j != id,
                Event::ButtonClick(_) => true,
            } by {
                assert(s.drop_first()[i] == s[i + 1]);
            }
        }
        lemma_drag_of_push(s.drop_first(), id, ev);
        assert(match s[0] {
            Event::Dragging(j) => j != id,
            Event::DragDrop(j, _, _) => j != id,
            Event::ButtonClick(_) => true,
        });
    } else {
        assert(s.push(ev) =~= seq![ev]);
    }
}

/// A button clicked in one frame reports the click in the next: the click
/// that `button_drawn` records (`a` to `b`) is what `button` finds once
/// `begin_frame` (`b` to `c`) has started the next frame.
pub proof fn law_click_reported_next_frame<W, P: Copy, V: Copy>(
    a: Ui<W, P, V>,
    b: Ui<W, P, V>,
    c: Ui<W, P, V>,
    id: Id,
)
    requires
        a.released_this_frame(),
        b.events().frame() == a.events().frame().push(Event::ButtonClick(id)),
        c.events().previous() == b.events().frame(),
    ensures
        exists|i: int|
            0 <= i < c.events().previous().len() && #[trigger] c.events().previous()[i]
                == Event::<P>::ButtonClick(id),
{
    let i = a.events().frame().len() as int;
    assert(c.events().previous()[i] == Event::<P>::ButtonClick(id));
}

/// A focused window is at the front of the window list, so it is drawn
/// last, on top of the others: `mouse_down` (from `a` to `b`) on a window
/// gives it focus and moves it to the front.
pub proof fn law_focused_window_in_front<W, P: Copy, V: Copy>(
    a: Ui<W, P, V>,
    b: Ui<W, P, V>,
    in_window: Seq<bool>,
)
    requires
        in_window.len() == a.tree().windows().len(),
        first_hit(in_window) is Some,
        b.focused() == Some(a.tree().windows()[first_hit(in_window)->0]),
        b.tree().windows() == seq![a.tree().windows()[first_hit(in_window)->0]] + a.tree().windows().remove(
            first_hit(in_window)->0,
        ),
    ensures
        b.tree().windows().len() > 0,
        b.focused() == Some(b.tree().windows()[0]),
{
}

/// A group dragged until the mouse goes up is dropped where the mouse is,
/// over the hovered group: `end_draw` (from `a` to `b`) records the drop,
/// and in the next frame (`c`, after `begin_frame`) the group reads it,
/// provided nothing else in the frame dragged it.
pub proof fn law_drop_reported_next_frame<W, P: Copy, V: Copy>(
    a: Ui<W, P, V>,
    b: Ui<W, P, V>,
    c: Ui<W, P, V>,
    id: Id,
)
    requires
        no_drag_of(a.events().frame(), id),
        b.events().frame() == a.events().frame().push(
            Event::DragDrop(id, a.mouse_position(), a.hovered()),
        ),
        c.events().previous() == b.events().frame(),
    ensures
        drag_of(c.events().previous(), id) == Drag::Dropped(a.mouse_position(), a.hovered()),
{
    let ev = Event::DragDrop(id, a.mouse_position(), a.hovered());
    lemma_drag_of_push(a.events().frame(), id, ev);
    assert(seq![ev].drop_first().len() == 0);
}

} // verus!
