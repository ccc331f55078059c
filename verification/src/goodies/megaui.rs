//! An immediate-mode UI: its color scheme, the tree of windows and
//! widgets, and the events a frame leaves for the next.

pub mod ui;

use vstd::prelude::*;

verus! {

pub const INACTIVE_TITLE: &'static str = "#6668";
pub const FOCUSED_TITLE: &'static str = "#000f";
pub const FOCUSED_TEXT: &'static str = "000f";
pub const INACTIVE_TEXT: &'static str = "#6668";
pub const WINDOW_BACKGROUND_FOCUSED: &'static str = "#eeef";
pub const WINDOW_BACKGROUND_INACTIVE: &'static str = "#eee8";
pub const WINDOW_BORDER_FOCUSED: &'static str = "#444f";
pub const WINDOW_BORDER_INACTIVE: &'static str = "#6668";
pub const GROUP_BORDER_FOCUSED_HOVERED: &'static str = "#2924";
pub const GROUP_BORDER_FOCUSED: &'static str = "#2224";
pub const GROUP_BORDER_FOCUSED_HIGHLIGHT: &'static str = "#22e7";
pub const GROUP_BORDER_INACTIVE_HOVERED: &'static str = "#1812";
pub const GROUP_BORDER_INACTIVE: &'static str = "#1112";
pub const BUTTON_BACKGROUND_FOCUSED_CLICKED: &'static str = "#bbbe";
pub const BUTTON_BACKGROUND_FOCUSED_HOVERED: &'static str = "#aaae";
pub const BUTTON_BACKGROUND_FOCUSED: &'static str = "#ccce";
pub const BUTTON_BACKGROUND_INACTIVE: &'static str = "#ccc8";
pub const SCROLLBAR_BACKGROUND_FOCUSED_CLICKED: &'static str = "#aaae";
pub const SCROLLBAR_BACKGROUND_FOCUSED_HOVERED: &'static str = "#aaae";
pub const SCROLLBAR_BACKGROUND_FOCUSED: &'static str = "#ccce";
pub const SCROLLBAR_BACKGROUND_INACTIVE: &'static str = "#ccc8";

/// The background color of a window.
pub fn background(focused: bool) -> (c: &'static str)
    ensures
        c == if focused { WINDOW_BACKGROUND_FOCUSED } else { WINDOW_BACKGROUND_INACTIVE },
{
    if focused {
        WINDOW_BACKGROUND_FOCUSED
    } else {
        WINDOW_BACKGROUND_INACTIVE
    }
}

/// The border color of a window.
pub fn window_border(focused: bool) -> (c: &'static str)
    ensures
        c == if focused { WINDOW_BORDER_FOCUSED } else { WINDOW_BORDER_INACTIVE },
{
    if focused {
        WINDOW_BORDER_FOCUSED
    } else {
        WINDOW_BORDER_INACTIVE
    }
}

/// The border color of a draggable group: hovering wins over highlighting,
/// and an unfocused group is never shown highlighted.
pub fn drag_border(focused: bool, hovered: bool, highlight: bool) -> (c: &'static str)
    ensures
        c == if focused {
            if hovered {
                GROUP_BORDER_FOCUSED_HOVERED
            } else if highlight {
                GROUP_BORDER_FOCUSED_HIGHLIGHT
            } else {
                GROUP_BORDER_FOCUSED
            }
        } else if hovered {
            GROUP_BORDER_INACTIVE_HOVERED
        } else {
            GROUP_BORDER_INACTIVE
        },
{
    if focused {
        if hovered {
            GROUP_BORDER_FOCUSED_HOVERED
        } else {
            if highlight {
                GROUP_BORDER_FOCUSED_HIGHLIGHT
            } else {
                GROUP_BORDER_FOCUSED
            }
        }
    } else {
        if hovered {
            GROUP_BORDER_INACTIVE_HOVERED
        } else {
            GROUP_BORDER_INACTIVE
        }
    }
}

/// The color of a window title.
pub fn title(focused: bool) -> (c: &'static str)
    ensures
        c == if focused { FOCUSED_TITLE } else { INACTIVE_TITLE },
{
    if focused {
        FOCUSED_TITLE
    } else {
        INACTIVE_TITLE
    }
}

/// The color of a label.
pub fn text(focused: bool) -> (c: &'static str)
    ensures
        c == if focused { FOCUSED_TEXT } else { INACTIVE_TEXT },
{
    if focused {
        FOCUSED_TEXT
    } else {
        INACTIVE_TEXT
    }
}

/// The background color of a button: a click wins over hovering, and an
/// unfocused button has one color whatever the mouse does.
pub fn button_background(focused: bool, hovered: bool, clicked: bool) -> (c: &'static str)
    ensures
        c == if focused {
            if clicked {
                BUTTON_BACKGROUND_FOCUSED_CLICKED
            } else if hovered {
                BUTTON_BACKGROUND_FOCUSED_HOVERED
            } else {
                BUTTON_BACKGROUND_FOCUSED
            }
        } else {
            BUTTON_BACKGROUND_INACTIVE
        },
{
    if focused {
        if clicked {
            BUTTON_BACKGROUND_FOCUSED_CLICKED
        } else if hovered {
            BUTTON_BACKGROUND_FOCUSED_HOVERED
        } else {
            BUTTON_BACKGROUND_FOCUSED
        }
    } else {
        BUTTON_BACKGROUND_INACTIVE
    }
}

/// The color of a scroll bar handle, chosen as for a button.
pub fn scroll_bar_handle(focused: bool, hovered: bool, clicked: bool) -> (c: &'static str)
    ensures
        c == if focused {
            if clicked {
                SCROLLBAR_BACKGROUND_FOCUSED_CLICKED
            } else if hovered {
                SCROLLBAR_BACKGROUND_FOCUSED_HOVERED
            } else {
                SCROLLBAR_BACKGROUND_FOCUSED
            }
        } else {
            SCROLLBAR_BACKGROUND_INACTIVE
        },
{
    if focused {
        if clicked {
            SCROLLBAR_BACKGROUND_FOCUSED_CLICKED
        } else if hovered {
            SCROLLBAR_BACKGROUND_FOCUSED_HOVERED
        } else {
            SCROLLBAR_BACKGROUND_FOCUSED
        }
    } else {
        SCROLLBAR_BACKGROUND_INACTIVE
    }
}

} // verus!

verus! {

/// An id that a window or widget is known by across frames.
pub type Id = u64;

/// Whether `e` can be reached from `x` by following child links at most
/// `fuel` times.
pub open spec fn reaches(tbl: Seq<Seq<usize>>, x: int, e: int, fuel: nat) -> bool
    decreases fuel,
{
    fuel > 0 && 0 <= x < tbl.len() && exists|i: int|
        0 <= i < tbl[x].len() && (tbl[x][i] == e || reaches(tbl, tbl[x][i] as int, e, (fuel - 1) as nat))
}

/// Child links point at existing elements, and every child carries a larger
/// stamp than its parent; all stamps are below `next`.
pub open spec fn ordered(tbl: Seq<Seq<usize>>, stamps: Seq<nat>, next: nat) -> bool {
    &&& stamps.len() == tbl.len()
    &&& forall|e: int| 0 <= e < tbl.len() ==> #[trigger] stamps[e] < next
    &&& forall|e: int, i: int|
        0 <= e < tbl.len() && 0 <= i < tbl[e].len() ==> {
            &&& (#[trigger] tbl[e][i]) < tbl.len()
            &&& stamps[tbl[e][i] as int] > stamps[e]
        }
}

/// Every list of `t` is the one of `t0` or empty.
pub open spec fn pruned(t: Seq<Seq<usize>>, t0: Seq<Seq<usize>>) -> bool {
    &&& t.len() == t0.len()
    &&& forall|e: int| 0 <= e < t.len() ==> #[trigger] t[e] == t0[e] || t[e].len() == 0
}

proof fn lemma_reaches_stamp(tbl: Seq<Seq<usize>>, stamps: Seq<nat>, next: nat, x: int, e: int, f: nat)
    requires
        ordered(tbl, stamps, next),
        reaches(tbl, x, e, f),
    ensures
        0 <= e < tbl.len(),
        stamps[e] > stamps[x],
    decreases f,
{
    let i = choose|i: int|
        0 <= i < tbl[x].len() && (tbl[x][i] == e || reaches(tbl, tbl[x][i] as int, e, (f - 1) as nat));
    let y = tbl[x][i] as int;
    assert(stamps[y] > stamps[x] && y < tbl.len());
    if y != e {
        lemma_reaches_stamp(tbl, stamps, next, y, e, (f - 1) as nat);
    }
}

proof fn lemma_reaches_fuel(tbl: Seq<Seq<usize>>, stamps: Seq<nat>, next: nat, x: int, e: int, f: nat, g: nat)
    requires
        ordered(tbl, stamps, next),
        reaches(tbl, x, e, f),
        g >= next - stamps[x],
    ensures
        reaches(tbl, x, e, g),
    decreases f,
{
    let i = choose|i: int|
        0 <= i < tbl[x].len() && (tbl[x][i] == e || reaches(tbl, tbl[x][i] as int, e, (f - 1) as nat));
    let y = tbl[x][i] as int;
    assert(stamps[x] < next);
    if y != e {
        assert(stamps[y] > stamps[x]);
        lemma_reaches_fuel(tbl, stamps, next, y, e, (f - 1) as nat, (g - 1) as nat);
    }
}

proof fn lemma_reaches_trans(tbl: Seq<Seq<usize>>, x: int, y: int, z: int, f1: nat, f2: nat)
    requires
        reaches(tbl, x, y, f1),
        reaches(tbl, y, z, f2),
    ensures
        reaches(tbl, x, z, f1 + f2),
    decreases f1,
{
    let i = choose|i: int|
        0 <= i < tbl[x].len() && (tbl[x][i] == y || reaches(tbl, tbl[x][i] as int, y, (f1 - 1) as nat));
    let w = tbl[x][i] as int;
    if w == y {
        // one step to y, then the path from y
        lemma_reaches_mono(tbl, y, z, f2, (f1 + f2 - 1) as nat);
    } else {
        lemma_reaches_trans(tbl, w, y, z, (f1 - 1) as nat, f2);
    }
}

proof fn lemma_reaches_mono(tbl: Seq<Seq<usize>>, x: int, e: int, f: nat, g: nat)
    requires
        reaches(tbl, x, e, f),
        g >= f,
    ensures
        reaches(tbl, x, e, g),
    decreases f,
{
    let i = choose|i: int|
        0 <= i < tbl[x].len() && (tbl[x][i] == e || reaches(tbl, tbl[x][i] as int, e, (f - 1) as nat));
    if tbl[x][i] != e {
        lemma_reaches_mono(tbl, tbl[x][i] as int, e, (f - 1) as nat, (g - 1) as nat);
    }
}

/// Whatever is reached is the child of some element.
proof fn lemma_reaches_child(tbl: Seq<Seq<usize>>, x: int, e: int, f: nat)
    requires
        reaches(tbl, x, e, f),
    ensures
        exists|y: int, i: int| 0 <= y < tbl.len() && 0 <= i < tbl[y].len() && #[trigger] tbl[y][i] == e,
    decreases f,
{
    let i = choose|i: int|
        0 <= i < tbl[x].len() && (tbl[x][i] == e || reaches(tbl, tbl[x][i] as int, e, (f - 1) as nat));
    if tbl[x][i] != e {
        lemma_reaches_child(tbl, tbl[x][i] as int, e, (f - 1) as nat);
    }
}

/// Paths in a pruned table are paths in the table it was pruned from.
proof fn lemma_reaches_pruned(t: Seq<Seq<usize>>, t0: Seq<Seq<usize>>, x: int, e: int, f: nat)
    requires
        pruned(t, t0),
        reaches(t, x, e, f),
    ensures
        reaches(t0, x, e, f),
    decreases f,
{
    let i = choose|i: int|
        0 <= i < t[x].len() && (t[x][i] == e || reaches(t, t[x][i] as int, e, (f - 1) as nat));
    assert(t[x] == t0[x]);
    if t[x][i] != e {
        lemma_reaches_pruned(t, t0, t[x][i] as int, e, (f - 1) as nat);
    }
}

/// A path of `t0` from a node outside the pruned set `s` either survives in
/// `t` or runs into `s`, whose descendants all lie in `s` too.
proof fn lemma_reaches_survives(
    t: Seq<Seq<usize>>,
    t0: Seq<Seq<usize>>,
    s: Set<int>,
    stamps: Seq<nat>,
    next: nat,
    x: int,
    e: int,
    f: nat,
)
    requires
        ordered(t0, stamps, next),
        t.len() == t0.len(),
        forall|y: int| 0 <= y < t.len() && !s.contains(y) ==> #[trigger] t[y] == t0[y],
        forall|y: int, z: int| s.contains(y) && #[trigger] reaches(t0, y, z, next) ==> s.contains(z),
        !s.contains(x),
        reaches(t0, x, e, f),
    ensures
        reaches(t, x, e, f) || s.contains(e),
    decreases f,
{
    let i = choose|i: int|
        0 <= i < t0[x].len() && (t0[x][i] == e || reaches(t0, t0[x][i] as int, e, (f - 1) as nat));
    let y = t0[x][i] as int;
    assert(t[x] == t0[x]);
    if y == e {
        assert(reaches(t, x, e, f));
    } else if s.contains(y) {
        lemma_reaches_stamp(t0, stamps, next, y, e, (f - 1) as nat);
        lemma_reaches_fuel(t0, stamps, next, y, e, (f - 1) as nat, next);
        assert(s.contains(e));
    } else {
        lemma_reaches_survives(t, t0, s, stamps, next, y, e, (f - 1) as nat);
        if !s.contains(e) {
            assert(reaches(t, y, e, (f - 1) as nat));
            assert(reaches(t, x, e, f));
        }
    }
}

} // verus!

verus! {

/// A node of the widget tree.
pub struct TreeElement<W> {
    widget: W,
    /// The id of the window this element is, if it is one.
    window_id: Option<Id>,
    disposed: bool,
    childs: Vec<usize>,
}

/// The widget tree of a UI: windows at the roots, widgets below them.
/// Slots of disposed widgets are reused.
pub struct Tree<W> {
    elements: Vec<TreeElement<W>>,
    windows: Vec<usize>,
    /// Insertion stamps: a child is always newer than its parent.
    stamps: Ghost<Seq<nat>>,
    next: Ghost<nat>,
}

impl<W> Tree<W> {
    /// The child lists of all elements.
    pub closed spec fn table(&self) -> Seq<Seq<usize>> {
        self.elements@.map_values(|el: TreeElement<W>| el.childs@)
    }

    pub closed spec fn widget(&self, e: int) -> W {
        self.elements@[e].widget
    }

    pub closed spec fn window_id(&self, e: int) -> Option<Id> {
        self.elements@[e].window_id
    }

    pub closed spec fn disposed(&self, e: int) -> bool {
        self.elements@[e].disposed
    }

    /// The windows, in insertion order.
    pub closed spec fn windows(&self) -> Seq<usize> {
        self.windows@
    }

    pub closed spec fn stamps(&self) -> Seq<nat> {
        self.stamps@
    }

    pub closed spec fn next_stamp(&self) -> nat {
        self.next@
    }

    /// The number of elements.
    pub open spec fn len(&self) -> nat {
        self.table().len()
    }

    /// Whether `e` lies below `x` in the tree.
    pub open spec fn below(&self, x: int, e: int) -> bool {
        reaches(self.table(), x, e, self.next_stamp())
    }

    pub closed spec fn wf(&self) -> bool {
        &&& ordered(self.table(), self.stamps(), self.next_stamp())
        &&& forall|e: int| 0 <= e < self.len() && #[trigger] self.disposed(e) ==> self.table()[e].len() == 0
        &&& forall|i: int| 0 <= i < self.windows@.len() ==> (#[trigger] self.windows@[i]) < self.len()
        &&& self.windows_live()
    }

    /// Windows are never disposed, and no window is the child of anything.
    pub closed spec fn windows_live(&self) -> bool {
        &&& forall|e: int| 0 <= e < self.len() && (#[trigger] self.window_id(e)) is Some ==> !self.disposed(e)
        &&& forall|x: int, i: int|
            0 <= x < self.len() && 0 <= i < self.table()[x].len() ==> self.window_id(
                #[trigger] self.table()[x][i] as int,
            ) is None
    }

    /// An empty tree.
    pub fn new() -> (t: Tree<W>)
        ensures
            t.wf(),
            t.len() == 0,
            t.windows() == Seq::<usize>::empty(),
    {
        let t = Tree { elements: Vec::new(), windows: Vec::new(), stamps: Ghost(Seq::empty()), next: Ghost(0) };
        assert(t.table() =~= Seq::<Seq<usize>>::empty());
        t
    }

    /// Disposes of everything below `id`: every element below it is marked
    /// disposed and loses its children, and `id` loses its children too.
    fn dispose_childs(&mut self, id: usize)
        requires
            ordered(old(self).table(), old(self).stamps(), old(self).next_stamp()),
            id < old(self).len(),
        ensures
            final(self).len() == old(self).len(),
            final(self).stamps() == old(self).stamps(),
            final(self).next_stamp() == old(self).next_stamp(),
            final(self).windows() == old(self).windows(),
            forall|e: int| 0 <= e < old(self).len() ==> #[trigger] final(self).widget(e) == old(self).widget(e)
                && final(self).window_id(e) == old(self).window_id(e),
            final(self).table()[id as int].len() == 0,
            forall|e: int| 0 <= e < old(self).len() && e != id ==> #[trigger] final(self).table()[e] == if old(self).below(id as int, e) {
                Seq::<usize>::empty()
            } else {
                old(self).table()[e]
            },
            forall|e: int| 0 <= e < old(self).len() ==> #[trigger] final(self).disposed(e) == (old(self).disposed(e) || old(self).below(id as int, e)),
        decreases old(self).next_stamp() - old(self).stamps()[id as int],
    {
        let ghost t0 = self.table();
        let ghost stamps = self.stamps@;
        let ghost next = self.next@;
        let ghost old_elems = self.elements@;
        let n = self.elements[id].childs.len();
        let ghost cs = t0[id as int];
        assert(cs == self.elements@[id as int].childs@);
        let mut i: usize = 0;
        while i < n
            invariant
                0 <= i <= n,
                n == cs.len(),
                cs == t0[id as int],
                ordered(t0, stamps, next),
                id < t0.len(),
                self.elements@.len() == t0.len(),
                self.stamps@ == stamps,
                self.next@ == next,
                self.windows@ == old(self).windows@,
                t0 == old(self).table(),
                old_elems == old(self).elements@,
                stamps == old(self).stamps(),
                next == old(self).next_stamp(),
                forall|e: int| 0 <= e < t0.len() ==> #[trigger] self.elements@[e].widget == old_elems[e].widget
                    && self.elements@[e].window_id == old_elems[e].window_id,
                self.table()[id as int] == cs,
                forall|e: int| 0 <= e < t0.len() && e != id ==> #[trigger] self.table()[e] == if swept(t0, cs, i as int, next, e) {
                    Seq::<usize>::empty()
                } else {
                    t0[e]
                },
                forall|e: int| 0 <= e < t0.len() ==> #[trigger] self.elements@[e].disposed == (old_elems[e].disposed || swept(t0, cs, i as int, next, e)),
            decreases n - i,
        {
            let ghost t = self.table();
            let ghost si = Set::new(|y: int| swept(t0, cs, i as int, next, y));
            proof {
                assert(t[id as int] == self.elements@[id as int].childs@);
                lemma_swept_pruned(t, t0, cs, i as int, next, id as int);
                lemma_ordered_pruned(t, t0, stamps, next);
            }
            let child = self.elements[id].childs[i];
            proof {
                assert(child == cs[i as int]);
                assert(child < t0.len());
                assert(stamps[child as int] > stamps[id as int]);
            }
            let ghost el0 = self.elements@;
            self.elements[child].disposed = true;
            let ghost el1 = self.elements@;
            let ghost tree1 = *self;
            proof {
                assert(self.table() =~= t);
                assert(forall|e: int| 0 <= e < t0.len() ==> el1[e].disposed == (e == child || el0[e].disposed));
            }
            self.dispose_childs(child);
            let ghost t1 = self.table();
            let ghost el2 = self.elements@;
            let ghost tree2 = *self;
            self.elements[child].childs.clear();
            proof {
                let el3 = self.elements@;
                assert forall|e: int| 0 <= e < t0.len() implies #[trigger] el3[e].widget == old_elems[e].widget
                    && el3[e].window_id == old_elems[e].window_id
                    && el3[e].disposed == (el1[e].disposed || reaches(t, child as int, e, next)) by {
                    assert(tree2.widget(e) == tree1.widget(e));
                    assert(tree2.disposed(e) == (tree1.disposed(e) || tree1.below(child as int, e)));
                    assert(tree1.table() == t);
                }
                let t2 = self.table();
                assert(t2 =~= t1.update(child as int, Seq::<usize>::empty()));
                lemma_swept_closed(t0, cs, i as int, stamps, next);
                assert forall|y: int, z: int| si.contains(y) && #[trigger] reaches(t0, y, z, next) implies si.contains(z) by {
                    assert(swept(t0, cs, i as int, next, y));
                }
                assert forall|y: int| 0 <= y < t.len() && !si.contains(y) implies #[trigger] t[y] == t0[y] by {
                    assert(!swept(t0, cs, i as int, next, y));
                }
                assert forall|e: int| 0 <= e < t0.len() && e != child implies
                    (reaches(t, child as int, e, next) || swept(t0, cs, i as int, next, e))
                    == (swept(t0, cs, i as int, next, e) || reaches(t0, child as int, e, next)) by {
                    if reaches(t, child as int, e, next) {
                        lemma_reaches_pruned(t, t0, child as int, e, next);
                    }
                    if reaches(t0, child as int, e, next) && !swept(t0, cs, i as int, next, e) {
                        if si.contains(child as int) {
                            assert(si.contains(e));
                        } else {
                            lemma_reaches_survives(t, t0, si, stamps, next, child as int, e, next);
                        }
                    }
                }
                assert forall|e: int| 0 <= e < t0.len() implies #[trigger] swept(t0, cs, i + 1, next, e)
                    == (swept(t0, cs, i as int, next, e) || e == child || reaches(t0, child as int, e, next)) by {
                    if swept(t0, cs, i + 1, next, e) {
                        let j = choose|j: int| 0 <= j < i + 1 && (cs[j] == e || reaches(t0, cs[j] as int, e, next));
                        if j < i {
                            assert(cs[j] == e || reaches(t0, cs[j] as int, e, next));
                            assert(swept(t0, cs, i as int, next, e));
                        }
                    }
                    if swept(t0, cs, i as int, next, e) {
                        let j = choose|j: int| 0 <= j < i && (cs[j] == e || reaches(t0, cs[j] as int, e, next));
                        assert(0 <= j < i + 1);
                    }
                    if e == child || reaches(t0, child as int, e, next) {
                        assert(cs[i as int] == child);
                        assert(cs[i as int] == e || reaches(t0, cs[i as int] as int, e, next));
                    }
                }
                if reaches(t, child as int, id as int, next) {
                    lemma_reaches_stamp(t, stamps, next, child as int, id as int, next);
                }
                assert(t2[id as int] == cs);
                assert forall|e: int| 0 <= e < t0.len() implies #[trigger] el3[e].disposed
                    == (old_elems[e].disposed || swept(t0, cs, i + 1, next, e)) by {
                    assert(el3[e].widget == old_elems[e].widget);
                    assert(el3[e].disposed == (el1[e].disposed || reaches(t, child as int, e, next)));
                    assert(el1[e].disposed == (e == child || el0[e].disposed));
                    assert(el0[e].disposed == (old_elems[e].disposed || swept(t0, cs, i as int, next, e)));
                    assert(swept(t0, cs, i + 1, next, e) == (swept(t0, cs, i as int, next, e) || e == child || reaches(t0, child as int, e, next)));
                    if e != child {
                        assert((reaches(t, child as int, e, next) || swept(t0, cs, i as int, next, e))
                            == (swept(t0, cs, i as int, next, e) || reaches(t0, child as int, e, next)));
                    }
                }
            }
            i = i + 1;
        }
        let ghost t = self.table();
        self.elements[id].childs.clear();
        proof {
            assert(self.table() =~= t.update(id as int, Seq::<usize>::empty()));
            assert forall|e: int| 0 <= e < t0.len() implies #[trigger] swept(t0, cs, n as int, next, e)
                == reaches(t0, id as int, e, next) by {
                lemma_unfold_below(t0, stamps, next, id as int, e);
            }
        }
    }
}

impl<W> Tree<W> {
    /// The first element that is the window `id`, if any.
    pub open spec fn window_index(&self, id: Id) -> Option<int> {
        if exists|e: int| 0 <= e < self.len() && #[trigger] self.window_id(e) == Some(id) {
            Some(choose|e: int| {
                &&& 0 <= e < self.len()
                &&& #[trigger] self.window_id(e) == Some(id)
                &&& forall|f: int| 0 <= f < e ==> #[trigger] self.window_id(f) != Some(id)
            })
        } else {
            None
        }
    }

    /// The first disposed element, if any.
    pub open spec fn first_disposed(&self) -> Option<int> {
        if exists|e: int| 0 <= e < self.len() && #[trigger] self.disposed(e) {
            Some(choose|e: int| {
                &&& 0 <= e < self.len()
                &&& #[trigger] self.disposed(e)
                &&& forall|f: int| 0 <= f < e ==> !#[trigger] self.disposed(f)
            })
        } else {
            None
        }
    }

    /// `post` is `pre` after `insert_window(id, window)` returned `r`.
    pub open spec fn window_inserted(pre: Self, post: Self, id: Id, window: W, r: usize) -> bool {
        &&& post.next_stamp() >= pre.next_stamp()
        &&& post.window_id(r as int) == Some(id)
        &&& !post.disposed(r as int)
        &&& r < post.len()
        &&& match pre.window_index(id) {
            Some(k) => {
                &&& r == k
                &&& post.len() == pre.len()
                &&& post.windows() == pre.windows()
                &&& post.table()[k] == Seq::<usize>::empty()
                &&& forall|e: int| 0 <= e < pre.len() && e != k ==> #[trigger] post.table()[e]
                    == if pre.below(k, e) { Seq::<usize>::empty() } else { pre.table()[e] }
                &&& forall|e: int| 0 <= e < pre.len() ==> #[trigger] post.disposed(e)
                    == (pre.disposed(e) || pre.below(k, e))
                &&& forall|e: int| 0 <= e < pre.len() ==> #[trigger] post.widget(e) == pre.widget(e)
                    && post.window_id(e) == pre.window_id(e)
            },
            None => {
                &&& r == pre.len()
                &&& post.len() == pre.len() + 1
                &&& post.windows() == pre.windows().push(r)
                &&& post.widget(r as int) == window
                &&& post.window_id(r as int) == Some(id)
                &&& !post.disposed(r as int)
                &&& post.table() == pre.table().push(Seq::<usize>::empty())
                &&& forall|e: int| 0 <= e < pre.len() ==> #[trigger] post.widget(e) == pre.widget(e)
                    && post.window_id(e) == pre.window_id(e)
                    && post.disposed(e) == pre.disposed(e)
            },
        }
    }

    /// Inserts the window `id`: if it is in the tree already, everything
    /// below it is disposed of (its contents are rebuilt each frame) and its
    /// element is kept as it is; otherwise `window` is added as a new root.
    /// Returns the window's element.
    #[verifier::spinoff_prover]
    #[verifier::rlimit(30)]
    pub fn insert_window(&mut self, id: Id, window: W) -> (r: usize)
        requires
            old(self).wf(),
        ensures
            final(self).wf(),
            final(self).next_stamp() >= old(self).next_stamp(),
            final(self).window_id(r as int) == Some(id),
            !final(self).disposed(r as int),
            r < final(self).len(),
            match old(self).window_index(id) {
                Some(k) => {
                    &&& r == k
                    &&& final(self).len() == old(self).len()
                    &&& final(self).windows() == old(self).windows()
                    &&& final(self).table()[k] == Seq::<usize>::empty()
                    &&& forall|e: int| 0 <= e < old(self).len() && e != k ==> #[trigger] final(self).table()[e]
                        == if old(self).below(k, e) { Seq::<usize>::empty() } else { old(self).table()[e] }
                    &&& forall|e: int| 0 <= e < old(self).len() ==> #[trigger] final(self).disposed(e)
                        == (old(self).disposed(e) || old(self).below(k, e))
                    &&& forall|e: int| 0 <= e < old(self).len() ==> #[trigger] final(self).widget(e) == old(self).widget(e)
                        && final(self).window_id(e) == old(self).window_id(e)
                },
                None => {
                    &&& r == old(self).len()
                    &&& final(self).len() == old(self).len() + 1
                    &&& final(self).windows() == old(self).windows().push(r)
                    &&& final(self).widget(r as int) == window
                    &&& final(self).window_id(r as int) == Some(id)
                    &&& !final(self).disposed(r as int)
                    &&& final(self).table() == old(self).table().push(Seq::<usize>::empty())
                    &&& forall|e: int| 0 <= e < old(self).len() ==> #[trigger] final(self).widget(e) == old(self).widget(e)
                        && final(self).window_id(e) == old(self).window_id(e)
                        && final(self).disposed(e) == old(self).disposed(e)
                },
            },
    {
        let mut k: usize = 0;
        while k < self.elements.len()
            invariant
                *self == *old(self),
                self.wf(),
                k <= self.len(),
                forall|f: int| 0 <= f < k ==> #[trigger] self.window_id(f) != Some(id),
            decreases self.len() - k,
        {
            let found = match self.elements[k].window_id {
                Some(w) => w == id,
                None => false,
            };
            if found {
                proof {
                    assert(self.window_id(k as int) == Some(id));
                    let c = self.window_index(id)->0;
                    if c < k {
                    } else if c > k {
                    }
                }
                self.dispose_childs(k);
                proof {
                    let k0 = k as int;
                    assert forall|e: int| 0 <= e < self.len() && #[trigger] self.disposed(e) implies self.table()[e].len() == 0 by {
                        if e != k0 {
                            if old(self).below(k0, e) {
                            } else {
                                assert(old(self).disposed(e));
                            }
                        }
                    }
                    lemma_ordered_pruned(self.table(), old(self).table(), self.stamps(), self.next_stamp());
                    Self::lemma_windows_live_after_dispose(*old(self), *self, k0);
                    assert(self.widget(k0) == old(self).widget(k0));
                    assert(self.window_id(k0) == Some(id));
                    assert(!self.disposed(k0));
                }
                return k;
            }
            k = k + 1;
        }
        let ghost t0 = self.table();
        let idx = self.elements.len();
        self.elements.push(TreeElement { widget: window, window_id: Some(id), disposed: false, childs: Vec::new() });
        self.windows.push(idx);
        let ghost st = self.stamps@.push(self.next@);
        let ghost nx = self.next@ + 1;
        self.stamps = Ghost(st);
        self.next = Ghost(nx);
        proof {
            let t = self.table();
            assert(t =~= t0.push(Seq::<usize>::empty()));
            let s0 = old(self).stamps();
            assert forall|e: int| 0 <= e < t.len() implies #[trigger] self.stamps()[e] < self.next_stamp() by {
                if e < t0.len() {
                    assert(s0[e] < old(self).next_stamp());
                }
            }
            assert forall|e: int, i: int| 0 <= e < t.len() && 0 <= i < t[e].len() implies {
                &&& (#[trigger] t[e][i]) < t.len()
                &&& self.stamps()[t[e][i] as int] > self.stamps()[e]
            } by {
                assert(e < t0.len());
                assert(t[e] == t0[e]);
                assert(t0[e][i] < t0.len());
                assert(s0[t0[e][i] as int] > s0[e]);
            }
            assert forall|e: int| 0 <= e < self.len() && #[trigger] self.disposed(e) implies self.table()[e].len() == 0 by {
                if e < t0.len() {
                    assert(old(self).disposed(e));
                }
            }
            assert forall|i: int| 0 <= i < self.windows@.len() implies (#[trigger] self.windows@[i]) < self.len() by {
                if i < old(self).windows@.len() {
                    assert(old(self).windows@[i] < old(self).len());
                }
            }
            assert forall|e: int| 0 <= e < self.len() && (#[trigger] self.window_id(e)) is Some implies !self.disposed(e) by {
                if e < t0.len() {
                    assert(old(self).window_id(e) is Some);
                }
            }
            assert forall|x: int, i: int|
                0 <= x < self.len() && 0 <= i < self.table()[x].len() implies self.window_id(
                    #[trigger] self.table()[x][i] as int,
                ) is None by {
                assert(x < t0.len());
                assert(t[x] == t0[x]);
                let c = t0[x][i] as int;
                assert(old(self).window_id(c) is None);
            }
        }
        idx
    }

    /// The first disposed element, if any.
    fn alloc_in_disposed(&self) -> (r: Option<usize>)
        ensures
            r matches Some(d) ==> self.first_disposed() == Some(d as int) && d < self.len() && self.disposed(d as int),
            r is None ==> self.first_disposed() is None,
    {
        let mut i: usize = 0;
        while i < self.elements.len()
            invariant
                self.elements@.len() == self.len(),
                i <= self.len(),
                forall|f: int| 0 <= f < i ==> !#[trigger] self.disposed(f),
            decreases self.len() - i,
        {
            if self.elements[i].disposed {
                proof {
                    assert(self.disposed(i as int));
                    let c = self.first_disposed()->0;
                }
                return Some(i);
            }
            i = i + 1;
        }
        None
    }

    /// `post` is `pre` after `insert_widget(parent, widget)` returned `r`.
    pub open spec fn widget_inserted(pre: Self, post: Self, parent: usize, widget: W, r: usize) -> bool {
        &&& r == match pre.first_disposed() {
            Some(d) => d,
            None => pre.len() as int,
        }
        &&& post.len() == if pre.first_disposed() is Some { pre.len() } else { pre.len() + 1 }
        &&& post.widget(r as int) == widget
        &&& post.window_id(r as int) is None
        &&& !post.disposed(r as int)
        &&& post.table()[r as int] == Seq::<usize>::empty()
        &&& post.table()[parent as int] == pre.table()[parent as int].push(r)
        &&& post.windows() == pre.windows()
        &&& forall|e: int| 0 <= e < pre.len() && e != r && e != parent ==> #[trigger] post.table()[e] == pre.table()[e]
        &&& forall|e: int| 0 <= e < pre.len() && e != r ==> #[trigger] post.widget(e) == pre.widget(e)
            && post.window_id(e) == pre.window_id(e)
            && post.disposed(e) == pre.disposed(e)
    }

    /// Adds `widget` below `parent`, in the first disposed slot if there is
    /// one and at the end otherwise. Returns its element.
    #[verifier::spinoff_prover]
    #[verifier::rlimit(30)]
    pub fn insert_widget(&mut self, parent: usize, widget: W) -> (r: usize)
        requires
            old(self).wf(),
            parent < old(self).len(),
            !old(self).disposed(parent as int),
        ensures
            final(self).wf(),
            r == match old(self).first_disposed() {
                Some(d) => d,
                None => old(self).len() as int,
            },
            final(self).len() == if old(self).first_disposed() is Some { old(self).len() } else { old(self).len() + 1 },
            final(self).widget(r as int) == widget,
            final(self).window_id(r as int) is None,
            !final(self).disposed(r as int),
            final(self).table()[r as int] == Seq::<usize>::empty(),
            final(self).table()[parent as int] == old(self).table()[parent as int].push(r),
            final(self).windows() == old(self).windows(),
            forall|e: int| 0 <= e < old(self).len() && e != r && e != parent ==> #[trigger] final(self).table()[e] == old(self).table()[e],
            forall|e: int| 0 <= e < old(self).len() && e != r ==> #[trigger] final(self).widget(e) == old(self).widget(e)
                && final(self).window_id(e) == old(self).window_id(e)
                && final(self).disposed(e) == old(self).disposed(e),
    {
        let ghost t0 = self.table();
        let slot = self.alloc_in_disposed();
        let id = match slot {
            Some(d) => {
                assert(self.disposed(d as int));
                self.elements[d].widget = widget;
                self.elements[d].window_id = None;
                self.elements[d].disposed = false;
                let ghost st = self.stamps@.update(d as int, self.next@);
                self.stamps = Ghost(st);
                proof {
                    assert(self.table() =~= t0);
                    lemma_ordered_restamp(t0, old(self).stamps(), old(self).next_stamp(), d as int);
                }
                d
            },
            None => {
                self.elements.push(TreeElement { widget, window_id: None, disposed: false, childs: Vec::new() });
                let ghost st = self.stamps@.push(self.next@);
                self.stamps = Ghost(st);
                proof {
                    assert(self.table() =~= t0.push(Seq::<usize>::empty()));
                    lemma_ordered_grow(t0, old(self).stamps(), old(self).next_stamp());
                }
                self.elements.len() - 1
            },
        };
        let ghost nx = self.next@ + 1;
        self.next = Ghost(nx);
        let ghost t1 = self.table();
        self.elements[parent].childs.push(id);
        proof {
            let t = self.table();
            assert(t =~= t1.update(parent as int, t1[parent as int].push(id)));
            assert(id != parent);
            assert(self.stamps()[parent as int] == old(self).stamps()[parent as int]);
            lemma_ordered_adopt(t1, self.stamps(), self.next_stamp(), parent as int, id);
            assert forall|e: int| 0 <= e < self.len() && #[trigger] self.disposed(e) implies self.table()[e].len() == 0 by {
                if e < t0.len() && e != id {
                    assert(old(self).disposed(e));
                }
            }
            assert forall|i: int| 0 <= i < self.windows@.len() implies (#[trigger] self.windows@[i]) < self.len() by {
                assert(old(self).windows@[i] < old(self).len());
            }
            Self::lemma_live_after_adopt(*old(self), *self, parent, id);
        }
        id
    }
}

impl<W> Tree<W> {
    /// The number of elements.
    pub fn element_count(&self) -> (n: usize)
        ensures
            n == self.len(),
    {
        self.elements.len()
    }

    /// The windows, in drawing order from the back.
    pub fn window_list(&self) -> (w: &[usize])
        ensures
            w@ == self.windows(),
    {
        self.windows.as_slice()
    }

    /// The children of element `e`.
    pub fn childs(&self, e: usize) -> (c: &[usize])
        requires
            e < self.len(),
        ensures
            c@ == self.table()[e as int],
    {
        self.elements[e].childs.as_slice()
    }

    /// The widget of element `e`.
    pub fn get_widget(&self, e: usize) -> (w: &W)
        requires
            e < self.len(),
        ensures
            *w == self.widget(e as int),
    {
        &self.elements[e].widget
    }

    /// Whether element `e` is disposed.
    pub fn is_disposed(&self, e: usize) -> (b: bool)
        requires
            e < self.len(),
        ensures
            b == self.disposed(e as int),
    {
        self.elements[e].disposed
    }

    /// Replaces the widget of element `e`, returning the old one; nothing
    /// else changes.
    pub fn replace_widget(&mut self, e: usize, widget: W) -> (w: W)
        requires
            old(self).wf(),
            e < old(self).len(),
        ensures
            final(self).wf(),
            w == old(self).widget(e as int),
            final(self).widget(e as int) == widget,
            final(self).len() == old(self).len(),
            final(self).table() == old(self).table(),
            final(self).windows() == old(self).windows(),
            forall|f: int| 0 <= f < old(self).len() ==> #[trigger] final(self).disposed(f) == old(self).disposed(f)
                && final(self).window_id(f) == old(self).window_id(f),
            forall|f: int| 0 <= f < old(self).len() && f != e ==> #[trigger] final(self).widget(f) == old(self).widget(f),
    {
        let ghost t0 = self.table();
        let mut w = widget;
        std::mem::swap(&mut self.elements[e].widget, &mut w);
        proof {
            assert(self.table() =~= t0);
            Self::lemma_wf_frame(*old(self), *self);
        }
        w
    }

    /// Moves window `n` of the window list to the front (it gets drawn last,
    /// on top).
    pub fn raise_window(&mut self, n: usize)
        requires
            old(self).wf(),
            n < old(self).windows().len(),
        ensures
            final(self).wf(),
            final(self).windows() == seq![old(self).windows()[n as int]] + old(self).windows().remove(n as int),
            final(self).table() == old(self).table(),
            forall|f: int| 0 <= f < old(self).len() ==> #[trigger] final(self).widget(f) == old(self).widget(f)
                && final(self).disposed(f) == old(self).disposed(f)
                && final(self).window_id(f) == old(self).window_id(f),
    {
        let w = self.windows.remove(n);
        self.windows.insert(0, w);
        proof {
            assert(self.windows@ =~= seq![old(self).windows()[n as int]] + old(self).windows().remove(n as int));
            assert forall|i: int| 0 <= i < self.windows@.len() implies (#[trigger] self.windows@[i]) < self.len() by {
                if i == 0 {
                    assert(old(self).windows@[n as int] < old(self).len());
                } else if i - 1 < n {
                    assert(old(self).windows@[i - 1] < old(self).len());
                } else {
                    assert(old(self).windows@[i] < old(self).len());
                }
            }
            Self::lemma_wf_frame(*old(self), *self);
        }
    }

    /// Well-formedness only looks at the links, stamps, disposal marks and
    /// the window list.
    /// A window is never disposed of: whatever frames rebuild, the element
    /// of a window stays alive (widgets can always go below it).
    pub proof fn law_windows_stay_alive(t: Self, e: int)
        requires
            t.wf(),
            0 <= e < t.len(),
            t.window_id(e) is Some,
        ensures
            !t.disposed(e),
    {
    }

    /// Adding a fresh non-window element `r` below `parent` leaves every
    /// window alive.
    proof fn lemma_live_after_adopt(pre: Self, post: Self, parent: usize, r: usize)
        requires
            pre.wf(),
            parent < pre.len(),
            pre.len() <= post.len() <= pre.len() + 1,
            post.len() > pre.len() ==> r == pre.len(),
            r < post.len(),
            r != parent,
            post.window_id(r as int) is None,
            post.table()[r as int].len() == 0,
            post.table()[parent as int] == pre.table()[parent as int].push(r),
            forall|x: int| 0 <= x < post.len() && x != parent && x != r ==> #[trigger] post.table()[x] == pre.table()[x],
            forall|e: int| 0 <= e < post.len() && e != r ==> e < pre.len() && #[trigger] post.window_id(e)
                == pre.window_id(e) && post.disposed(e) == pre.disposed(e),
        ensures
            post.windows_live(),
    {
        assert forall|e: int| 0 <= e < post.len() && (#[trigger] post.window_id(e)) is Some implies !post.disposed(e) by {
            assert(pre.window_id(e) is Some);
        }
        assert forall|x: int, i: int|
            0 <= x < post.len() && 0 <= i < post.table()[x].len() implies post.window_id(
                #[trigger] post.table()[x][i] as int,
            ) is None by {
            let c = post.table()[x][i];
            if c != r {
                assert(x != r);
                assert(x < pre.len());
                if x == parent {
                    assert(i < pre.table()[x].len());
                }
                assert(c == pre.table()[x][i]);
                assert(pre.window_id(pre.table()[x][i] as int) is None);
                assert(c < pre.len());
                assert(post.window_id(c as int) == pre.window_id(c as int));
            }
        }
    }

    /// Disposing of what lies below `k` leaves every window alive.
    proof fn lemma_windows_live_after_dispose(a: Self, b: Self, k: int)
        requires
            a.wf(),
            0 <= k < a.len(),
            b.len() == a.len(),
            b.table()[k].len() == 0,
            forall|e: int| 0 <= e < a.len() && e != k ==> #[trigger] b.table()[e] == if a.below(k, e) {
                Seq::<usize>::empty()
            } else {
                a.table()[e]
            },
            forall|e: int| 0 <= e < a.len() ==> #[trigger] b.disposed(e) == (a.disposed(e) || a.below(k, e)),
            forall|e: int| 0 <= e < a.len() ==> #[trigger] b.widget(e) == a.widget(e) && b.window_id(e)
                == a.window_id(e),
        ensures
            b.windows_live(),
    {
        let t0 = a.table();
        assert forall|e: int| 0 <= e < b.len() && (#[trigger] b.window_id(e)) is Some implies !b.disposed(e) by {
            assert(b.widget(e) == a.widget(e));
            assert(a.window_id(e) is Some);
            assert(!a.disposed(e));
            if a.below(k, e) {
                lemma_reaches_child(t0, k, e, a.next_stamp());
                let (y, i) = choose|y: int, i: int| 0 <= y < t0.len() && 0 <= i < t0[y].len() && #[trigger] t0[y][i] == e;
                assert(a.window_id(t0[y][i] as int) is None);
            }
        }
        assert forall|x: int, i: int|
            0 <= x < b.len() && 0 <= i < b.table()[x].len() implies b.window_id(
                #[trigger] b.table()[x][i] as int,
            ) is None by {
            if x != k {
                assert(b.table()[x] == t0[x]);
            }
            let c = t0[x][i] as int;
            assert(a.window_id(c) is None);
            assert(c < t0.len());
            assert(b.widget(c) == a.widget(c));
        }
    }

    proof fn lemma_wf_frame(a: Self, b: Self)
        requires
            a.wf(),
            b.table() == a.table(),
            b.stamps() == a.stamps(),
            b.next_stamp() == a.next_stamp(),
            forall|f: int| 0 <= f < a.len() ==> #[trigger] b.disposed(f) == a.disposed(f)
                && b.window_id(f) == a.window_id(f),
            forall|i: int| 0 <= i < b.windows().len() ==> (#[trigger] b.windows()[i]) < b.len(),
        ensures
            b.wf(),
    {
        assert forall|e: int| 0 <= e < b.len() && (#[trigger] b.window_id(e)) is Some implies !b.disposed(e) by {
            assert(b.disposed(e) == a.disposed(e));
            assert(a.window_id(e) is Some);
        }
        assert forall|x: int, i: int|
            0 <= x < b.len() && 0 <= i < b.table()[x].len() implies b.window_id(
                #[trigger] b.table()[x][i] as int,
            ) is None by {
            let c = a.table()[x][i] as int;
            assert(c < a.len());
            assert(b.disposed(c) == a.disposed(c));
            assert(a.window_id(c) is None);
        }
        assert forall|e: int| 0 <= e < b.len() && #[trigger] b.disposed(e) implies b.table()[e].len() == 0 by {
            assert(a.disposed(e));
        }
        assert forall|i: int| 0 <= i < b.windows@.len() implies (#[trigger] b.windows@[i]) < b.len() by {
            assert(b.windows()[i] < b.len());
        }
    }
}

/// A childless element may take a fresh stamp.
proof fn lemma_ordered_restamp(t: Seq<Seq<usize>>, s: Seq<nat>, n: nat, d: int)
    requires
        ordered(t, s, n),
        0 <= d < t.len(),
        t[d].len() == 0,
    ensures
        ordered(t, s.update(d, n), n + 1),
{
    let s1 = s.update(d, n);
    assert forall|e: int| 0 <= e < t.len() implies #[trigger] s1[e] < n + 1 by {
        if e != d {
            assert(s[e] < n);
        }
    }
    assert forall|e: int, i: int| 0 <= e < t.len() && 0 <= i < t[e].len() implies {
        &&& (#[trigger] t[e][i]) < t.len()
        &&& s1[t[e][i] as int] > s1[e]
    } by {
        assert(e != d);
        assert(t[e][i] < t.len() && s[t[e][i] as int] > s[e]);
        assert(s[t[e][i] as int] < n);
    }
}

/// A new childless element with a fresh stamp keeps the table ordered.
proof fn lemma_ordered_grow(t: Seq<Seq<usize>>, s: Seq<nat>, n: nat)
    requires
        ordered(t, s, n),
    ensures
        ordered(t.push(Seq::<usize>::empty()), s.push(n), n + 1),
{
    let t1 = t.push(Seq::<usize>::empty());
    let s1 = s.push(n);
    assert forall|e: int| 0 <= e < t1.len() implies #[trigger] s1[e] < n + 1 by {
        if e < t.len() {
            assert(s[e] < n);
        }
    }
    assert forall|e: int, i: int| 0 <= e < t1.len() && 0 <= i < t1[e].len() implies {
        &&& (#[trigger] t1[e][i]) < t1.len()
        &&& s1[t1[e][i] as int] > s1[e]
    } by {
        assert(e < t.len());
        assert(t1[e] == t[e]);
        assert(t[e][i] < t.len() && s[t[e][i] as int] > s[e]);
    }
}

/// Giving `p` the newer element `c` as its last child keeps the table ordered.
proof fn lemma_ordered_adopt(t: Seq<Seq<usize>>, s: Seq<nat>, n: nat, p: int, c: usize)
    requires
        ordered(t, s, n),
        0 <= p < t.len(),
        c < t.len(),
        s[c as int] > s[p],
    ensures
        ordered(t.update(p, t[p].push(c)), s, n),
{
    let t1 = t.update(p, t[p].push(c));
    assert forall|e: int| 0 <= e < t1.len() implies #[trigger] s[e] < n by {
        assert(s[e] < n);
    }
    assert forall|e: int, i: int| 0 <= e < t1.len() && 0 <= i < t1[e].len() implies {
        &&& (#[trigger] t1[e][i]) < t1.len()
        &&& s[t1[e][i] as int] > s[e]
    } by {
        if e == p && i == t[p].len() {
            assert(t1[e][i] == c);
        } else {
            assert(t1[e][i] == t[e][i]);
            assert(t[e][i] < t.len() && s[t[e][i] as int] > s[e]);
        }
    }
}

/// Some child among the first `i` of `cs` is `e` or lies above it.
pub open spec fn swept(t0: Seq<Seq<usize>>, cs: Seq<usize>, i: int, next: nat, e: int) -> bool {
    exists|j: int| #![trigger cs[j]] 0 <= j < i && (cs[j] == e || reaches(t0, cs[j] as int, e, next))
}

/// Ordering survives pruning.
proof fn lemma_ordered_pruned(t: Seq<Seq<usize>>, t0: Seq<Seq<usize>>, stamps: Seq<nat>, next: nat)
    requires
        pruned(t, t0),
        ordered(t0, stamps, next),
    ensures
        ordered(t, stamps, next),
{
    assert forall|e: int, i: int| 0 <= e < t.len() && 0 <= i < t[e].len() implies {
        &&& (#[trigger] t[e][i]) < t.len()
        &&& stamps[t[e][i] as int] > stamps[e]
    } by {
        assert(t[e] == t0[e] || t[e].len() == 0);
    }
}

/// The table in the middle of sweeping is a pruning of the one the sweep started from.
proof fn lemma_swept_pruned(t: Seq<Seq<usize>>, t0: Seq<Seq<usize>>, cs: Seq<usize>, i: int, next: nat, id: int)
    requires
        t.len() == t0.len(),
        0 <= id < t.len(),
        t[id] == t0[id],
        forall|e: int| 0 <= e < t0.len() && e != id ==> #[trigger] t[e] == if swept(t0, cs, i, next, e) {
            Seq::<usize>::empty()
        } else {
            t0[e]
        },
    ensures
        pruned(t, t0),
        forall|y: int| 0 <= y < t.len() && !swept(t0, cs, i, next, y) ==> #[trigger] t[y] == t0[y],
{
}

/// Everything below a swept element is swept too.
proof fn lemma_swept_closed(t0: Seq<Seq<usize>>, cs: Seq<usize>, i: int, stamps: Seq<nat>, next: nat)
    requires
        ordered(t0, stamps, next),
        forall|j: int| 0 <= j < cs.len() ==> (#[trigger] cs[j]) < t0.len(),
        i <= cs.len(),
    ensures
        forall|y: int, z: int| #[trigger] swept(t0, cs, i, next, y)
            && #[trigger] reaches(t0, y, z, next) ==> swept(t0, cs, i, next, z),
{
    assert forall|y: int, z: int| #[trigger] swept(t0, cs, i, next, y) && #[trigger] reaches(t0, y, z, next)
        implies swept(t0, cs, i, next, z) by {
        let j = choose|j: int| 0 <= j < i && (cs[j] == y || reaches(t0, cs[j] as int, y, next));
        if cs[j] == y {
        } else {
            lemma_reaches_trans(t0, cs[j] as int, y, z, next, next);
            lemma_reaches_fuel(t0, stamps, next, cs[j] as int, z, next + next, next);
        }
    }
}

/// Below `x` lies exactly what is one of its children or below one.
proof fn lemma_unfold_below(t0: Seq<Seq<usize>>, stamps: Seq<nat>, next: nat, x: int, e: int)
    requires
        ordered(t0, stamps, next),
        0 <= x < t0.len(),
    ensures
        swept(t0, t0[x], t0[x].len() as int, next, e) == reaches(t0, x, e, next),
{
    let cs = t0[x];
    assert(stamps[x] < next);
    if reaches(t0, x, e, next) {
        let k = choose|k: int| 0 <= k < cs.len() && (cs[k] == e || reaches(t0, cs[k] as int, e, (next - 1) as nat));
        if cs[k] != e {
            lemma_reaches_mono(t0, cs[k] as int, e, (next - 1) as nat, next);
        }
        assert(cs[k] == e || reaches(t0, cs[k] as int, e, next));
        assert(swept(t0, cs, cs.len() as int, next, e));
    }
    if swept(t0, cs, cs.len() as int, next, e) {
        let j = choose|j: int| 0 <= j < cs.len() && (cs[j] == e || reaches(t0, cs[j] as int, e, next));
        assert(stamps[cs[j] as int] > stamps[x]);
        if cs[j] != e {
            lemma_reaches_fuel(t0, stamps, next, cs[j] as int, e, next, (next - 1) as nat);
        }
        assert(reaches(t0, x, e, next));
    }
}

} // verus!

verus! {

/// What the UI records during a frame, to be answered in the next one.
#[derive(Clone, Copy)]
pub enum Event<P> {
    ButtonClick(Id),
    Dragging(Id),
    /// The dragged widget, where it was dropped, and the widget under it.
    DragDrop(Id, P, Option<Id>),
}

/// The drag state of a widget as the previous frame left it.
#[derive(Clone, Copy)]
pub enum Drag<P> {
    No,
    Dragging,
    Dropped(P, Option<Id>),
}

/// What the first drag event of `id` in `s` says, if any.
pub open spec fn drag_of<P>(s: Seq<Event<P>>, id: Id) -> Drag<P>
    decreases s.len(),
{
    if s.len() == 0 {
        Drag::No
    } else {
        match s[0] {
            Event::DragDrop(i, pos, hovered) if i == id => Drag::Dropped(pos, hovered),
            Event::Dragging(i) if i == id => Drag::Dragging,
            _ => drag_of(s.drop_first(), id),
        }
    }
}

/// The events of the frame being built and those of the frame before it.
pub struct Events<P> {
    frame_events: Vec<Event<P>>,
    previous_frame_events: Vec<Event<P>>,
}

impl<P: Copy> Events<P> {
    pub closed spec fn frame(&self) -> Seq<Event<P>> {
        self.frame_events@
    }

    pub closed spec fn previous(&self) -> Seq<Event<P>> {
        self.previous_frame_events@
    }

    pub fn new() -> (e: Events<P>)
        ensures
            e.frame() == Seq::<Event<P>>::empty(),
            e.previous() == Seq::<Event<P>>::empty(),
    {
        Events { frame_events: Vec::new(), previous_frame_events: Vec::new() }
    }

    /// Records an event of the current frame.
    pub fn push(&mut self, event: Event<P>)
        ensures
            final(self).frame() == old(self).frame().push(event),
            final(self).previous() == old(self).previous(),
    {
        self.frame_events.push(event)
    }

    /// Ends a frame: its events become the previous frame's, and the new
    /// frame starts with none.
    pub fn next_frame(&mut self)
        ensures
            final(self).previous() == old(self).frame(),
            final(self).frame() == Seq::<Event<P>>::empty(),
    {
        self.previous_frame_events.clear();
        self.previous_frame_events.append(&mut self.frame_events);
    }

    /// Whether the button `button_id` was clicked in the previous frame.
    pub fn previous_frame_button_clicked(&self, button_id: Id) -> (b: bool)
        ensures
            b == exists|i: int|
                0 <= i < self.previous().len() && #[trigger] self.previous()[i]
                    == Event::<P>::ButtonClick(button_id),
    {
        let n = self.previous_frame_events.len();
        let mut i: usize = 0;
        while i < n
            invariant
                n == self.previous().len(),
                i <= n,
                forall|j: int|
                    0 <= j < i ==> #[trigger] self.previous()[j] != Event::<P>::ButtonClick(
                        button_id,
                    ),
            decreases n - i,
        {
            match &self.previous_frame_events[i] {
                Event::ButtonClick(id) => {
                    if *id == button_id {
                        return true;
                    }
                },
                _ => {},
            }
            i = i + 1;
        }
        false
    }

    /// The drag state of `drag_id`: the first drop or drag event of it in
    /// the previous frame decides.
    pub fn previous_frame_drag(&self, drag_id: Id) -> (d: Drag<P>)
        ensures
            d == drag_of(self.previous(), drag_id),
    {
        let n = self.previous_frame_events.len();
        let mut i: usize = 0;
        assert(self.previous().subrange(0, n as int) =~= self.previous());
        while i < n
            invariant
                n == self.previous().len(),
                i <= n,
                drag_of(self.previous(), drag_id) == drag_of(
                    self.previous().subrange(i as int, n as int),
                    drag_id,
                ),
            decreases n - i,
        {
            let ghost rest = self.previous().subrange(i as int, n as int);
            assert(rest.drop_first() =~= self.previous().subrange(i + 1, n as int));
            match &self.previous_frame_events[i] {
                Event::DragDrop(id, pos, hovered_id) => {
                    if drag_id == *id {
                        return Drag::Dropped(*pos, *hovered_id);
                    }
                },
                Event::Dragging(id) => {
                    if drag_id == *id {
                        return Drag::Dragging;
                    }
                },
                _ => {},
            }
            i = i + 1;
        }
        assert(self.previous().subrange(n as int, n as int).len() == 0);
        Drag::No
    }
}

} // verus!
