use good_web_game::goodies::megaui::ui::{DragState, Ui};
use good_web_game::goodies::megaui::Drag;

type Point = (i32, i32);
type Vector = (i32, i32);

fn new_ui() -> Ui<&'static str, Point, Vector> {
    Ui::new((0, 0), (0, 0))
}

#[test]
fn a_frame_builds_windows_and_widgets() {
    let mut ui = new_ui();
    ui.begin_frame();
    assert!(!ui.has_live_current());
    let w = ui.window(1, "window 1");
    assert_eq!(w, 0);
    assert!(ui.has_live_current());
    assert!(!ui.button(10, "button"));
    ui.label("label");
    let outer = ui.begin_group("group");
    assert_eq!(outer, Some(0));
    ui.label("inside");
    assert!(matches!(ui.end_group(outer, 20), Drag::No));
    assert_eq!(ui.get_tree().childs(0), &[1, 2, 3]);
    assert_eq!(ui.get_tree().childs(3), &[4]);
    ui.end_draw(false, (0, 0), (0, 0));

    // the next frame rebuilds the window in the same slots
    ui.begin_frame();
    assert_eq!(ui.window(1, "window 1"), 0);
    assert!(!ui.button(10, "button"));
    assert_eq!(ui.get_tree().childs(0), &[1]);
    assert_eq!(ui.get_tree().element_count(), 5);
}

#[test]
fn clicking_a_window_focuses_it_and_brings_it_to_front() {
    let mut ui = new_ui();
    ui.window(1, "one");
    ui.window(2, "two");
    ui.window(3, "three");
    assert_eq!(ui.get_tree().window_list(), &[0, 1, 2]);
    // the mouse is in the title bar of window 1 and inside windows 1 and 2
    ui.mouse_down(&[false, true, false], &[false, true, true], &[(0, 0), (4, 5), (0, 0)]);
    assert!(ui.is_mouse_down());
    assert!(ui.click_down());
    assert_eq!(ui.focused_window(), Some(1));
    assert_eq!(ui.get_tree().window_list(), &[1, 0, 2]);
    // drawn back to front: the focused window last
    assert_eq!(ui.draw_order(), vec![(2, false), (0, false), (1, true)]);
    // moving the mouse drags the window by its title
    assert_eq!(ui.mouse_move((50, 60)), Some((1, (4, 5))));
    assert_eq!(ui.mouse_at(), (50, 60));
    ui.mouse_up();
    assert!(!ui.is_mouse_down());
    assert!(ui.click_up());
    assert_eq!(ui.mouse_move((70, 80)), None);
}

#[test]
fn clicking_outside_every_window_clears_focus() {
    let mut ui = new_ui();
    ui.window(1, "one");
    ui.mouse_down(&[false], &[true], &[(0, 0)]);
    assert_eq!(ui.focused_window(), Some(0));
    ui.mouse_down(&[false], &[false], &[(0, 0)]);
    assert_eq!(ui.focused_window(), None);
}

#[test]
fn a_button_click_is_reported_in_the_next_frame() {
    let mut ui = new_ui();
    ui.begin_frame();
    ui.window(1, "w");
    assert!(!ui.button(10, "ok"));
    ui.mouse_down(&[false], &[true], &[(0, 0)]);
    ui.mouse_up();
    // drawn in the focused window under the mouse as it went up
    ui.button_drawn(10, true, true);
    // not focused or not hovered: no click
    ui.button_drawn(11, false, true);
    ui.button_drawn(12, true, false);
    ui.end_draw(false, (0, 0), (0, 0));
    assert!(!ui.click_up());

    ui.begin_frame();
    ui.window(1, "w");
    assert!(ui.button(10, "ok"));
    assert!(!ui.button(11, "other"));
    assert!(!ui.button(12, "third"));
}

#[test]
fn dragging_a_group_and_dropping_it() {
    let mut ui = new_ui();
    ui.window(1, "w");
    ui.mouse_move((10, 10));
    ui.mouse_down(&[false], &[true], &[(0, 0)]);
    // a draggable group with children under the held mouse is clicked
    assert!(ui.group_drawn(7, (8, 8), true, true, false, true, true));
    assert!(matches!(ui.dragged(), Some((7, DragState::Clicked((10, 10), (8, 8))))));
    assert_eq!(ui.hovered_group(), Some(7));
    // another group cannot start a drag now
    ui.group_drawn(9, (0, 0), true, true, false, true, false);
    assert!(matches!(ui.dragged(), Some((7, DragState::Clicked(_, _)))));
    // the mouse has moved away: it is dragged from now on
    ui.end_draw(true, (-2, -2), (0, 0));
    assert!(matches!(ui.dragged(), Some((7, DragState::Dragging((-2, -2))))));
    assert_eq!(ui.hovered_group(), None);
    // while the mouse is held, a drag event is recorded every frame
    ui.end_draw(false, (0, 0), (0, 0));
    ui.begin_frame();
    assert!(matches!(ui.end_group(Some(0), 7), Drag::Dragging));
    // over group 5, the mouse goes up: the drop is recorded
    ui.mouse_move((30, 40));
    ui.group_drawn(5, (0, 0), false, false, true, true, true);
    ui.mouse_up();
    ui.end_draw(false, (0, 0), (0, 0));
    assert!(ui.dragged().is_none());
    ui.begin_frame();
    match ui.end_group(Some(0), 7) {
        Drag::Dropped(pos, over) => {
            assert_eq!(pos, (30, 40));
            assert_eq!(over, Some(5));
        }
        _ => panic!("expected a drop"),
    }
}

#[test]
fn the_wheel_is_reset_at_the_end_of_a_frame() {
    let mut ui = new_ui();
    ui.mouse_wheel((0, 3));
    assert_eq!(ui.wheel_delta(), (0, 3));
    ui.end_draw(false, (0, 0), (0, 0));
    assert_eq!(ui.wheel_delta(), (0, 0));
}
