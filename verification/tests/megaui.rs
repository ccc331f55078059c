use good_web_game::goodies::megaui::{
    background, button_background, drag_border, scroll_bar_handle, text, title, window_border,
    Drag, Event, Events, Tree, BUTTON_BACKGROUND_FOCUSED, BUTTON_BACKGROUND_FOCUSED_CLICKED,
    BUTTON_BACKGROUND_FOCUSED_HOVERED, BUTTON_BACKGROUND_INACTIVE, FOCUSED_TEXT, FOCUSED_TITLE,
    GROUP_BORDER_FOCUSED, GROUP_BORDER_FOCUSED_HIGHLIGHT, GROUP_BORDER_FOCUSED_HOVERED,
    GROUP_BORDER_INACTIVE, GROUP_BORDER_INACTIVE_HOVERED, INACTIVE_TEXT, INACTIVE_TITLE,
    SCROLLBAR_BACKGROUND_FOCUSED, SCROLLBAR_BACKGROUND_FOCUSED_CLICKED,
    SCROLLBAR_BACKGROUND_FOCUSED_HOVERED, SCROLLBAR_BACKGROUND_INACTIVE, WINDOW_BACKGROUND_FOCUSED,
    WINDOW_BACKGROUND_INACTIVE, WINDOW_BORDER_FOCUSED, WINDOW_BORDER_INACTIVE,
};

#[test]
fn window_colors() {
    assert_eq!(background(true), "#eeef");
    assert_eq!(background(false), "#eee8");
    assert_eq!(background(true), WINDOW_BACKGROUND_FOCUSED);
    assert_eq!(background(false), WINDOW_BACKGROUND_INACTIVE);
    assert_eq!(window_border(true), WINDOW_BORDER_FOCUSED);
    assert_eq!(window_border(false), WINDOW_BORDER_INACTIVE);
    assert_eq!(title(true), FOCUSED_TITLE);
    assert_eq!(title(false), INACTIVE_TITLE);
    assert_eq!(text(true), FOCUSED_TEXT);
    assert_eq!(text(false), INACTIVE_TEXT);
}

#[test]
fn drag_border_colors() {
    assert_eq!(drag_border(true, true, true), GROUP_BORDER_FOCUSED_HOVERED);
    assert_eq!(drag_border(true, true, false), GROUP_BORDER_FOCUSED_HOVERED);
    assert_eq!(drag_border(true, false, true), GROUP_BORDER_FOCUSED_HIGHLIGHT);
    assert_eq!(drag_border(true, false, false), GROUP_BORDER_FOCUSED);
    assert_eq!(drag_border(false, true, true), GROUP_BORDER_INACTIVE_HOVERED);
    assert_eq!(drag_border(false, false, true), GROUP_BORDER_INACTIVE);
    assert_eq!(drag_border(false, false, false), "#1112");
}

#[test]
fn button_and_scroll_bar_colors() {
    assert_eq!(button_background(true, true, true), BUTTON_BACKGROUND_FOCUSED_CLICKED);
    assert_eq!(button_background(true, true, false), BUTTON_BACKGROUND_FOCUSED_HOVERED);
    assert_eq!(button_background(true, false, true), BUTTON_BACKGROUND_FOCUSED_CLICKED);
    assert_eq!(button_background(true, false, false), BUTTON_BACKGROUND_FOCUSED);
    assert_eq!(button_background(false, true, true), BUTTON_BACKGROUND_INACTIVE);
    assert_eq!(scroll_bar_handle(true, false, true), SCROLLBAR_BACKGROUND_FOCUSED_CLICKED);
    assert_eq!(scroll_bar_handle(true, true, false), SCROLLBAR_BACKGROUND_FOCUSED_HOVERED);
    assert_eq!(scroll_bar_handle(true, false, false), SCROLLBAR_BACKGROUND_FOCUSED);
    assert_eq!(scroll_bar_handle(false, true, true), SCROLLBAR_BACKGROUND_INACTIVE);
}

#[test]
fn tree_builds_windows_and_widgets() {
    let mut t: Tree<&str> = Tree::new();
    assert_eq!(t.element_count(), 0);
    let w = t.insert_window(7, "window 7");
    assert_eq!(w, 0);
    let a = t.insert_widget(w, "a");
    let b = t.insert_widget(a, "b");
    let c = t.insert_widget(w, "c");
    assert_eq!((a, b, c), (1, 2, 3));
    assert_eq!(t.childs(w), &[1, 3]);
    assert_eq!(t.childs(a), &[2]);
    assert_eq!(*t.get_widget(b), "b");
    assert_eq!(t.window_list(), &[0]);
    assert_eq!(t.element_count(), 4);
}

#[test]
fn reinserting_a_window_disposes_its_contents_and_reuses_the_slots() {
    let mut t: Tree<&str> = Tree::new();
    let w = t.insert_window(7, "window 7");
    let a = t.insert_widget(w, "a");
    let b = t.insert_widget(a, "b");
    let v = t.insert_window(9, "window 9");
    let d = t.insert_widget(v, "d");
    assert_eq!((w, a, b, v, d), (0, 1, 2, 3, 4));

    // the next frame rebuilds window 7
    assert_eq!(t.insert_window(7, "window 7 again"), 0);
    assert_eq!(*t.get_widget(0), "window 7");
    assert!(t.childs(0).is_empty());
    assert!(t.is_disposed(1));
    assert!(t.is_disposed(2));
    assert!(!t.is_disposed(0));
    assert!(!t.is_disposed(4));
    assert_eq!(t.childs(3), &[4]);
    assert_eq!(t.window_list(), &[0, 3]);

    // disposed slots are taken first, lowest first
    assert_eq!(t.insert_widget(0, "e"), 1);
    assert_eq!(t.insert_widget(0, "f"), 2);
    assert_eq!(t.insert_widget(0, "g"), 5);
    assert_eq!(t.childs(0), &[1, 2, 5]);
    assert_eq!(*t.get_widget(1), "e");
    assert!(!t.is_disposed(1));
    assert_eq!(t.element_count(), 6);
}

#[test]
fn raising_a_window_moves_it_to_the_front() {
    let mut t: Tree<u32> = Tree::new();
    t.insert_window(1, 10);
    t.insert_window(2, 20);
    t.insert_window(3, 30);
    assert_eq!(t.window_list(), &[0, 1, 2]);
    t.raise_window(2);
    assert_eq!(t.window_list(), &[2, 0, 1]);
    t.raise_window(0);
    assert_eq!(t.window_list(), &[2, 0, 1]);
    assert_eq!(t.replace_widget(1, 21), 20);
    assert_eq!(*t.get_widget(1), 21);
}

#[test]
fn events_of_a_frame_are_answered_in_the_next() {
    let mut ev: Events<(i32, i32)> = Events::new();
    ev.push(Event::ButtonClick(5));
    ev.push(Event::Dragging(6));
    // not yet: they belong to the current frame
    assert!(!ev.previous_frame_button_clicked(5));
    assert!(matches!(ev.previous_frame_drag(6), Drag::No));
    ev.next_frame();
    assert!(ev.previous_frame_button_clicked(5));
    assert!(!ev.previous_frame_button_clicked(6));
    assert!(matches!(ev.previous_frame_drag(6), Drag::Dragging));
    assert!(matches!(ev.previous_frame_drag(5), Drag::No));
    ev.next_frame();
    assert!(!ev.previous_frame_button_clicked(5));
    assert!(matches!(ev.previous_frame_drag(6), Drag::No));
}

#[test]
fn the_first_drag_event_of_a_widget_decides() {
    let mut ev: Events<(i32, i32)> = Events::new();
    ev.push(Event::Dragging(1));
    ev.push(Event::DragDrop(2, (10, 20), Some(3)));
    ev.push(Event::DragDrop(1, (0, 0), None));
    ev.next_frame();
    assert!(matches!(ev.previous_frame_drag(1), Drag::Dragging));
    match ev.previous_frame_drag(2) {
        Drag::Dropped(pos, hovered) => {
            assert_eq!(pos, (10, 20));
            assert_eq!(hovered, Some(3));
        }
        _ => panic!("expected a drop"),
    }
}
