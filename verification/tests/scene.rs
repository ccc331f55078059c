use good_web_game::goodies::scene::{lowest_drawn, SceneStack, SceneSwitch};

#[test]
fn new_stack_is_empty_and_keeps_the_world() {
    let st: SceneStack<u32, &str> = SceneStack::new(7);
    assert_eq!(st.len(), 0);
    assert_eq!(st.world, 7);
}

#[test]
fn push_then_pop_gives_the_scene_back() {
    let mut st = SceneStack::new(());
    st.push("menu");
    st.push("game");
    assert_eq!(st.len(), 2);
    assert_eq!(*st.current(), "game");
    assert_eq!(st.pop(), "game");
    assert_eq!(st.len(), 1);
    assert_eq!(*st.current(), "menu");
}

#[test]
fn switch_commands() {
    let mut st = SceneStack::new(0u8);
    assert!(st.switch(SceneSwitch::push("menu")).is_none());
    assert_eq!(*st.current(), "menu");
    assert!(st.switch(SceneSwitch::NoChange).is_none());
    assert_eq!(st.len(), 1);
    assert_eq!(st.switch(SceneSwitch::replace("game")), Some("menu"));
    assert_eq!(st.len(), 1);
    assert_eq!(*st.current(), "game");
    assert!(st.switch(SceneSwitch::Push("pause")).is_none());
    assert_eq!(st.len(), 2);
    assert_eq!(st.switch(SceneSwitch::Pop), Some("pause"));
    assert_eq!(*st.current(), "game");
    assert_eq!(st.world, 0);
}

#[test]
fn drawing_starts_at_the_highest_opaque_scene() {
    // only the top scene
    assert_eq!(lowest_drawn(&[false, false, false]), 2);
    // the top scene shows the one below it
    assert_eq!(lowest_drawn(&[false, false, true]), 1);
    // every scene but the bottom one shows what is below
    assert_eq!(lowest_drawn(&[false, true, true]), 0);
    assert_eq!(lowest_drawn(&[false]), 0);
}
