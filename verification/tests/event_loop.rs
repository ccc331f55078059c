use good_web_game::event::{quit, FrameStep, RunState};

#[test]
fn the_loop_runs_until_quit() {
    let mut s = RunState::new();
    assert!(s.is_continuing());
    assert_eq!(s.frame_step(), FrameStep::Update);
    quit(&mut s);
    assert!(!s.is_continuing());
    assert_eq!(s.frame_step(), FrameStep::Quit);
}

#[test]
fn an_error_quits_only_if_the_handler_says_so() {
    let mut s = RunState::new();
    s.handler_failed(false);
    assert_eq!(s.frame_step(), FrameStep::Update);
    s.handler_failed(true);
    assert_eq!(s.frame_step(), FrameStep::Quit);
    s.handler_failed(false);
    assert_eq!(s.frame_step(), FrameStep::Quit);
}
