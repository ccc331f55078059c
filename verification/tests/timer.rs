use good_web_game::timer::{
    average_delta, check_update_time, delta, frame_time_total, remaining_update_time, ticks,
    LogBuffer, TimeContext, DURATION_MAX_NANOS, INITIAL_FRAME_NANOS, TIME_LOG_FRAMES,
};

const MS: u128 = 1_000_000;

#[test]
fn log_buffer_returns_every_slot_unfilled_ones_holding_the_initial_value() {
    let mut b = LogBuffer::new(4, 9u64);
    assert_eq!(b.contents(), &[9, 9, 9, 9]);
    assert_eq!(b.samples(), 1);
    b.push(1);
    b.push(2);
    assert_eq!(b.contents(), &[9, 1, 2, 9]);
    assert_eq!(b.samples(), 3);
    assert_eq!(b.latest(), 2);
}

#[test]
fn log_buffer_overwrites_oldest_round_robin() {
    let mut b = LogBuffer::new(3, 0u64);
    for v in 1..=4u64 {
        b.push(v);
    }
    // history 0,1,2,3,4: the last three are 2,3,4, stored at slots 2,0,1
    assert_eq!(b.contents(), &[3, 4, 2]);
    assert_eq!(b.latest(), 4);
}

#[test]
fn fix_your_timestep_example_from_the_docs() {
    // 60 fps target (16.67 ms), 40 ms frame: two updates, 6.67 ms carried over.
    let mut tc = TimeContext::new();
    tc.tick(40 * MS);
    let target = 16_666_667;
    assert!(check_update_time(&mut tc, target));
    assert!(check_update_time(&mut tc, target));
    assert!(!check_update_time(&mut tc, target));
    assert_eq!(remaining_update_time(&tc), 40 * MS - 2 * target);
}

#[test]
fn remaining_update_time_example_from_the_docs() {
    // 25 fps target (40 ms), 45 ms passed: one update, 5 ms remaining.
    let mut tc = TimeContext::new();
    tc.tick(45 * MS);
    assert!(check_update_time(&mut tc, 40 * MS));
    assert!(!check_update_time(&mut tc, 40 * MS));
    assert_eq!(remaining_update_time(&tc), 5 * MS);
}

#[test]
fn check_update_time_is_due_when_exactly_one_step_has_passed() {
    let mut tc = TimeContext::new();
    tc.tick(10 * MS);
    assert!(check_update_time(&mut tc, 10 * MS));
    assert_eq!(remaining_update_time(&tc), 0);
    assert!(!check_update_time(&mut tc, 10 * MS));
    assert_eq!(remaining_update_time(&tc), 0);
}

#[test]
fn delta_average_and_ticks() {
    let mut tc = TimeContext::new();
    assert_eq!(ticks(&tc), 0);
    assert_eq!(delta(&tc), INITIAL_FRAME_NANOS);
    assert_eq!(average_delta(&tc), INITIAL_FRAME_NANOS);
    tc.tick(20 * MS);
    tc.tick(30 * MS);
    assert_eq!(ticks(&tc), 2);
    assert_eq!(delta(&tc), 30 * MS);
    // (16 + 20 + 30) / 3 ms: only the recorded frames count, not the
    // 197 slots that still hold the initial value
    assert_eq!(average_delta(&tc), 22 * MS);
}

#[test]
fn average_delta_covers_only_the_last_frames() {
    let mut tc = TimeContext::new();
    for _ in 0..TIME_LOG_FRAMES {
        tc.tick(10 * MS);
    }
    // the initial 16 ms has been overwritten
    assert_eq!(average_delta(&tc), 10 * MS);
    tc.tick(1010 * MS);
    assert_eq!(average_delta(&tc), 15 * MS);
}

#[test]
fn durations_go_up_to_the_longest_duration() {
    assert_eq!(DURATION_MAX_NANOS, std::time::Duration::MAX.as_nanos());
    let mut tc = TimeContext::new();
    // far beyond what fits in u64 nanoseconds (about 584 years)
    let long = u64::MAX as u128 * 10;
    tc.tick(long);
    assert_eq!(delta(&tc), long);
    assert_eq!(remaining_update_time(&tc), long);
    assert_eq!(frame_time_total(&tc), Some(INITIAL_FRAME_NANOS + long));
    assert_eq!(average_delta(&tc), (INITIAL_FRAME_NANOS + long) / 2);
    tc.tick(DURATION_MAX_NANOS - long);
    assert_eq!(remaining_update_time(&tc), DURATION_MAX_NANOS);
    // the frames add up to more than the longest duration: no total
    assert_eq!(frame_time_total(&tc), None);
}
