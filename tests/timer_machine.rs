use cube_timer::{TimerMachine, TimerState, DEFAULT_HOLD_THRESHOLD};

fn ready() -> TimerMachine {
    TimerMachine::new(DEFAULT_HOLD_THRESHOLD)
}

#[test]
fn short_hold_returns_to_ready() {
    let mut m = ready();
    assert_eq!(m.handle_space_key(true, 1000), None);
    assert_eq!(m.state, TimerState::Preparing);
    assert_eq!(m.handle_space_key(false, 1299), None);
    assert_eq!(m.state, TimerState::Ready);
    assert_eq!(m.start_time, None);
    assert_eq!(m.space_hold_start, None);
    assert_eq!(m.current_time, 0);
    assert_eq!(m.last_time, None);
}

#[test]
fn hold_of_exactly_threshold_starts() {
    let mut m = ready();
    m.handle_space_key(true, 1000);
    m.handle_space_key(false, 1300);
    assert_eq!(m.state, TimerState::Running);
    assert_eq!(m.start_time, Some(1300));
    assert_eq!(m.current_time, 0);
}

#[test]
fn hold_one_millisecond_short_does_not_start() {
    let mut m = ready();
    m.handle_space_key(true, 1000);
    m.handle_space_key(false, 1299);
    assert_eq!(m.state, TimerState::Ready);
}

#[test]
fn press_while_running_ends_solve() {
    let mut m = ready();
    m.handle_space_key(true, 0);
    m.handle_space_key(false, 500);
    assert_eq!(m.tick(1700), (TimerState::Running, 1200));
    assert_eq!(m.handle_space_key(true, 12_845), Some(12_345));
    assert_eq!(m.state, TimerState::Stopped);
    assert_eq!(m.current_time, 12_345);
    assert_eq!(m.last_time, Some(12_345));
    assert_eq!(m.start_time, None);
    assert_eq!(m.space_hold_start, None);
    m.handle_space_key(false, 13_000);
    assert_eq!(m.state, TimerState::Ready);
}

#[test]
fn repeated_edges_are_ignored() {
    let mut m = ready();
    m.handle_space_key(true, 0);
    let after_first = m;
    m.handle_space_key(true, 50);
    assert_eq!(m, after_first);
    m.handle_space_key(false, 400);
    let running = m;
    m.handle_space_key(false, 450);
    assert_eq!(m, running);
    assert_eq!(m.state, TimerState::Running);
}

#[test]
fn tick_outside_running_changes_nothing() {
    let mut m = ready();
    assert_eq!(m.tick(5000), (TimerState::Ready, 0));
    assert_eq!(m, ready());
}

#[test]
fn clock_going_backwards_reads_as_zero() {
    let mut m = ready();
    m.handle_space_key(true, 1000);
    m.handle_space_key(false, 2000);
    assert_eq!(m.handle_space_key(true, 1500), Some(0));
}

#[test]
fn raw_press_from_stopped_prepares() {
    let mut m = ready();
    m.handle_space_press(0);
    m.handle_space_release(300);
    m.handle_space_press(1000);
    assert_eq!(m.state, TimerState::Stopped);
    assert_eq!(m.handle_space_press(2000), None);
    assert_eq!(m.state, TimerState::Preparing);
    assert_eq!(m.space_hold_start, Some(2000));
}
