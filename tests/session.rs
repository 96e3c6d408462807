use cube_timer::{CubeEvent, CubeTimer, Penalty, StandardEvent, Statistics, TimeRecord, TimerState};

fn solve_once(t: &mut CubeTimer, start: u64, duration: u64) {
    t.handle_space_key(true, start);
    t.handle_space_key(false, start + 300);
    t.handle_space_key(true, start + 300 + duration);
    t.handle_space_key(false, start + 400 + duration);
}

fn three_by_three(time: u64) -> TimeRecord {
    TimeRecord::new(time, CubeEvent::Standard(StandardEvent::Cube3x3), String::from("R"), 0)
}

#[test]
fn new_session_is_ready_on_three_by_three() {
    let t = CubeTimer::new();
    assert_eq!(t.timer.state, TimerState::Ready);
    assert_eq!(t.timer.key_preparation_time, 300);
    assert_eq!(t.current_event, CubeEvent::Standard(StandardEvent::Cube3x3));
    assert_eq!(t.available_events.len(), 14);
    assert_eq!(t.available_events[13], CubeEvent::Standard(StandardEvent::FeetSolving));
    assert!(t.records.is_empty());
    assert_eq!(t.statistics, Statistics::empty());
    assert_eq!(t.current_scramble.split(' ').count(), 20);
    assert_eq!(t.timer_text(), "0.000");
}

#[test]
fn a_solve_is_recorded_once_with_its_duration() {
    let mut t = CubeTimer::new();
    let scramble = t.current_scramble.clone();
    t.handle_space_key(true, 10_000);
    t.handle_space_key(false, 10_300);
    assert_eq!(t.timer.state, TimerState::Running);
    assert!(t.records.is_empty());
    assert_eq!(t.tick(11_300), (TimerState::Running, 1000));
    assert_eq!(t.timer_text(), "1.000");
    t.handle_space_key(true, 22_645);
    assert_eq!(t.timer.state, TimerState::Stopped);
    assert_eq!(t.records.len(), 1);
    let r = &t.records[0];
    assert_eq!(r.time, 12_345);
    assert_eq!(r.event, CubeEvent::Standard(StandardEvent::Cube3x3));
    assert_eq!(r.scramble, scramble);
    assert_eq!(r.penalty, None);
    assert_eq!(r.comment, "");
    assert!(r.timestamp > 1_500_000_000_000);
    assert_eq!(t.statistics.best, Some(12_345));
    assert_eq!(t.timer_text(), "12.345");
    // Holding the key after the stop records nothing more.
    t.handle_space_key(true, 30_000);
    assert_eq!(t.records.len(), 1);
    t.handle_space_key(false, 30_100);
    assert_eq!(t.timer.state, TimerState::Ready);
}

#[test]
fn short_hold_records_nothing() {
    let mut t = CubeTimer::new();
    t.handle_space_key(true, 0);
    t.handle_space_key(false, 299);
    assert_eq!(t.timer.state, TimerState::Ready);
    assert!(t.records.is_empty());
    assert_eq!(t.timer_text(), "0.000");
}

#[test]
fn save_time_record_appends_and_recomputes() {
    let mut t = CubeTimer::new();
    t.save_time_record(1500, 42);
    t.save_time_record(900, 43);
    assert_eq!(t.records.len(), 2);
    assert_eq!(t.records[1].time, 900);
    assert_eq!(t.records[1].timestamp, 43);
    assert_eq!(t.statistics.best, Some(900));
    assert_eq!(t.statistics.worst, Some(1500));
    assert_eq!(t.statistics.mean, Some(1200));
}

#[test]
fn dnf_removes_contribution_and_revert_restores() {
    let mut t = CubeTimer::new();
    t.load_records(vec![three_by_three(1000), three_by_three(700), three_by_three(1300)]);
    let before = t.statistics;
    assert_eq!(before.best, Some(700));
    t.apply_penalty(1, Some(Penalty::Dnf));
    assert_eq!(t.records[1].penalty, Some(Penalty::Dnf));
    assert_eq!(t.statistics.best, Some(1000));
    assert_eq!(t.statistics.mean, Some(1150));
    t.apply_penalty(1, None);
    assert_eq!(t.statistics, before);
}

#[test]
fn plus_two_keeps_raw_duration_in_statistics() {
    let mut t = CubeTimer::new();
    t.load_records(vec![three_by_three(1000), three_by_three(700)]);
    t.apply_penalty(1, Some(Penalty::Plus2));
    assert_eq!(t.statistics.best, Some(700));
    assert_eq!(t.records[1].time, 700);
}

#[test]
fn delete_out_of_range_changes_nothing() {
    let mut t = CubeTimer::new();
    t.load_records(vec![three_by_three(1000), three_by_three(700)]);
    let stats = t.statistics;
    t.delete_time(2);
    t.delete_time(usize::MAX);
    assert_eq!(t.records.len(), 2);
    assert_eq!(t.records[0].time, 1000);
    assert_eq!(t.records[1].time, 700);
    assert_eq!(t.statistics, stats);
}

#[test]
fn delete_in_range_removes_and_recomputes() {
    let mut t = CubeTimer::new();
    t.load_records(vec![three_by_three(1000), three_by_three(700)]);
    t.delete_time(1);
    assert_eq!(t.records.len(), 1);
    assert_eq!(t.statistics.best, Some(1000));
    t.delete_time(0);
    assert_eq!(t.statistics, Statistics::empty());
}

#[test]
fn penalty_and_comment_out_of_range_change_nothing() {
    let mut t = CubeTimer::new();
    t.load_records(vec![three_by_three(1000)]);
    t.apply_penalty(1, Some(Penalty::Dnf));
    t.update_time_comment(1, String::from("lost"));
    assert_eq!(t.records[0].penalty, None);
    assert_eq!(t.records[0].comment, "");
    assert_eq!(t.statistics.best, Some(1000));
}

#[test]
fn comment_is_stored_and_leaves_statistics() {
    let mut t = CubeTimer::new();
    t.load_records(vec![three_by_three(1000)]);
    let stats = t.statistics;
    t.update_time_comment(0, String::from("nice"));
    assert_eq!(t.records[0].comment, "nice");
    assert_eq!(t.statistics, stats);
}

#[test]
fn switching_event_filters_statistics() {
    let mut t = CubeTimer::new();
    t.load_records(vec![
        three_by_three(1000),
        TimeRecord::new(400, CubeEvent::Standard(StandardEvent::Cube2x2), String::new(), 0),
    ]);
    assert_eq!(t.statistics.best, Some(1000));
    t.set_active_event(CubeEvent::Standard(StandardEvent::Cube2x2));
    assert_eq!(t.current_event, CubeEvent::Standard(StandardEvent::Cube2x2));
    assert_eq!(t.statistics.best, Some(400));
    assert_eq!(t.current_scramble.split(' ').count(), 9);
}

#[test]
fn five_solves_give_average_of_five() {
    let mut t = CubeTimer::new();
    for (i, d) in [900u64, 950, 1000, 1050].iter().enumerate() {
        solve_once(&mut t, i as u64 * 100_000, *d);
        assert_eq!(t.statistics.current_ao5, None);
    }
    solve_once(&mut t, 500_000, 1100);
    assert_eq!(t.records.len(), 5);
    assert_eq!(t.statistics.current_ao5, Some(1000));
    assert_eq!(t.statistics.current_ao12, None);
}
