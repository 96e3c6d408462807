use cube_timer::stats::{counted_durations, rolling_average, sort_times, statistics_from_times};
use cube_timer::{
    calculate_average, calculate_statistics, CubeEvent, Penalty, StandardEvent, Statistics,
    TimeRecord,
};

fn solve(time: u64, event: StandardEvent, penalty: Option<Penalty>) -> TimeRecord {
    let mut r = TimeRecord::new(time, CubeEvent::Standard(event), String::from("R U"), 0);
    r.penalty = penalty;
    r
}

#[test]
fn trimmed_average_of_five_drops_best_and_worst() {
    let times = vec![900, 950, 1000, 1050, 1100];
    assert_eq!(calculate_average(&times), Some(1000));
}

#[test]
fn trimmed_average_ignores_window_order() {
    let times = vec![1100, 900, 1050, 950, 1000];
    assert_eq!(calculate_average(&times), Some(1000));
}

#[test]
fn trimmed_average_truncates_to_milliseconds() {
    // Kept after trimming: 1000, 1000, 1001 -> 3001 / 3.
    let times = vec![5000, 1000, 1001, 1000, 1];
    assert_eq!(calculate_average(&times), Some(1000));
}

#[test]
fn trimmed_average_needs_something_left() {
    assert_eq!(calculate_average(&vec![]), None);
    assert_eq!(calculate_average(&vec![7]), None);
    assert_eq!(calculate_average(&vec![7, 9]), None);
    assert_eq!(calculate_average(&vec![9, 1, 5]), Some(5));
    // Kept: 2 and 3.
    assert_eq!(calculate_average(&vec![1, 2, 3, 4]), Some(2));
}

#[test]
fn trimmed_average_of_twelve_drops_one_each_end() {
    let times: Vec<u64> = (1..=12).map(|i| i * 100).collect();
    // Kept: 200..=1100, sum 6500 over 10.
    assert_eq!(calculate_average(&times), Some(650));
}

#[test]
fn trimmed_average_of_hundred_drops_five_each_end() {
    let mut times: Vec<u64> = (1..=100).collect();
    times[0] = 1_000_000;
    // Sorted: 2..=100, 1_000_000. Dropped: 2..=6 and 97..=100, 1_000_000.
    // Kept: 7..=96, sum 4635 over 90 = 51.5 -> 51.
    assert_eq!(calculate_average(&times), Some(51));
}

#[test]
fn sorting_orders_ascending_with_duplicates() {
    assert_eq!(sort_times(&vec![3, 1, 2, 1, 0]), vec![0, 1, 1, 2, 3]);
    assert_eq!(sort_times(&vec![]), Vec::<u64>::new());
}

#[test]
fn rolling_average_takes_latest_window() {
    let times = vec![10_000, 900, 950, 1000, 1050, 1100];
    assert_eq!(rolling_average(&times, 5), Some(1000));
    assert_eq!(rolling_average(&times, 12), None);
}

#[test]
fn empty_history_gives_no_statistics() {
    let records: Vec<TimeRecord> = Vec::new();
    let s = calculate_statistics(&records, &CubeEvent::Standard(StandardEvent::Cube3x3));
    assert_eq!(s, Statistics::empty());
    assert_eq!(s.best, None);
    assert_eq!(s.mean, None);
}

#[test]
fn basic_statistics_of_counted_solves() {
    let s = statistics_from_times(&vec![1200, 800, 1000]);
    assert_eq!(s.best, Some(800));
    assert_eq!(s.worst, Some(1200));
    assert_eq!(s.mean, Some(1000));
    assert_eq!(s.current_ao5, None);
    assert_eq!(s.current_ao12, None);
    assert_eq!(s.current_ao100, None);
}

#[test]
fn mean_truncates() {
    let s = statistics_from_times(&vec![1, 2]);
    assert_eq!(s.mean, Some(1));
}

#[test]
fn large_durations_do_not_overflow() {
    let s = statistics_from_times(&vec![u64::MAX, u64::MAX, u64::MAX - 2]);
    assert_eq!(s.mean, Some(u64::MAX - 1));
    assert_eq!(s.best, Some(u64::MAX - 2));
}

#[test]
fn filter_keeps_event_and_plus_two_but_not_dnf() {
    let records = vec![
        solve(1000, StandardEvent::Cube3x3, None),
        solve(2000, StandardEvent::Cube2x2, None),
        solve(3000, StandardEvent::Cube3x3, Some(Penalty::Dnf)),
        solve(4000, StandardEvent::Cube3x3, Some(Penalty::Plus2)),
    ];
    let ev = CubeEvent::Standard(StandardEvent::Cube3x3);
    assert_eq!(counted_durations(&records, &ev), vec![1000, 4000]);
    let s = calculate_statistics(&records, &ev);
    assert_eq!(s.best, Some(1000));
    assert_eq!(s.worst, Some(4000));
    assert_eq!(s.mean, Some(2500));
}

#[test]
fn custom_events_are_told_apart_by_name() {
    let records = vec![
        TimeRecord::new(500, CubeEvent::Custom(String::from("Mirror")), String::new(), 0),
        TimeRecord::new(700, CubeEvent::Custom(String::from("Ghost")), String::new(), 0),
    ];
    let s = calculate_statistics(&records, &CubeEvent::Custom(String::from("Ghost")));
    assert_eq!(s.best, Some(700));
    assert_eq!(s.worst, Some(700));
}

#[test]
fn best_is_lowest_in_any_order() {
    let ev = CubeEvent::Standard(StandardEvent::Skewb);
    let a = vec![
        solve(900, StandardEvent::Skewb, None),
        solve(500, StandardEvent::Skewb, None),
        solve(700, StandardEvent::Skewb, None),
    ];
    let b = vec![
        solve(700, StandardEvent::Skewb, None),
        solve(900, StandardEvent::Skewb, None),
        solve(500, StandardEvent::Skewb, None),
    ];
    assert_eq!(calculate_statistics(&a, &ev).best, Some(500));
    assert_eq!(calculate_statistics(&b, &ev).best, Some(500));
}

#[test]
fn fifth_record_brings_average_of_five() {
    let ev = CubeEvent::Standard(StandardEvent::Cube3x3);
    let mut records: Vec<TimeRecord> =
        (0..4).map(|i| solve(1000 + i * 10, StandardEvent::Cube3x3, None)).collect();
    assert_eq!(calculate_statistics(&records, &ev).current_ao5, None);
    records.push(solve(1040, StandardEvent::Cube3x3, None));
    assert_eq!(calculate_statistics(&records, &ev).current_ao5, Some(1020));
}
