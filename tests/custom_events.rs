use cube_timer::custom::{parse_moves, split_commas};
use cube_timer::{CubeEvent, CubeTimer, CustomEvent, StandardEvent, TimeRecord};

#[test]
fn split_keeps_empty_pieces() {
    assert_eq!(split_commas("R,U"), vec!["R", "U"]);
    assert_eq!(split_commas(""), vec![""]);
    assert_eq!(split_commas("a,,b,"), vec!["a", "", "b", ""]);
}

#[test]
fn parsed_moves_are_trimmed() {
    assert_eq!(parse_moves(" R, U ,F2 "), vec!["R", "U", "F2"]);
    assert_eq!(parse_moves("\tx\n"), vec!["x"]);
}

#[test]
fn add_custom_event_defines_and_offers() {
    let mut t = CubeTimer::new();
    t.add_custom_event("Mirror", "R, U ,F");
    assert_eq!(t.custom_events.len(), 1);
    assert_eq!(t.custom_events[0].name, "Mirror");
    assert_eq!(t.custom_events[0].scramble_length, 20);
    assert_eq!(t.custom_events[0].moves, vec!["R", "U", "F"]);
    assert_eq!(t.available_events.len(), 15);
    assert_eq!(t.available_events[14], CubeEvent::Custom(String::from("Mirror")));
}

#[test]
fn add_custom_event_ignores_blank_input() {
    let mut t = CubeTimer::new();
    t.add_custom_event("   ", "R, U");
    t.add_custom_event("Mirror", " \t ");
    assert!(t.custom_events.is_empty());
    assert_eq!(t.available_events.len(), 14);
}

#[test]
fn adding_same_name_replaces_definition() {
    let mut t = CubeTimer::new();
    t.add_custom_event("Mirror", "R");
    t.add_custom_event("Mirror", "L, D");
    assert_eq!(t.custom_events.len(), 1);
    assert_eq!(t.custom_events[0].moves, vec!["L", "D"]);
    assert_eq!(t.available_events.len(), 15);
}

#[test]
fn removing_active_custom_event_falls_back() {
    let mut t = CubeTimer::new();
    t.add_custom_event("Mirror", "R");
    t.add_custom_event("Ghost", "U");
    t.load_records(vec![
        TimeRecord::new(500, CubeEvent::Custom(String::from("Mirror")), String::new(), 0),
        TimeRecord::new(800, CubeEvent::Standard(StandardEvent::Cube3x3), String::new(), 0),
    ]);
    t.set_active_event(CubeEvent::Custom(String::from("Mirror")));
    assert_eq!(t.statistics.best, Some(500));
    assert_eq!(t.current_scramble, "Custom scramble for Mirror");
    t.remove_custom_event("Mirror");
    assert_eq!(t.custom_events.len(), 1);
    assert_eq!(t.custom_events[0].name, "Ghost");
    assert_eq!(t.available_events.len(), 15);
    assert!(!t.available_events.contains(&CubeEvent::Custom(String::from("Mirror"))));
    assert_eq!(t.current_event, CubeEvent::Standard(StandardEvent::Cube3x3));
    assert_eq!(t.statistics.best, Some(800));
    assert_eq!(t.records.len(), 2);
}

#[test]
fn removing_inactive_or_unknown_keeps_active() {
    let mut t = CubeTimer::new();
    t.add_custom_event("Mirror", "R");
    let scramble = t.current_scramble.clone();
    t.remove_custom_event("Nope");
    assert_eq!(t.custom_events.len(), 1);
    t.remove_custom_event("Mirror");
    assert!(t.custom_events.is_empty());
    assert_eq!(t.available_events.len(), 14);
    assert_eq!(t.current_scramble, scramble);
}

#[test]
fn loading_custom_events_offers_each_once() {
    let mut t = CubeTimer::new();
    t.load_custom_events(vec![
        CustomEvent { name: String::from("A"), scramble_length: 5, moves: vec![String::from("R")] },
        CustomEvent { name: String::from("B"), scramble_length: 7, moves: vec![] },
        CustomEvent { name: String::from("A"), scramble_length: 9, moves: vec![] },
    ]);
    assert_eq!(t.custom_events.len(), 2);
    assert_eq!(t.custom_events[0].scramble_length, 9);
    assert_eq!(t.available_events.len(), 16);
    assert!(t.find_custom_event("B").is_some());
    assert_eq!(t.find_custom_event("C"), None);
}

#[test]
fn loading_replaces_existing_definitions() {
    let mut t = CubeTimer::new();
    t.add_custom_event("Mirror", "R");
    t.load_custom_events(vec![]);
    assert!(t.custom_events.is_empty());
    t.load_custom_events(vec![CustomEvent { name: String::from("B"), scramble_length: 3, moves: vec![] }]);
    assert_eq!(t.custom_events.len(), 1);
    assert_eq!(t.custom_events[0].name, "B");
    // The categories already offered stay offered.
    assert_eq!(t.available_events.len(), 16);
}

#[test]
fn unicode_whitespace_is_trimmed() {
    assert_eq!(parse_moves("\u{3000}R\u{a0}, \u{2003}U"), vec!["R", "U"]);
    let mut t = CubeTimer::new();
    t.add_custom_event("\u{2028}\u{85}", "R");
    assert!(t.custom_events.is_empty());
}
