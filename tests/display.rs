use cube_timer::format::{decimal_string, padded_decimal};
use cube_timer::{format_time, CubeEvent, Penalty, StandardEvent, TimeRecord};

#[test]
fn format_under_a_minute() {
    assert_eq!(format_time(0), "0.000");
    assert_eq!(format_time(7), "0.007");
    assert_eq!(format_time(1234), "1.234");
    assert_eq!(format_time(59_999), "59.999");
}

#[test]
fn format_with_minutes() {
    assert_eq!(format_time(60_000), "1:00.000");
    assert_eq!(format_time(61_005), "1:01.005");
    assert_eq!(format_time(754_321), "12:34.321");
}

#[test]
fn decimal_and_padding() {
    assert_eq!(decimal_string(0), "0");
    assert_eq!(decimal_string(18_446_744_073_709_551_615), "18446744073709551615");
    assert_eq!(padded_decimal(5, 3), "005");
    assert_eq!(padded_decimal(1234, 2), "1234");
}

#[test]
fn record_text_shows_penalty() {
    let mut r = TimeRecord::new(12_345, CubeEvent::Standard(StandardEvent::Cube3x3), String::new(), 0);
    assert_eq!(r.display_text(), "12.345");
    r.penalty = Some(Penalty::Plus2);
    assert_eq!(r.display_text(), "12.345+");
    r.penalty = Some(Penalty::Dnf);
    assert_eq!(r.display_text(), "DNF");
    assert!(r.is_dnf());
}

#[test]
fn event_labels() {
    assert_eq!(StandardEvent::Cube3x3.name(), "3x3x3");
    assert_eq!(StandardEvent::Square1.name(), "Square-1");
    assert_eq!(StandardEvent::OneHanded.name(), "3x3 OH");
    assert_eq!(StandardEvent::FeetSolving.name(), "3x3 Feet");
    assert_eq!(CubeEvent::Standard(StandardEvent::Clock).name(), "Clock");
    assert_eq!(CubeEvent::Custom(String::from("Mirror")).name(), "Mirror");
}

#[test]
fn event_equality_is_by_identity() {
    let a = CubeEvent::Custom(String::from("X"));
    assert_eq!(a, a.clone());
    assert_ne!(a, CubeEvent::Custom(String::from("Y")));
    assert_ne!(CubeEvent::Standard(StandardEvent::Clock), CubeEvent::Custom(String::from("Clock")));
    assert!(a.is_custom_named("X"));
    assert!(!a.is_custom_named("x"));
}
