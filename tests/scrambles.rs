use cube_timer::scramble::{generate_cube_scramble, generate_pyraminx_scramble, scramble_from_picks};
use cube_timer::{generate_scramble, CubeEvent, StandardEvent};

fn tokens_over(s: &str, faces: &[&str], modifiers: &[&str]) -> usize {
    let tokens: Vec<&str> = s.split(' ').collect();
    for t in &tokens {
        let (face, modifier) = t.split_at(1);
        assert!(faces.contains(&face), "bad face in {}", t);
        assert!(modifiers.contains(&modifier), "bad modifier in {}", t);
    }
    tokens.len()
}

#[test]
fn picks_spell_the_scramble() {
    let moves = vec!["R", "U", "F"];
    let modifiers = vec!["", "'", "2"];
    assert_eq!(scramble_from_picks(&moves, &modifiers, &vec![(0, 0), (1, 1), (2, 2)]), "R U' F2");
    assert_eq!(scramble_from_picks(&moves, &modifiers, &vec![]), "");
}

#[test]
fn three_by_three_scramble_has_twenty_turns() {
    let s = generate_scramble(&CubeEvent::Standard(StandardEvent::Cube3x3));
    assert_eq!(tokens_over(&s, &["R", "U", "F", "L", "D", "B"], &["", "'", "2"]), 20);
}

#[test]
fn two_by_two_scramble_has_nine_turns() {
    let s = generate_scramble(&CubeEvent::Standard(StandardEvent::Cube2x2));
    assert_eq!(tokens_over(&s, &["R", "U", "F"], &["", "'", "2"]), 9);
}

#[test]
fn pyraminx_scramble_has_ten_turns() {
    let s = generate_pyraminx_scramble();
    assert_eq!(tokens_over(&s, &["R", "U", "L", "B"], &["", "'"]), 10);
}

#[test]
fn other_standard_scramble_has_fifteen_turns() {
    let s = generate_scramble(&CubeEvent::Standard(StandardEvent::Megaminx));
    assert_eq!(tokens_over(&s, &["R", "U", "F", "L", "D", "B"], &["", "'", "2"]), 15);
}

#[test]
fn custom_scramble_names_the_category() {
    let s = generate_scramble(&CubeEvent::Custom(String::from("Mirror")));
    assert_eq!(s, "Custom scramble for Mirror");
}

#[test]
fn drawn_indices_stay_in_range() {
    let moves = vec!["A"];
    let modifiers = vec!["x", "y"];
    for _ in 0..50 {
        let s = generate_cube_scramble(&moves, &modifiers, 3);
        assert_eq!(tokens_over(&s, &["A"], &["x", "y"]), 3);
    }
    assert_eq!(generate_cube_scramble(&moves, &modifiers, 0), "");
}
