use rand::Rng;
use vstd::prelude::*;
use vstd::string::*;

use crate::event::{CubeEvent, EventView, StandardEvent};

verus! {

/// Relies on rand's `thread_rng().gen_range(0..n)`: an index drawn below `n`.
/// `gen_range` panics on an empty range, hence `n > 0`.
#[verifier::external_body]
fn random_index(n: usize) -> (r: usize)
    requires
        n > 0,
    ensures
        r < n,
{
    rand::thread_rng().gen_range(0..n)
}

/// The characters of each string.
pub open spec fn strs_view(v: Seq<&str>) -> Seq<Seq<char>> {
    v.map_values(|s: &str| s@)
}

/// Whether every pick names a move and a modifier of the tables.
pub open spec fn picks_in_range(picks: Seq<(usize, usize)>, n_moves: nat, n_modifiers: nat) -> bool {
    forall|i: int| 0 <= i < picks.len() ==> (#[trigger] picks[i]).0 < n_moves && picks[i].1 < n_modifiers
}

/// The scramble that a list of (move, modifier) picks spells: each move
/// followed by its modifier, the tokens separated by single spaces.
pub open spec fn scramble_text(
    moves: Seq<Seq<char>>,
    modifiers: Seq<Seq<char>>,
    picks: Seq<(usize, usize)>,
) -> Seq<char>
    decreases picks.len(),
{
    if picks.len() == 0 {
        Seq::empty()
    } else {
        let p = picks.last();
        let token = moves[p.0 as int] + modifiers[p.1 as int];
        if picks.len() == 1 {
            token
        } else {
            scramble_text(moves, modifiers, picks.drop_last()) + seq![' '] + token
        }
    }
}

/// Whether `s` is a scramble of `length` tokens over the given tables.
pub open spec fn is_scramble(
    s: Seq<char>,
    moves: Seq<Seq<char>>,
    modifiers: Seq<Seq<char>>,
    length: nat,
) -> bool {
    exists|picks: Seq<(usize, usize)>|
        picks.len() == length && picks_in_range(picks, moves.len(), modifiers.len())
            && s == scramble_text(moves, modifiers, picks)
}

/// The six faces of a cube.
pub open spec fn cube_faces() -> Seq<Seq<char>> {
    seq!["R"@, "U"@, "F"@, "L"@, "D"@, "B"@]
}

/// The three faces used on a 2x2x2.
pub open spec fn pocket_faces() -> Seq<Seq<char>> {
    seq!["R"@, "U"@, "F"@]
}

/// The four faces of a pyraminx.
pub open spec fn pyraminx_faces() -> Seq<Seq<char>> {
    seq!["R"@, "U"@, "L"@, "B"@]
}

/// Quarter turn, inverse turn and half turn.
pub open spec fn cube_modifiers() -> Seq<Seq<char>> {
    seq![""@, "'"@, "2"@]
}

/// Turn and inverse turn.
pub open spec fn pyraminx_modifiers() -> Seq<Seq<char>> {
    seq![""@, "'"@]
}

/// The text given as the scramble of a custom category.
pub open spec fn custom_scramble(name: Seq<char>) -> Seq<char> {
    "Custom scramble for "@ + name
}

/// Whether `s` is a scramble that suits category `e`.
pub open spec fn scramble_suits(e: EventView, s: Seq<char>) -> bool {
    match e {
        EventView::Standard(StandardEvent::Cube3x3) => is_scramble(s, cube_faces(), cube_modifiers(), 20),
        EventView::Standard(StandardEvent::Cube2x2) => is_scramble(s, pocket_faces(), cube_modifiers(), 9),
        EventView::Standard(StandardEvent::Pyraminx) => is_scramble(
            s,
            pyraminx_faces(),
            pyraminx_modifiers(),
            10,
        ),
        EventView::Custom(name) => s == custom_scramble(name),
        _ => is_scramble(s, cube_faces(), cube_modifiers(), 15),
    }
}

/// Spells out the scramble that the given picks make.
pub fn scramble_from_picks(
    moves: &Vec<&str>,
    modifiers: &Vec<&str>,
    picks: &Vec<(usize, usize)>,
) -> (r: String)
    requires
        picks_in_range(picks@, moves@.len(), modifiers@.len()),
    ensures
        r@ == scramble_text(strs_view(moves@), strs_view(modifiers@), picks@),
{
    let ghost mv = strs_view(moves@);
    let ghost md = strs_view(modifiers@);
    let mut r = String::new();
    let mut i: usize = 0;
    while i < picks.len()
        invariant
            i <= picks.len(),
            picks_in_range(picks@, moves@.len(), modifiers@.len()),
            mv == strs_view(moves@),
            md == strs_view(modifiers@),
            r@ == scramble_text(mv, md, picks@.subrange(0, i as int)),
        decreases picks.len() - i,
    {
        let p = picks[i];
        proof {
            let sub = picks@.subrange(0, i + 1);
            assert(sub.drop_last() =~= picks@.subrange(0, i as int));
            assert(sub.last() == p);
            assert(picks@[i as int] == p);
            assert(mv[p.0 as int] == moves@[p.0 as int]@);
            assert(md[p.1 as int] == modifiers@[p.1 as int]@);
            reveal_strlit(" ");
            assert(" "@ =~= seq![' ']);
        }
        if i > 0 {
            r.append(" ");
        }
        r.append(moves[p.0]);
        r.append(modifiers[p.1]);
        i = i + 1;
        assert(r@ =~= scramble_text(mv, md, picks@.subrange(0, i as int)));
    }
    assert(picks@.subrange(0, picks.len() as int) =~= picks@);
    r
}

/// A random scramble of `length` tokens over the given tables.
pub fn generate_cube_scramble(moves: &Vec<&str>, modifiers: &Vec<&str>, length: usize) -> (r: String)
    requires
        moves.len() > 0,
        modifiers.len() > 0,
    ensures
        is_scramble(r@, strs_view(moves@), strs_view(modifiers@), length as nat),
{
    let mut picks: Vec<(usize, usize)> = Vec::new();
    let mut i: usize = 0;
    while i < length
        invariant
            i <= length,
            moves.len() > 0,
            modifiers.len() > 0,
            picks@.len() == i,
            picks_in_range(picks@, moves@.len(), modifiers@.len()),
        decreases length - i,
    {
        let m = random_index(moves.len());
        let d = random_index(modifiers.len());
        picks.push((m, d));
        i = i + 1;
    }
    let r = scramble_from_picks(moves, modifiers, &picks);
    proof {
        assert(strs_view(moves@).len() == moves@.len());
        assert(strs_view(modifiers@).len() == modifiers@.len());
    }
    r
}

/// A random pyraminx scramble: ten turns, each possibly inverted.
pub fn generate_pyraminx_scramble() -> (r: String)
    ensures
        is_scramble(r@, pyraminx_faces(), pyraminx_modifiers(), 10),
{
    let moves: Vec<&str> = vec!["R", "U", "L", "B"];
    let modifiers: Vec<&str> = vec!["", "'"];
    assert(strs_view(moves@) =~= pyraminx_faces());
    assert(strs_view(modifiers@) =~= pyraminx_modifiers());
    generate_cube_scramble(&moves, &modifiers, 10)
}

/// A random scramble suited to the category.
pub fn generate_scramble(event: &CubeEvent) -> (r: String)
    ensures
        scramble_suits(event@, r@),
{
    let modifiers: Vec<&str> = vec!["", "'", "2"];
    assert(strs_view(modifiers@) =~= cube_modifiers());
    match event {
        CubeEvent::Standard(StandardEvent::Cube3x3) => {
            let moves: Vec<&str> = vec!["R", "U", "F", "L", "D", "B"];
            assert(strs_view(moves@) =~= cube_faces());
            generate_cube_scramble(&moves, &modifiers, 20)
        },
        CubeEvent::Standard(StandardEvent::Cube2x2) => {
            let moves: Vec<&str> = vec!["R", "U", "F"];
            assert(strs_view(moves@) =~= pocket_faces());
            generate_cube_scramble(&moves, &modifiers, 9)
        },
        CubeEvent::Standard(StandardEvent::Pyraminx) => generate_pyraminx_scramble(),
        CubeEvent::Custom(name) => {
            let r = String::from_str("Custom scramble for ");
            r.concat(name.as_str())
        },
        _ => {
            let moves: Vec<&str> = vec!["R", "U", "F", "L", "D", "B"];
            assert(strs_view(moves@) =~= cube_faces());
            generate_cube_scramble(&moves, &modifiers, 15)
        },
    }
}

} // verus!
