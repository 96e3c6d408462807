use vstd::prelude::*;
use vstd::string::*;

verus! {

/// The fixed set of standard practice categories.
#[derive(Clone, Copy, Debug, PartialEq, Eq, Hash, Structural)]
pub enum StandardEvent {
    Cube3x3,
    Cube2x2,
    Cube4x4,
    Cube5x5,
    Cube6x6,
    Cube7x7,
    Pyraminx,
    Megaminx,
    Skewb,
    Square1,
    Clock,
    OneHanded,
    Blindfolded,
    FeetSolving,
}

/// The label shown for a standard category.
pub open spec fn standard_label(e: StandardEvent) -> Seq<char> {
    match e {
        StandardEvent::Cube3x3 => "3x3x3"@,
        StandardEvent::Cube2x2 => "2x2x2"@,
        StandardEvent::Cube4x4 => "4x4x4"@,
        StandardEvent::Cube5x5 => "5x5x5"@,
        StandardEvent::Cube6x6 => "6x6x6"@,
        StandardEvent::Cube7x7 => "7x7x7"@,
        StandardEvent::Pyraminx => "Pyraminx"@,
        StandardEvent::Megaminx => "Megaminx"@,
        StandardEvent::Skewb => "Skewb"@,
        StandardEvent::Square1 => "Square-1"@,
        StandardEvent::Clock => "Clock"@,
        StandardEvent::OneHanded => "3x3 OH"@,
        StandardEvent::Blindfolded => "3x3 BLD"@,
        StandardEvent::FeetSolving => "3x3 Feet"@,
    }
}

impl StandardEvent {
    /// The category's label, e.g. `3x3x3` or `Square-1`.
    pub fn name(&self) -> (r: String)
        ensures
            r@ == standard_label(*self),
    {
        let s = match self {
            StandardEvent::Cube3x3 => "3x3x3",
            StandardEvent::Cube2x2 => "2x2x2",
            StandardEvent::Cube4x4 => "4x4x4",
            StandardEvent::Cube5x5 => "5x5x5",
            StandardEvent::Cube6x6 => "6x6x6",
            StandardEvent::Cube7x7 => "7x7x7",
            StandardEvent::Pyraminx => "Pyraminx",
            StandardEvent::Megaminx => "Megaminx",
            StandardEvent::Skewb => "Skewb",
            StandardEvent::Square1 => "Square-1",
            StandardEvent::Clock => "Clock",
            StandardEvent::OneHanded => "3x3 OH",
            StandardEvent::Blindfolded => "3x3 BLD",
            StandardEvent::FeetSolving => "3x3 Feet",
        };
        String::from_str(s)
    }
}

/// A practice category: a standard one, or a user-defined one named by its
/// owner.
#[derive(Debug, Hash)]
pub enum CubeEvent {
    Standard(StandardEvent),
    Custom(String),
}

/// What identifies a category: its standard variant, or its custom name.
pub ghost enum EventView {
    Standard(StandardEvent),
    Custom(Seq<char>),
}

impl View for CubeEvent {
    type V = EventView;

    open spec fn view(&self) -> EventView {
        match self {
            CubeEvent::Standard(e) => EventView::Standard(*e),
            CubeEvent::Custom(n) => EventView::Custom(n@),
        }
    }
}

/// The label shown for a category: the standard label, or the custom name.
pub open spec fn event_label(e: EventView) -> Seq<char> {
    match e {
        EventView::Standard(s) => standard_label(s),
        EventView::Custom(n) => n,
    }
}

impl CubeEvent {
    /// The category's label.
    pub fn name(&self) -> (r: String)
        ensures
            r@ == event_label(self@),
    {
        match self {
            CubeEvent::Standard(e) => e.name(),
            CubeEvent::Custom(n) => n.clone(),
        }
    }

    /// Whether this is the user-defined category called `name`.
    pub fn is_custom_named(&self, name: &str) -> (r: bool)
        ensures
            r == (self@ == EventView::Custom(name@)),
    {
        match self {
            CubeEvent::Standard(_) => false,
            CubeEvent::Custom(n) => str_eq(n.as_str(), name),
        }
    }
}

/// Character-wise equality of two strings.
pub fn str_eq(a: &str, b: &str) -> (r: bool)
    ensures
        r == (a@ == b@),
{
    let n = a.unicode_len();
    if n != b.unicode_len() {
        return false;
    }
    let mut i: usize = 0;
    while i < n
        invariant
            n == a@.len(),
            n == b@.len(),
            i <= n,
            forall|j: int| 0 <= j < i ==> a@[j] == b@[j],
        decreases n - i,
    {
        if a.get_char(i) != b.get_char(i) {
            return false;
        }
        i = i + 1;
    }
    assert(a@ =~= b@);
    true
}

impl Clone for CubeEvent {
    fn clone(&self) -> (r: Self)
        ensures
            r@ == self@,
    {
        match self {
            CubeEvent::Standard(e) => CubeEvent::Standard(*e),
            CubeEvent::Custom(n) => CubeEvent::Custom(n.clone()),
        }
    }
}

impl PartialEq for CubeEvent {
    fn eq(&self, other: &CubeEvent) -> (r: bool) {
        match (self, other) {
            (CubeEvent::Standard(a), CubeEvent::Standard(b)) => *a == *b,
            (CubeEvent::Custom(a), CubeEvent::Custom(b)) => *a == *b,
            _ => false,
        }
    }
}

impl vstd::std_specs::cmp::PartialEqSpecImpl for CubeEvent {
    open spec fn obeys_eq_spec() -> bool {
        true
    }

    open spec fn eq_spec(&self, other: &CubeEvent) -> bool {
        self@ == other@
    }
}

impl Eq for CubeEvent {
}

} // verus!
