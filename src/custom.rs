use vstd::prelude::*;
use vstd::string::*;

use crate::event::{str_eq, CubeEvent, EventView};
use crate::scramble::scramble_suits;
use crate::session::{custom_names, events_view, CubeTimer, CustomEvent};

verus! {

/// Whether `c` has the Unicode White_Space property.
pub open spec fn is_white_space(c: char) -> bool {
    let u = c as u32;
    ||| 0x9 <= u <= 0xd
    ||| u == 0x20
    ||| u == 0x85
    ||| u == 0xa0
    ||| u == 0x1680
    ||| 0x2000 <= u <= 0x200a
    ||| u == 0x2028
    ||| u == 0x2029
    ||| u == 0x202f
    ||| u == 0x205f
    ||| u == 0x3000
}

/// The text without its leading White_Space characters.
pub open spec fn trim_start(s: Seq<char>) -> Seq<char>
    decreases s.len(),
{
    if s.len() > 0 && is_white_space(s[0]) {
        trim_start(s.drop_first())
    } else {
        s
    }
}

/// The text without its trailing White_Space characters.
pub open spec fn trim_end(s: Seq<char>) -> Seq<char>
    decreases s.len(),
{
    if s.len() > 0 && is_white_space(s.last()) {
        trim_end(s.drop_last())
    } else {
        s
    }
}

/// The text without its leading and trailing White_Space characters.
pub open spec fn trimmed(s: Seq<char>) -> Seq<char> {
    trim_end(trim_start(s))
}

/// A text made only of whitespace trims to nothing.
pub proof fn lemma_blank_trims_to_empty(s: Seq<char>)
    requires
        forall|i: int| 0 <= i < s.len() ==> is_white_space(#[trigger] s[i]),
    ensures
        trimmed(s).len() == 0,
    decreases s.len(),
{
    if s.len() > 0 {
        assert forall|i: int| 0 <= i < s.drop_first().len() implies is_white_space(
            #[trigger] s.drop_first()[i],
        ) by {
            assert(s.drop_first()[i] == s[i + 1]);
        }
        lemma_blank_trims_to_empty(s.drop_first());
    } else {
        assert(trim_end(s) == s);
    }
}

/// Relies on `str::trim`: the text with leading and trailing whitespace
/// removed, whitespace being the characters with the Unicode White_Space
/// property.
#[verifier::external_body]
fn trim_text(s: &str) -> (r: &str)
    ensures
        r@ == trimmed(s@),
{
    s.trim()
}

/// The scramble length given to a newly added custom category.
pub const CUSTOM_SCRAMBLE_LENGTH: usize = 20;

/// The values a custom category definition holds.
pub ghost struct CustomEventView {
    pub name: Seq<char>,
    pub scramble_length: usize,
    pub moves: Seq<Seq<char>>,
}

/// The characters of each string.
pub open spec fn strings_view(v: Seq<String>) -> Seq<Seq<char>> {
    v.map_values(|s: String| s@)
}

impl View for CustomEvent {
    type V = CustomEventView;

    open spec fn view(&self) -> CustomEventView {
        CustomEventView {
            name: self.name@,
            scramble_length: self.scramble_length,
            moves: strings_view(self.moves@),
        }
    }
}

/// The definitions' values.
pub open spec fn customs_view(v: Seq<CustomEvent>) -> Seq<CustomEventView> {
    v.map_values(|c: CustomEvent| c@)
}

/// The pieces of `s` between occurrences of `sep`; `n` separators give
/// `n + 1` pieces, empty ones included.
pub open spec fn split_on(s: Seq<char>, sep: char) -> Seq<Seq<char>>
    decreases s.len(),
{
    if s.len() == 0 {
        seq![Seq::empty()]
    } else {
        let prev = split_on(s.drop_last(), sep);
        if s.last() == sep {
            prev.push(Seq::empty())
        } else {
            prev.update(prev.len() - 1, prev.last().push(s.last()))
        }
    }
}

/// The moves listed in a comma-separated text, each trimmed.
pub open spec fn listed_moves(s: Seq<char>) -> Seq<Seq<char>> {
    split_on(s, ',').map_values(|p: Seq<char>| trimmed(p))
}

/// The definitions with `e` in place of the one of the same name, or
/// appended when there is none.
pub open spec fn upsert(v: Seq<CustomEventView>, e: CustomEventView) -> Seq<CustomEventView> {
    if exists|i: int| 0 <= i < v.len() && v[i].name == e.name {
        v.update(choose|i: int| 0 <= i < v.len() && v[i].name == e.name, e)
    } else {
        v.push(e)
    }
}

/// The categories with `e` appended unless already present.
pub open spec fn offer(v: Seq<EventView>, e: EventView) -> Seq<EventView> {
    if v.contains(e) {
        v
    } else {
        v.push(e)
    }
}

/// The definitions without the one named `name`, if there is one.
pub open spec fn without_definition(v: Seq<CustomEventView>, name: Seq<char>) -> Seq<CustomEventView> {
    if exists|i: int| 0 <= i < v.len() && v[i].name == name {
        v.remove(choose|i: int| 0 <= i < v.len() && v[i].name == name)
    } else {
        v
    }
}

/// The categories without the custom one named `name`, in order.
pub open spec fn without_category(v: Seq<EventView>, name: Seq<char>) -> Seq<EventView>
    decreases v.len(),
{
    if v.len() == 0 {
        v
    } else {
        let prev = without_category(v.drop_last(), name);
        if v.last() == EventView::Custom(name) {
            prev
        } else {
            prev.push(v.last())
        }
    }
}

/// The definitions after storing each of `es` in turn.
pub open spec fn upsert_all(v: Seq<CustomEventView>, es: Seq<CustomEventView>) -> Seq<CustomEventView>
    decreases es.len(),
{
    if es.len() == 0 {
        v
    } else {
        upsert(upsert_all(v, es.drop_last()), es.last())
    }
}

/// The offered categories after offering the custom category of each of
/// `es` in turn.
pub open spec fn offer_all(v: Seq<EventView>, es: Seq<CustomEventView>) -> Seq<EventView>
    decreases es.len(),
{
    if es.len() == 0 {
        v
    } else {
        offer(offer_all(v, es.drop_last()), EventView::Custom(es.last().name))
    }
}

proof fn lemma_without_category_keeps_first(v: Seq<EventView>, name: Seq<char>)
    requires
        v.len() > 0,
        v[0] is Standard,
    ensures
        without_category(v, name).len() > 0,
        without_category(v, name)[0] == v[0],
    decreases v.len(),
{
    let prev = without_category(v.drop_last(), name);
    if v.len() > 1 {
        assert(v.drop_last()[0] == v[0]);
        lemma_without_category_keeps_first(v.drop_last(), name);
        assert(prev.push(v.last())[0] == prev[0]);
    } else {
        assert(prev.len() == 0);
        assert(v.last() == v[0]);
        assert(prev.push(v.last())[0] == v[0]);
    }
}

proof fn lemma_split_nonempty(s: Seq<char>, sep: char)
    ensures
        split_on(s, sep).len() > 0,
    decreases s.len(),
{
    if s.len() > 0 {
        lemma_split_nonempty(s.drop_last(), sep);
    }
}

/// The pieces of `text` between commas.
pub fn split_commas(text: &str) -> (r: Vec<String>)
    ensures
        strings_view(r@) == split_on(text@, ','),
{
    let n = text.unicode_len();
    let mut pieces: Vec<String> = Vec::new();
    let mut start: usize = 0;
    let mut i: usize = 0;
    proof {
        let e = text@.subrange(0, 0);
        assert(e.len() == 0);
        assert(split_on(e, ',') == seq![Seq::<char>::empty()]);
        assert(e =~= Seq::<char>::empty());
        assert(strings_view(pieces@) =~= Seq::<Seq<char>>::empty());
        assert(split_on(e, ',') =~= strings_view(pieces@).push(e));
    }
    while i < n
        invariant
            n == text@.len(),
            start <= i <= n,
            split_on(text@.subrange(0, i as int), ',') == strings_view(pieces@).push(
                text@.subrange(start as int, i as int),
            ),
        decreases n - i,
    {
        let c = text.get_char(i);
        proof {
            let s = text@.subrange(0, i + 1);
            assert(s.drop_last() =~= text@.subrange(0, i as int));
            assert(s.last() == c);
        }
        if c == ',' {
            let piece = String::from_str(text.substring_char(start, i));
            let ghost before = pieces@;
            pieces.push(piece);
            assert(strings_view(pieces@) =~= strings_view(before).push(
                text@.subrange(start as int, i as int),
            ));
            start = i + 1;
            assert(text@.subrange(start as int, i + 1) =~= Seq::<char>::empty());
        } else {
            assert(text@.subrange(start as int, i + 1) =~= text@.subrange(start as int, i as int).push(c));
            assert(strings_view(pieces@).push(text@.subrange(start as int, i + 1)) =~= strings_view(
                pieces@,
            ).push(text@.subrange(start as int, i as int)).update(
                strings_view(pieces@).len() as int,
                text@.subrange(start as int, i as int).push(c),
            ));
        }
        i = i + 1;
    }
    let last = String::from_str(text.substring_char(start, n));
    let ghost before = pieces@;
    pieces.push(last);
    assert(text@.subrange(0, n as int) =~= text@);
    assert(strings_view(pieces@) =~= strings_view(before).push(text@.subrange(start as int, n as int)));
    pieces
}

/// The moves listed in a comma-separated text, each trimmed.
pub fn parse_moves(text: &str) -> (r: Vec<String>)
    ensures
        strings_view(r@) == listed_moves(text@),
{
    let pieces = split_commas(text);
    let mut moves: Vec<String> = Vec::new();
    let mut i: usize = 0;
    while i < pieces.len()
        invariant
            i <= pieces.len(),
            strings_view(pieces@) == split_on(text@, ','),
            strings_view(moves@) =~= strings_view(pieces@.subrange(0, i as int)).map_values(
                |p: Seq<char>| trimmed(p),
            ),
        decreases pieces.len() - i,
    {
        let m = String::from_str(trim_text(pieces[i].as_str()));
        let ghost before = moves@;
        moves.push(m);
        proof {
            assert(pieces@.subrange(0, i + 1) =~= pieces@.subrange(0, i as int).push(pieces@[i as int]));
            assert(strings_view(pieces@.subrange(0, i + 1)) =~= strings_view(pieces@.subrange(0, i as int)).push(pieces@[i as int]@));
            assert(strings_view(moves@) =~= strings_view(before).push(trimmed(pieces@[i as int]@)));
        }
        i = i + 1;
        assert(strings_view(moves@) =~= strings_view(pieces@.subrange(0, i as int)).map_values(
            |p: Seq<char>| trimmed(p),
        ));
    }
    assert(pieces@.subrange(0, pieces.len() as int) =~= pieces@);
    moves
}

impl CubeTimer {
    /// The position of the definition named `name`.
    pub fn find_custom_event(&self, name: &str) -> (r: Option<usize>)
        ensures
            match r {
                Some(i) => i < self.custom_events@.len() && self.custom_events@[i as int].name@
                    == name@,
                None => forall|i: int|
                    0 <= i < self.custom_events@.len() ==> self.custom_events@[i].name@ != name@,
            },
    {
        let mut i: usize = 0;
        while i < self.custom_events.len()
            invariant
                i <= self.custom_events@.len(),
                forall|j: int| 0 <= j < i ==> self.custom_events@[j].name@ != name@,
            decreases self.custom_events@.len() - i,
        {
            if str_eq(self.custom_events[i].name.as_str(), name) {
                return Some(i);
            }
            i = i + 1;
        }
        None
    }

    /// Whether `event` is offered for selection.
    pub fn offers_event(&self, event: &CubeEvent) -> (r: bool)
        ensures
            r == events_view(self.available_events@).contains(event@),
    {
        let mut i: usize = 0;
        while i < self.available_events.len()
            invariant
                i <= self.available_events@.len(),
                forall|j: int| 0 <= j < i ==> self.available_events@[j]@ != event@,
            decreases self.available_events@.len() - i,
        {
            if self.available_events[i] == *event {
                assert(events_view(self.available_events@)[i as int] == event@);
                return true;
            }
            i = i + 1;
        }
        assert forall|j: int| 0 <= j < events_view(self.available_events@).len() implies events_view(
            self.available_events@,
        )[j] != event@ by {
            assert(events_view(self.available_events@)[j] == self.available_events@[j]@);
        }
        false
    }

    /// Stores a custom category definition, replacing one of the same name,
    /// and offers the category for selection if it is not offered yet.
    pub fn insert_custom_event(&mut self, event: CustomEvent)
        requires
            old(self).wf(),
        ensures
            final(self).wf(),
            customs_view(final(self).custom_events@) == upsert(
                customs_view(old(self).custom_events@),
                event@,
            ),
            events_view(final(self).available_events@) == offer(
                events_view(old(self).available_events@),
                EventView::Custom(event.name@),
            ),
            final(self).timer == old(self).timer,
            final(self).current_event == old(self).current_event,
            final(self).current_scramble == old(self).current_scramble,
            final(self).records == old(self).records,
            final(self).statistics == old(self).statistics,
    {
        let category = CubeEvent::Custom(event.name.clone());
        let offered = self.offers_event(&category);
        let ghost old_customs = customs_view(self.custom_events@);
        let ghost e = event@;
        match self.find_custom_event(event.name.as_str()) {
            Some(i) => {
                let ghost names = custom_names(self.custom_events@);
                self.custom_events.set(i, event);
                proof {
                    assert(old_customs[i as int].name == e.name);
                    let k = choose|k: int| 0 <= k < old_customs.len() && old_customs[k].name == e.name;
                    assert(names[k] == old_customs[k].name);
                    assert(names[i as int] == old_customs[i as int].name);
                    assert(k == i);
                    assert(customs_view(self.custom_events@) =~= old_customs.update(i as int, e));
                    assert(custom_names(self.custom_events@) =~= names);
                }
            },
            None => {
                let ghost names = custom_names(self.custom_events@);
                self.custom_events.push(event);
                proof {
                    assert forall|k: int| 0 <= k < old_customs.len() implies old_customs[k].name != e.name by {
                        assert(old_customs[k].name == self.custom_events@[k].name@);
                    }
                    assert(customs_view(self.custom_events@) =~= old_customs.push(e));
                    assert(custom_names(self.custom_events@) =~= names.push(e.name));
                }
            },
        }
        if !offered {
            let ghost before = events_view(self.available_events@);
            self.available_events.push(category);
            assert(events_view(self.available_events@) =~= before.push(EventView::Custom(e.name)));
        }
    }

    /// Adds a custom category from a name and a comma-separated list of
    /// moves, each trimmed; the scramble length is the default one. Nothing
    /// happens when either text is blank.
    pub fn add_custom_event(&mut self, name: &str, moves_text: &str)
        requires
            old(self).wf(),
        ensures
            final(self).wf(),
            if trimmed(name@).len() == 0 || trimmed(moves_text@).len() == 0 {
                &&& final(self).custom_events == old(self).custom_events
                &&& final(self).available_events == old(self).available_events
            } else {
                &&& customs_view(final(self).custom_events@) == upsert(
                    customs_view(old(self).custom_events@),
                    CustomEventView {
                        name: name@,
                        scramble_length: CUSTOM_SCRAMBLE_LENGTH,
                        moves: listed_moves(moves_text@),
                    },
                )
                &&& events_view(final(self).available_events@) == offer(
                    events_view(old(self).available_events@),
                    EventView::Custom(name@),
                )
            },
            final(self).timer == old(self).timer,
            final(self).current_event == old(self).current_event,
            final(self).current_scramble == old(self).current_scramble,
            final(self).records == old(self).records,
            final(self).statistics == old(self).statistics,
    {
        if trim_text(name).unicode_len() == 0 || trim_text(moves_text).unicode_len() == 0 {
            return;
        }
        let moves = parse_moves(moves_text);
        let event = CustomEvent {
            name: String::from_str(name),
            scramble_length: CUSTOM_SCRAMBLE_LENGTH,
            moves,
        };
        self.insert_custom_event(event);
    }

    /// Forgets the custom category `name`: its definition and its place among
    /// the offered categories. When it was active, the first offered category
    /// becomes active, with a new scramble and its statistics.
    pub fn remove_custom_event(&mut self, name: &str)
        requires
            old(self).wf(),
        ensures
            final(self).wf(),
            customs_view(final(self).custom_events@) == without_definition(
                customs_view(old(self).custom_events@),
                name@,
            ),
            events_view(final(self).available_events@) == without_category(
                events_view(old(self).available_events@),
                name@,
            ),
            if old(self).current_event@ == EventView::Custom(name@) {
                &&& final(self).current_event@ == old(self).available_events@[0]@
                &&& scramble_suits(final(self).current_event@, final(self).current_scramble@)
            } else {
                &&& final(self).current_event == old(self).current_event
                &&& final(self).current_scramble == old(self).current_scramble
                &&& final(self).statistics == old(self).statistics
            },
            final(self).timer == old(self).timer,
            final(self).records == old(self).records,
    {
        let ghost old_customs = customs_view(self.custom_events@);
        let ghost old_names = custom_names(self.custom_events@);
        if let Some(i) = self.find_custom_event(name) {
            assert(old_customs[i as int] == self.custom_events@[i as int]@);
            assert(old_names[i as int] == self.custom_events@[i as int].name@);
            self.custom_events.remove(i);
            proof {
                let k = choose|k: int| 0 <= k < old_customs.len() && old_customs[k].name == name@;
                assert(old_names[k] == old_customs[k].name);
                assert(old_names[i as int] == old_customs[i as int].name);
                assert(k == i);
                assert(customs_view(self.custom_events@) =~= old_customs.remove(i as int));
                assert(custom_names(self.custom_events@) =~= old_names.remove(i as int));
                let names = custom_names(self.custom_events@);
                assert forall|a: int, b: int|
                    0 <= a < names.len() && 0 <= b < names.len() && a != b implies names[a]
                    != names[b] by {
                    let a0 = if a < i { a } else { a + 1 };
                    let b0 = if b < i { b } else { b + 1 };
                    assert(names[a] == old_names[a0]);
                    assert(names[b] == old_names[b0]);
                }
            }
        } else {
            proof {
                assert forall|k: int| 0 <= k < old_customs.len() implies old_customs[k].name != name@ by {
                    assert(old_customs[k].name == self.custom_events@[k].name@);
                }
            }
        }
        let ghost old_available = events_view(self.available_events@);
        let mut kept: Vec<CubeEvent> = Vec::new();
        let mut j: usize = 0;
        while j < self.available_events.len()
            invariant
                j <= self.available_events@.len(),
                old_available == events_view(self.available_events@),
                events_view(kept@) == without_category(old_available.subrange(0, j as int), name@),
            decreases self.available_events@.len() - j,
        {
            proof {
                let sub = old_available.subrange(0, j + 1);
                assert(sub.drop_last() =~= old_available.subrange(0, j as int));
                assert(sub.last() == self.available_events@[j as int]@);
            }
            if !self.available_events[j].is_custom_named(name) {
                let ghost before = kept@;
                kept.push(self.available_events[j].clone());
                assert(events_view(kept@) =~= events_view(before).push(self.available_events@[j as int]@));
            }
            j = j + 1;
        }
        proof {
            assert(old_available.subrange(0, old_available.len() as int) =~= old_available);
            assert(old_available[0] == self.available_events@[0]@);
            lemma_without_category_keeps_first(old_available, name@);
            assert(events_view(kept@)[0] == kept@[0]@);
        }
        let ghost first = self.available_events@[0]@;
        self.available_events = kept;
        if self.current_event.is_custom_named(name) {
            let next = self.available_events[0].clone();
            self.set_active_event(next);
        }
        assert(self.available_events@[0]@ == first);
    }

    /// Replaces the custom category definitions with stored ones, each
    /// stored in turn as `insert_custom_event` does; their categories are
    /// offered for selection unless already offered.
    pub fn load_custom_events(&mut self, events: Vec<CustomEvent>)
        requires
            old(self).wf(),
        ensures
            final(self).wf(),
            customs_view(final(self).custom_events@) == upsert_all(
                Seq::empty(),
                customs_view(events@),
            ),
            events_view(final(self).available_events@) == offer_all(
                events_view(old(self).available_events@),
                customs_view(events@),
            ),
            final(self).timer == old(self).timer,
            final(self).current_event == old(self).current_event,
            final(self).current_scramble == old(self).current_scramble,
            final(self).records == old(self).records,
            final(self).statistics == old(self).statistics,
    {
        self.custom_events.clear();
        let ghost all = customs_view(events@);
        let ghost customs0 = customs_view(self.custom_events@);
        assert(customs0 =~= Seq::<CustomEventView>::empty());
        let ghost available0 = events_view(self.available_events@);
        let mut rest = events;
        let ghost mut k: int = 0;
        while rest.len() > 0
            invariant
                self.wf(),
                0 <= k <= all.len(),
                customs_view(rest@) == all.subrange(k, all.len() as int),
                customs_view(self.custom_events@) == upsert_all(customs0, all.subrange(0, k)),
                events_view(self.available_events@) == offer_all(available0, all.subrange(0, k)),
                self.timer == old(self).timer,
                self.current_event == old(self).current_event,
                self.current_scramble == old(self).current_scramble,
                self.records == old(self).records,
                self.statistics == old(self).statistics,
            decreases rest@.len(),
        {
            let ghost rest0 = rest@;
            let e = rest.remove(0);
            proof {
                assert(customs_view(rest0).len() == rest0.len());
                assert(customs_view(rest0)[0] == e@);
                assert(all.subrange(k, all.len() as int)[0] == all[k]);
                assert(all[k] == e@);
                assert(all.subrange(0, k + 1).drop_last() =~= all.subrange(0, k));
                assert(rest@ =~= rest0.subrange(1, rest0.len() as int));
                assert forall|m: int| 0 <= m < rest@.len() implies customs_view(rest@)[m]
                    == all.subrange(k + 1, all.len() as int)[m] by {
                    assert(customs_view(rest@)[m] == rest@[m]@);
                    assert(rest@[m] == rest0[m + 1]);
                    assert(customs_view(rest0)[m + 1] == rest0[m + 1]@);
                }
                assert(customs_view(rest@) =~= all.subrange(k + 1, all.len() as int));
                k = k + 1;
            }
            self.insert_custom_event(e);
        }
        assert(all.subrange(0, all.len() as int) =~= all);
    }
}

} // verus!
