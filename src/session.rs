use vstd::prelude::*;
use vstd::string::*;

use crate::event::{CubeEvent, EventView, StandardEvent};
use crate::format::{format_time, time_text};
use crate::record::{fresh_record, Penalty, RecordView, TimeRecord};
use crate::scramble::{generate_scramble, scramble_suits};
use crate::stats::{calculate_statistics, counted_times, history_statistics, history_view, Statistics};
use crate::timer::{elapsed, ends_solve, key_step, TimerMachine, TimerState, DEFAULT_HOLD_THRESHOLD};

verus! {

/// Relies on chrono's `Utc::now()` and `DateTime::timestamp_millis`: the
/// wall-clock time, in milliseconds since the Unix epoch.
#[verifier::external_body]
fn wall_clock_millis() -> (r: i64) {
    chrono::Utc::now().timestamp_millis()
}

/// A user-defined category: its name, scramble length and move set.
#[derive(Debug)]
pub struct CustomEvent {
    pub name: String,
    pub scramble_length: usize,
    pub moves: Vec<String>,
}

/// One practice session: the timer, the solve history, the active category
/// and its statistics.
#[derive(Debug)]
pub struct CubeTimer {
    pub timer: TimerMachine,
    /// The category that new solves belong to and that statistics cover.
    pub current_event: CubeEvent,
    /// The categories offered for selection: the standard ones first.
    pub available_events: Vec<CubeEvent>,
    /// Definitions of the user-defined categories, one per name.
    pub custom_events: Vec<CustomEvent>,
    /// The scramble for the next solve.
    pub current_scramble: String,
    /// Every solve, oldest first.
    pub records: Vec<TimeRecord>,
    pub statistics: Statistics,
}

/// The categories' identities.
pub open spec fn events_view(v: Seq<CubeEvent>) -> Seq<EventView> {
    v.map_values(|e: CubeEvent| e@)
}

/// The standard categories, in the order they are offered.
pub open spec fn standard_events() -> Seq<EventView> {
    seq![
        EventView::Standard(StandardEvent::Cube3x3),
        EventView::Standard(StandardEvent::Cube2x2),
        EventView::Standard(StandardEvent::Cube4x4),
        EventView::Standard(StandardEvent::Cube5x5),
        EventView::Standard(StandardEvent::Cube6x6),
        EventView::Standard(StandardEvent::Cube7x7),
        EventView::Standard(StandardEvent::Pyraminx),
        EventView::Standard(StandardEvent::Megaminx),
        EventView::Standard(StandardEvent::Skewb),
        EventView::Standard(StandardEvent::Square1),
        EventView::Standard(StandardEvent::Clock),
        EventView::Standard(StandardEvent::OneHanded),
        EventView::Standard(StandardEvent::Blindfolded),
        EventView::Standard(StandardEvent::FeetSolving),
    ]
}

/// The custom names, in order.
pub open spec fn custom_names(v: Seq<CustomEvent>) -> Seq<Seq<char>> {
    v.map_values(|c: CustomEvent| c.name@)
}

/// Whether no name occurs twice.
pub open spec fn names_unique(names: Seq<Seq<char>>) -> bool {
    forall|i: int, j: int| 0 <= i < names.len() && 0 <= j < names.len() && i != j ==> names[i] != names[j]
}

/// A history with the penalty of record `i` replaced.
pub open spec fn with_penalty(rs: Seq<RecordView>, i: int, p: Option<Penalty>) -> Seq<RecordView> {
    rs.update(i, RecordView { penalty: p, ..rs[i] })
}

/// A history with the comment of record `i` replaced.
pub open spec fn with_comment(rs: Seq<RecordView>, i: int, c: Seq<char>) -> Seq<RecordView> {
    rs.update(i, RecordView { comment: c, ..rs[i] })
}

/// Whether `r` is a newly completed solve of `time` in `event` with
/// `scramble`, whatever its timestamp.
pub open spec fn is_new_solve(r: RecordView, time: u64, event: EventView, scramble: Seq<char>) -> bool {
    r == fresh_record(time, event, scramble, r.timestamp)
}

/// The text shown on the timer: the running time, else the last solve, else
/// zero.
pub open spec fn timer_display(m: TimerMachine) -> Seq<char> {
    if m.state == TimerState::Running {
        time_text(m.current_time as nat)
    } else if m.last_time.is_some() {
        time_text(m.last_time->0 as nat)
    } else {
        "0.000"@
    }
}

/// A comment takes no part in the statistics.
pub proof fn lemma_comment_keeps_counted(rs: Seq<RecordView>, i: int, c: Seq<char>, ev: EventView)
    requires
        0 <= i < rs.len(),
    ensures
        counted_times(with_comment(rs, i, c), ev) == counted_times(rs, ev),
    decreases rs.len(),
{
    let rs2 = with_comment(rs, i, c);
    if i < rs.len() - 1 {
        assert(rs2.drop_last() =~= with_comment(rs.drop_last(), i, c));
        lemma_comment_keeps_counted(rs.drop_last(), i, c, ev);
    } else {
        assert(rs2.drop_last() =~= rs.drop_last());
    }
}

impl CubeTimer {
    /// The session's invariant: the timer's own, statistics that match the
    /// history, a standard category offered first, and unique custom names.
    pub open spec fn wf(&self) -> bool {
        &&& self.timer.wf()
        &&& self.statistics == history_statistics(history_view(self.records@), self.current_event@)
        &&& self.available_events@.len() > 0
        &&& self.available_events@[0]@ is Standard
        &&& names_unique(custom_names(self.custom_events@))
    }

    /// A fresh session: timer ready with a 300 ms hold threshold, the
    /// standard categories offered, 3x3x3 active, no solves.
    pub fn new() -> (r: CubeTimer)
        ensures
            r.wf(),
            r.timer == TimerMachine::new_spec(DEFAULT_HOLD_THRESHOLD),
            r.current_event@ == EventView::Standard(StandardEvent::Cube3x3),
            events_view(r.available_events@) == standard_events(),
            r.custom_events@.len() == 0,
            r.records@.len() == 0,
            scramble_suits(r.current_event@, r.current_scramble@),
    {
        let available_events: Vec<CubeEvent> = vec![
            CubeEvent::Standard(StandardEvent::Cube3x3),
            CubeEvent::Standard(StandardEvent::Cube2x2),
            CubeEvent::Standard(StandardEvent::Cube4x4),
            CubeEvent::Standard(StandardEvent::Cube5x5),
            CubeEvent::Standard(StandardEvent::Cube6x6),
            CubeEvent::Standard(StandardEvent::Cube7x7),
            CubeEvent::Standard(StandardEvent::Pyraminx),
            CubeEvent::Standard(StandardEvent::Megaminx),
            CubeEvent::Standard(StandardEvent::Skewb),
            CubeEvent::Standard(StandardEvent::Square1),
            CubeEvent::Standard(StandardEvent::Clock),
            CubeEvent::Standard(StandardEvent::OneHanded),
            CubeEvent::Standard(StandardEvent::Blindfolded),
            CubeEvent::Standard(StandardEvent::FeetSolving),
        ];
        assert(events_view(available_events@) =~= standard_events());
        let current_event = available_events[0].clone();
        let current_scramble = generate_scramble(&current_event);
        let records: Vec<TimeRecord> = Vec::new();
        let statistics = calculate_statistics(&records, &current_event);
        CubeTimer {
            timer: TimerMachine::new(DEFAULT_HOLD_THRESHOLD),
            current_event,
            available_events,
            custom_events: Vec::new(),
            current_scramble,
            records,
            statistics,
        }
    }

    /// Rebuilds the statistics of the active category from the history.
    pub fn calculate_statistics(&mut self)
        ensures
            final(self).statistics == history_statistics(
                history_view(final(self).records@),
                final(self).current_event@,
            ),
            final(self).timer == old(self).timer,
            final(self).current_event == old(self).current_event,
            final(self).available_events == old(self).available_events,
            final(self).custom_events == old(self).custom_events,
            final(self).current_scramble == old(self).current_scramble,
            final(self).records == old(self).records,
    {
        self.statistics = calculate_statistics(&self.records, &self.current_event);
    }

    /// Draws a new scramble for the active category.
    pub fn generate_new_scramble(&mut self)
        ensures
            scramble_suits(final(self).current_event@, final(self).current_scramble@),
            final(self).timer == old(self).timer,
            final(self).current_event == old(self).current_event,
            final(self).available_events == old(self).available_events,
            final(self).custom_events == old(self).custom_events,
            final(self).records == old(self).records,
            final(self).statistics == old(self).statistics,
    {
        self.current_scramble = generate_scramble(&self.current_event);
    }

    /// Appends a completed solve of the active category with the current
    /// scramble, and rebuilds the statistics.
    pub fn save_time_record(&mut self, time: u64, timestamp: i64)
        requires
            old(self).wf(),
        ensures
            final(self).wf(),
            history_view(final(self).records@) == history_view(old(self).records@).push(
                fresh_record(time, old(self).current_event@, old(self).current_scramble@, timestamp),
            ),
            final(self).timer == old(self).timer,
            final(self).current_event == old(self).current_event,
            final(self).available_events == old(self).available_events,
            final(self).custom_events == old(self).custom_events,
            final(self).current_scramble == old(self).current_scramble,
    {
        let record = TimeRecord::new(
            time,
            self.current_event.clone(),
            self.current_scramble.clone(),
            timestamp,
        );
        let ghost before = self.records@;
        self.records.push(record);
        assert(history_view(self.records@) =~= history_view(before).push(
            fresh_record(time, self.current_event@, self.current_scramble@, timestamp),
        ));
        self.calculate_statistics();
    }

    /// Reads the prepare key as `pressed` at `now` (milliseconds on a
    /// monotonic clock). A solve that this ends is appended to the history,
    /// stamped with the wall-clock time, and a new scramble is drawn.
    pub fn handle_space_key(&mut self, pressed: bool, now: u64)
        requires
            old(self).wf(),
        ensures
            final(self).wf(),
            final(self).timer == key_step(old(self).timer, pressed, now),
            final(self).current_event == old(self).current_event,
            final(self).available_events == old(self).available_events,
            final(self).custom_events == old(self).custom_events,
            if ends_solve(old(self).timer, pressed) {
                &&& final(self).timer.state == TimerState::Stopped
                &&& final(self).timer.current_time == elapsed(now, old(self).timer.start_time->0)
                &&& final(self).records@.len() == old(self).records@.len() + 1
                &&& final(self).records@.last().time == elapsed(now, old(self).timer.start_time->0)
                &&& final(self).records@.last().event@ == old(self).current_event@
                &&& final(self).records@.last().scramble@ == old(self).current_scramble@
                &&& final(self).records@.last().penalty.is_none()
                &&& final(self).records@.last().comment@.len() == 0
                &&& history_view(final(self).records@).drop_last() == history_view(
                    old(self).records@,
                )
                &&& is_new_solve(
                    final(self).records@.last()@,
                    final(self).timer.current_time,
                    old(self).current_event@,
                    old(self).current_scramble@,
                )
                &&& scramble_suits(final(self).current_event@, final(self).current_scramble@)
            } else {
                &&& final(self).records == old(self).records
                &&& final(self).current_scramble == old(self).current_scramble
                &&& final(self).statistics == old(self).statistics
            },
    {
        let finished = self.timer.handle_space_key(pressed, now);
        if let Some(time) = finished {
            let timestamp = wall_clock_millis();
            let ghost before = self.records@;
            self.save_time_record(time, timestamp);
            proof {
                assert(history_view(self.records@).drop_last() =~= history_view(before));
                assert(history_view(self.records@).last() == self.records@.last()@);
            }
            self.generate_new_scramble();
        }
    }

    /// Refreshes the running time from `now`; returns the phase and the
    /// elapsed time to show.
    pub fn tick(&mut self, now: u64) -> (r: (TimerState, u64))
        requires
            old(self).wf(),
        ensures
            final(self).wf(),
            final(self).timer == (if old(self).timer.state == TimerState::Running {
                TimerMachine {
                    current_time: elapsed(now, old(self).timer.start_time->0),
                    ..old(self).timer
                }
            } else {
                old(self).timer
            }),
            r == (final(self).timer.state, final(self).timer.current_time),
            final(self).current_event == old(self).current_event,
            final(self).available_events == old(self).available_events,
            final(self).custom_events == old(self).custom_events,
            final(self).current_scramble == old(self).current_scramble,
            final(self).records == old(self).records,
            final(self).statistics == old(self).statistics,
    {
        self.timer.tick(now)
    }

    /// Makes `event` the active category: draws a scramble for it and
    /// rebuilds the statistics over its solves.
    pub fn set_active_event(&mut self, event: CubeEvent)
        requires
            old(self).wf(),
        ensures
            final(self).wf(),
            final(self).current_event@ == event@,
            scramble_suits(event@, final(self).current_scramble@),
            final(self).statistics == history_statistics(history_view(old(self).records@), event@),
            final(self).timer == old(self).timer,
            final(self).available_events == old(self).available_events,
            final(self).custom_events == old(self).custom_events,
            final(self).records == old(self).records,
    {
        self.current_event = event;
        self.generate_new_scramble();
        self.calculate_statistics();
    }

    /// Removes record `index` for good and rebuilds the statistics; an index
    /// past the end changes nothing.
    pub fn delete_time(&mut self, index: usize)
        requires
            old(self).wf(),
        ensures
            final(self).wf(),
            if index < old(self).records@.len() {
                history_view(final(self).records@) == history_view(old(self).records@).remove(
                    index as int,
                )
            } else {
                final(self).records == old(self).records && final(self).statistics
                    == old(self).statistics
            },
            final(self).timer == old(self).timer,
            final(self).current_event == old(self).current_event,
            final(self).current_scramble == old(self).current_scramble,
            final(self).available_events == old(self).available_events,
            final(self).custom_events == old(self).custom_events,
    {
        if index < self.records.len() {
            let ghost before = self.records@;
            self.records.remove(index);
            assert(history_view(self.records@) =~= history_view(before).remove(index as int));
            self.calculate_statistics();
        }
    }

    /// Replaces the comment of record `index`; an index past the end changes
    /// nothing.
    pub fn update_time_comment(&mut self, index: usize, comment: String)
        requires
            old(self).wf(),
        ensures
            final(self).wf(),
            if index < old(self).records@.len() {
                history_view(final(self).records@) == with_comment(
                    history_view(old(self).records@),
                    index as int,
                    comment@,
                )
            } else {
                final(self).records == old(self).records
            },
            final(self).statistics == old(self).statistics,
            final(self).timer == old(self).timer,
            final(self).current_event == old(self).current_event,
            final(self).current_scramble == old(self).current_scramble,
            final(self).available_events == old(self).available_events,
            final(self).custom_events == old(self).custom_events,
    {
        if index < self.records.len() {
            let ghost before = self.records@;
            let mut record = self.records[index].clone();
            record.comment = comment;
            self.records.set(index, record);
            assert(history_view(self.records@) =~= with_comment(
                history_view(before),
                index as int,
                comment@,
            ));
            self.calculate_statistics();
            proof {
                lemma_comment_keeps_counted(history_view(before), index as int, comment@, self.current_event@);
            }
        }
    }

    /// Sets or clears the penalty of record `index` and rebuilds the
    /// statistics; an index past the end changes nothing.
    pub fn apply_penalty(&mut self, index: usize, penalty: Option<Penalty>)
        requires
            old(self).wf(),
        ensures
            final(self).wf(),
            if index < old(self).records@.len() {
                history_view(final(self).records@) == with_penalty(
                    history_view(old(self).records@),
                    index as int,
                    penalty,
                )
            } else {
                final(self).records == old(self).records && final(self).statistics
                    == old(self).statistics
            },
            final(self).timer == old(self).timer,
            final(self).current_event == old(self).current_event,
            final(self).current_scramble == old(self).current_scramble,
            final(self).available_events == old(self).available_events,
            final(self).custom_events == old(self).custom_events,
    {
        if index < self.records.len() {
            let ghost before = self.records@;
            let mut record = self.records[index].clone();
            record.penalty = penalty;
            self.records.set(index, record);
            assert(history_view(self.records@) =~= with_penalty(
                history_view(before),
                index as int,
                penalty,
            ));
            self.calculate_statistics();
        }
    }

    /// Replaces the history with stored records and rebuilds the statistics.
    pub fn load_records(&mut self, records: Vec<TimeRecord>)
        requires
            old(self).wf(),
        ensures
            final(self).wf(),
            final(self).records == records,
            final(self).timer == old(self).timer,
            final(self).current_event == old(self).current_event,
            final(self).current_scramble == old(self).current_scramble,
            final(self).available_events == old(self).available_events,
            final(self).custom_events == old(self).custom_events,
    {
        self.records = records;
        self.calculate_statistics();
    }

    /// The text shown on the timer.
    pub fn timer_text(&self) -> (r: String)
        ensures
            r@ == timer_display(self.timer),
    {
        if self.timer.state == TimerState::Running {
            format_time(self.timer.current_time)
        } else if let Some(last) = self.timer.last_time {
            format_time(last)
        } else {
            String::from_str("0.000")
        }
    }
}

} // verus!
