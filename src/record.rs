use vstd::prelude::*;

use crate::event::{CubeEvent, EventView};

verus! {

/// A penalty tag on a solve.
#[derive(Clone, Copy, Debug, PartialEq, Eq, Hash, Structural)]
pub enum Penalty {
    /// Two seconds added at display time; the stored duration is unchanged.
    Plus2,
    /// Did not finish: the solve takes no part in the statistics.
    Dnf,
}

/// One completed solve.
#[derive(Debug)]
pub struct TimeRecord {
    /// Elapsed solve time in milliseconds.
    pub time: u64,
    pub event: CubeEvent,
    pub scramble: String,
    /// Wall-clock creation time, in milliseconds since the Unix epoch.
    pub timestamp: i64,
    pub penalty: Option<Penalty>,
    pub comment: String,
}

/// The values a record holds.
pub ghost struct RecordView {
    pub time: u64,
    pub event: EventView,
    pub scramble: Seq<char>,
    pub timestamp: i64,
    pub penalty: Option<Penalty>,
    pub comment: Seq<char>,
}

impl View for TimeRecord {
    type V = RecordView;

    open spec fn view(&self) -> RecordView {
        RecordView {
            time: self.time,
            event: self.event@,
            scramble: self.scramble@,
            timestamp: self.timestamp,
            penalty: self.penalty,
            comment: self.comment@,
        }
    }
}

/// A freshly completed solve: no penalty and an empty comment.
pub open spec fn fresh_record(
    time: u64,
    event: EventView,
    scramble: Seq<char>,
    timestamp: i64,
) -> RecordView {
    RecordView { time, event, scramble, timestamp, penalty: None, comment: Seq::empty() }
}

impl TimeRecord {
    /// Creates the record of a solve that just completed.
    pub fn new(time: u64, event: CubeEvent, scramble: String, timestamp: i64) -> (r: TimeRecord)
        ensures
            r@ == fresh_record(time, event@, scramble@, timestamp),
    {
        TimeRecord { time, event, scramble, timestamp, penalty: None, comment: String::new() }
    }

    /// Whether the record is tagged as not finished.
    pub fn is_dnf(&self) -> (r: bool)
        ensures
            r == (self.penalty == Some(Penalty::Dnf)),
    {
        match self.penalty {
            Some(Penalty::Dnf) => true,
            _ => false,
        }
    }
}

impl Clone for TimeRecord {
    fn clone(&self) -> (r: Self)
        ensures
            r@ == self@,
    {
        TimeRecord {
            time: self.time,
            event: self.event.clone(),
            scramble: self.scramble.clone(),
            timestamp: self.timestamp,
            penalty: self.penalty,
            comment: self.comment.clone(),
        }
    }
}

} // verus!
