use vstd::prelude::*;

use crate::event::{CubeEvent, EventView};
use crate::record::{RecordView, TimeRecord};
use crate::stats::{history_view, latest_average, rolling_average};

verus! {

/// The positions in the history of the records of `ev`, oldest first.
pub open spec fn event_indices(rs: Seq<RecordView>, ev: EventView) -> Seq<usize>
    decreases rs.len(),
{
    if rs.len() == 0 {
        Seq::empty()
    } else {
        let prev = event_indices(rs.drop_last(), ev);
        if rs.last().event == ev {
            prev.push((rs.len() - 1) as usize)
        } else {
            prev
        }
    }
}

/// The durations of every record of `ev`, penalised or not, oldest first.
pub open spec fn event_times(rs: Seq<RecordView>, ev: EventView) -> Seq<u64>
    decreases rs.len(),
{
    if rs.len() == 0 {
        Seq::empty()
    } else {
        let prev = event_times(rs.drop_last(), ev);
        if rs.last().event == ev {
            prev.push(rs.last().time)
        } else {
            prev
        }
    }
}

/// The positions in `records` of the records of `event`, oldest first.
pub fn event_record_indices(records: &Vec<TimeRecord>, event: &CubeEvent) -> (r: Vec<usize>)
    ensures
        r@ == event_indices(history_view(records@), event@),
{
    let mut r: Vec<usize> = Vec::new();
    let mut i: usize = 0;
    while i < records.len()
        invariant
            i <= records.len(),
            r@ == event_indices(history_view(records@.subrange(0, i as int)), event@),
        decreases records.len() - i,
    {
        proof {
            let h = history_view(records@.subrange(0, i + 1));
            assert(h.drop_last() =~= history_view(records@.subrange(0, i as int)));
            assert(h.last() == records@[i as int]@);
        }
        if records[i].event == *event {
            r.push(i);
        }
        i = i + 1;
    }
    assert(records@.subrange(0, records.len() as int) =~= records@);
    r
}

/// The durations of every record of `event`, penalised or not, oldest first.
pub fn event_durations(records: &Vec<TimeRecord>, event: &CubeEvent) -> (r: Vec<u64>)
    ensures
        r@ == event_times(history_view(records@), event@),
{
    let mut r: Vec<u64> = Vec::new();
    let mut i: usize = 0;
    while i < records.len()
        invariant
            i <= records.len(),
            r@ == event_times(history_view(records@.subrange(0, i as int)), event@),
        decreases records.len() - i,
    {
        proof {
            let h = history_view(records@.subrange(0, i + 1));
            assert(h.drop_last() =~= history_view(records@.subrange(0, i as int)));
            assert(h.last() == records@[i as int]@);
        }
        if records[i].event == *event {
            r.push(records[i].time);
        }
        i = i + 1;
    }
    assert(records@.subrange(0, records.len() as int) =~= records@);
    r
}

/// For each position, the trimmed mean of the latest `w` durations up to and
/// including it; absent until there are `w`.
pub fn average_series(times: &Vec<u64>, w: usize) -> (r: Vec<Option<u64>>)
    ensures
        r@.len() == times@.len(),
        forall|i: int|
            0 <= i < times@.len() ==> #[trigger] r@[i] == latest_average(
                times@.subrange(0, i + 1),
                w as nat,
            ),
{
    let mut r: Vec<Option<u64>> = Vec::new();
    let mut prefix: Vec<u64> = Vec::new();
    let mut i: usize = 0;
    while i < times.len()
        invariant
            i <= times.len(),
            prefix@ == times@.subrange(0, i as int),
            r@.len() == i,
            forall|j: int|
                0 <= j < i ==> #[trigger] r@[j] == latest_average(
                    times@.subrange(0, j + 1),
                    w as nat,
                ),
        decreases times.len() - i,
    {
        prefix.push(times[i]);
        assert(prefix@ =~= times@.subrange(0, i + 1));
        r.push(rolling_average(&prefix, w));
        i = i + 1;
    }
    r
}

} // verus!
