use vstd::prelude::*;
use vstd::relations::{sorted_by, total_ordering};
use vstd::seq_lib::{group_to_multiset_ensures, lemma_sorted_unique};

use crate::event::{CubeEvent, EventView};
use crate::record::{Penalty, RecordView, TimeRecord};

verus! {

broadcast use group_to_multiset_ensures;

/// Aggregates over the counted solves of one event, in milliseconds.
/// Each value is absent when there are not enough solves for it.
#[derive(Clone, Copy, Debug, PartialEq, Eq, Structural)]
pub struct Statistics {
    pub best: Option<u64>,
    pub worst: Option<u64>,
    pub current_ao5: Option<u64>,
    pub current_ao12: Option<u64>,
    pub current_ao100: Option<u64>,
    pub mean: Option<u64>,
}

/// The views of a list of records.
pub open spec fn history_view(rs: Seq<TimeRecord>) -> Seq<RecordView> {
    rs.map_values(|r: TimeRecord| r@)
}

/// Whether a record takes part in the statistics of `ev`: it belongs to `ev`
/// and is not a DNF. A `+2` solve counts with its stored duration.
pub open spec fn counts_toward(r: RecordView, ev: EventView) -> bool {
    r.event == ev && r.penalty != Some(Penalty::Dnf)
}

/// The durations of the records that count toward `ev`, oldest first.
pub open spec fn counted_times(rs: Seq<RecordView>, ev: EventView) -> Seq<u64>
    decreases rs.len(),
{
    if rs.len() == 0 {
        Seq::empty()
    } else {
        let prev = counted_times(rs.drop_last(), ev);
        if counts_toward(rs.last(), ev) {
            prev.push(rs.last().time)
        } else {
            prev
        }
    }
}

/// The least element of a non-empty sequence.
pub open spec fn seq_min(s: Seq<u64>) -> u64
    recommends
        s.len() > 0,
    decreases s.len(),
{
    if s.len() <= 1 {
        s[0]
    } else {
        let m = seq_min(s.drop_last());
        if s.last() < m {
            s.last()
        } else {
            m
        }
    }
}

/// The greatest element of a non-empty sequence.
pub open spec fn seq_max(s: Seq<u64>) -> u64
    recommends
        s.len() > 0,
    decreases s.len(),
{
    if s.len() <= 1 {
        s[0]
    } else {
        let m = seq_max(s.drop_last());
        if s.last() > m {
            s.last()
        } else {
            m
        }
    }
}

/// The sum of a sequence.
pub open spec fn seq_sum(s: Seq<u64>) -> int
    decreases s.len(),
{
    if s.len() == 0 {
        0
    } else {
        seq_sum(s.drop_last()) + s.last()
    }
}

/// The ordering by duration.
pub open spec fn time_leq() -> spec_fn(u64, u64) -> bool {
    |a: u64, b: u64| a <= b
}

/// The durations in ascending order.
pub open spec fn sorted_times(s: Seq<u64>) -> Seq<u64> {
    s.sort_by(time_leq())
}

/// How many solves are dropped at each end of a window of `n`: 5% of `n`,
/// rounded up.
pub open spec fn trim_count(n: nat) -> nat {
    ((n + 19) / 20) as nat
}

/// The trimmed mean of a window: sort, drop `trim_count` solves at each end,
/// and take the truncated mean of the rest. Absent when nothing would remain.
pub open spec fn trimmed_average(w: Seq<u64>) -> Option<u64> {
    let n = w.len();
    let k = trim_count(n);
    if 2 * k >= n {
        None
    } else {
        let kept = sorted_times(w).subrange(k as int, n - k);
        Some((seq_sum(kept) / kept.len() as int) as u64)
    }
}

/// The trimmed mean of the latest `w` durations, present once there are `w`.
pub open spec fn latest_average(t: Seq<u64>, w: nat) -> Option<u64> {
    if t.len() >= w {
        trimmed_average(t.subrange(t.len() - w, t.len() as int))
    } else {
        None
    }
}

/// The snapshot with no values.
pub open spec fn no_statistics() -> Statistics {
    Statistics {
        best: None,
        worst: None,
        current_ao5: None,
        current_ao12: None,
        current_ao100: None,
        mean: None,
    }
}

/// The statistics of a list of counted durations.
pub open spec fn statistics_of(t: Seq<u64>) -> Statistics {
    if t.len() == 0 {
        no_statistics()
    } else {
        Statistics {
            best: Some(seq_min(t)),
            worst: Some(seq_max(t)),
            current_ao5: latest_average(t, 5),
            current_ao12: latest_average(t, 12),
            current_ao100: latest_average(t, 100),
            mean: Some((seq_sum(t) / t.len() as int) as u64),
        }
    }
}

/// The statistics of event `ev` over a history.
pub open spec fn history_statistics(rs: Seq<RecordView>, ev: EventView) -> Statistics {
    statistics_of(counted_times(rs, ev))
}

pub proof fn lemma_sum_bounds(s: Seq<u64>)
    ensures
        0 <= seq_sum(s) <= s.len() * (u64::MAX as int),
    decreases s.len(),
{
    if s.len() > 0 {
        lemma_sum_bounds(s.drop_last());
    }
}

proof fn lemma_mean_fits(sum: int, n: int)
    requires
        n > 0,
        0 <= sum <= n * (u64::MAX as int),
    ensures
        0 <= sum / n <= u64::MAX,
{
    assert(0 <= sum / n <= u64::MAX) by (nonlinear_arith)
        requires
            n > 0,
            0 <= sum <= n * (u64::MAX as int),
    ;
}

proof fn lemma_time_leq_total()
    ensures
        total_ordering(time_leq()),
{
}

impl Statistics {
    /// The snapshot with no values.
    pub fn empty() -> (r: Statistics)
        ensures
            r == no_statistics(),
    {
        Statistics {
            best: None,
            worst: None,
            current_ao5: None,
            current_ao12: None,
            current_ao100: None,
            mean: None,
        }
    }
}

/// The durations in ascending order.
pub fn sort_times(v: &Vec<u64>) -> (r: Vec<u64>)
    ensures
        r@ == sorted_times(v@),
        r@.len() == v@.len(),
{
    let mut r: Vec<u64> = Vec::new();
    let mut i: usize = 0;
    while i < v.len()
        invariant
            i <= v.len(),
            sorted_by(r@, time_leq()),
            r@.to_multiset() =~= v@.subrange(0, i as int).to_multiset(),
        decreases v.len() - i,
    {
        let x = v[i];
        let mut p: usize = 0;
        while p < r.len() && r[p] <= x
            invariant
                p <= r.len(),
                forall|j: int| 0 <= j < p ==> r@[j] <= x,
            decreases r.len() - p,
        {
            p = p + 1;
        }
        proof {
            assert(v@.subrange(0, i + 1) =~= v@.subrange(0, i as int).push(x));
        }
        let ghost before = r@;
        r.insert(p, x);
        assert(r@ == before.insert(p as int, x));
        assert(v@.subrange(0, i as int).push(x).to_multiset() =~= v@.subrange(
            0,
            i as int,
        ).to_multiset().insert(x));
        assert(sorted_by(r@, time_leq())) by {
            assert forall|a: int, b: int| 0 <= a < b < r@.len() implies #[trigger] time_leq()(
                r@[a],
                r@[b],
            ) by {
                if b < p {
                } else if b == p {
                    assert(r@[a] == before[a]);
                } else if a < p {
                    assert(r@[b] == before[b - 1]);
                    assert(before[p as int] > x || p == before.len());
                    if (p as int) < before.len() {
                        assert(time_leq()(before[a], before[p as int]));
                        if p as int != b - 1 {
                            assert(time_leq()(before[p as int], before[b - 1]));
                        }
                    }
                } else if a == p {
                    assert(r@[b] == before[b - 1]);
                    if p as int != b - 1 {
                        assert(time_leq()(before[p as int], before[b - 1]));
                    }
                } else {
                    assert(time_leq()(before[a - 1], before[b - 1]));
                }
            }
        }
        i = i + 1;
    }
    proof {
        assert(v@.subrange(0, v@.len() as int) =~= v@);
        lemma_time_leq_total();
        v@.lemma_sort_by_ensures(time_leq());
        lemma_sorted_unique(r@, v@.sort_by(time_leq()), time_leq());
        assert(r@.to_multiset().len() == v@.to_multiset().len());
    }
    r
}

/// The sum of `v[from..to]`.
fn sum_range(v: &Vec<u64>, from: usize, to: usize) -> (r: u128)
    requires
        from <= to <= v.len(),
    ensures
        r == seq_sum(v@.subrange(from as int, to as int)),
{
    let mut sum: u128 = 0;
    let mut i: usize = from;
    while i < to
        invariant
            from <= i <= to <= v.len(),
            sum == seq_sum(v@.subrange(from as int, i as int)),
        decreases to - i,
    {
        proof {
            let s = v@.subrange(from as int, i + 1);
            assert(s.drop_last() =~= v@.subrange(from as int, i as int));
            lemma_sum_bounds(v@.subrange(from as int, i as int));
            assert((i - from) * (u64::MAX as int) <= (usize::MAX as int) * (u64::MAX as int))
                by (nonlinear_arith)
                requires
                    i - from <= usize::MAX,
            ;
        }
        sum = sum + v[i] as u128;
        i = i + 1;
    }
    sum
}

/// The trimmed mean of a window of durations: sorted, `trim_count` dropped at
/// each end, the rest averaged.
pub fn calculate_average(times: &Vec<u64>) -> (r: Option<u64>)
    ensures
        r == trimmed_average(times@),
{
    let n = times.len();
    let k: usize = n / 20 + if n % 20 == 0 { 0 } else { 1 };
    assert(k == trim_count(n as nat));
    if k >= n - k {
        return None;
    }
    let sorted = sort_times(times);
    let sum = sum_range(&sorted, k, n - k);
    let count = n - 2 * k;
    proof {
        let kept = sorted@.subrange(k as int, n - k);
        lemma_sum_bounds(kept);
        lemma_mean_fits(sum as int, count as int);
    }
    Some((sum / count as u128) as u64)
}

/// The latest `w` durations, oldest first.
fn last_window(times: &Vec<u64>, w: usize) -> (r: Vec<u64>)
    requires
        w <= times.len(),
    ensures
        r@ == times@.subrange(times.len() - w, times.len() as int),
{
    let mut r: Vec<u64> = Vec::new();
    let mut i: usize = times.len() - w;
    while i < times.len()
        invariant
            w <= times.len(),
            times.len() - w <= i <= times.len(),
            r@ == times@.subrange(times.len() - w, i as int),
        decreases times.len() - i,
    {
        r.push(times[i]);
        i = i + 1;
        assert(r@ =~= times@.subrange(times.len() - w, i as int));
    }
    r
}

/// The trimmed mean of the latest `w` durations, once there are `w`.
pub fn rolling_average(times: &Vec<u64>, w: usize) -> (r: Option<u64>)
    ensures
        r == latest_average(times@, w as nat),
{
    if times.len() >= w {
        let window = last_window(times, w);
        calculate_average(&window)
    } else {
        None
    }
}

/// Fills in best, worst and mean of a non-empty list of durations.
fn calculate_basic_stats(times: &Vec<u64>, stats: &mut Statistics)
    requires
        times.len() > 0,
    ensures
        final(stats).best == Some(seq_min(times@)),
        final(stats).worst == Some(seq_max(times@)),
        final(stats).mean == Some((seq_sum(times@) / times@.len() as int) as u64),
        final(stats).current_ao5 == old(stats).current_ao5,
        final(stats).current_ao12 == old(stats).current_ao12,
        final(stats).current_ao100 == old(stats).current_ao100,
{
    let mut best = times[0];
    let mut worst = times[0];
    let mut i: usize = 1;
    while i < times.len()
        invariant
            1 <= i <= times.len(),
            best == seq_min(times@.subrange(0, i as int)),
            worst == seq_max(times@.subrange(0, i as int)),
        decreases times.len() - i,
    {
        assert(times@.subrange(0, i + 1).drop_last() =~= times@.subrange(0, i as int));
        if times[i] < best {
            best = times[i];
        }
        if times[i] > worst {
            worst = times[i];
        }
        i = i + 1;
    }
    assert(times@.subrange(0, times.len() as int) =~= times@);
    let sum = sum_range(times, 0, times.len());
    proof {
        lemma_sum_bounds(times@);
        lemma_mean_fits(sum as int, times.len() as int);
    }
    stats.best = Some(best);
    stats.worst = Some(worst);
    stats.mean = Some((sum / times.len() as u128) as u64);
}

/// Fills in the rolling averages over the latest 5, 12 and 100 durations.
fn calculate_averages(times: &Vec<u64>, stats: &mut Statistics)
    ensures
        final(stats).current_ao5 == latest_average(times@, 5),
        final(stats).current_ao12 == latest_average(times@, 12),
        final(stats).current_ao100 == latest_average(times@, 100),
        final(stats).best == old(stats).best,
        final(stats).worst == old(stats).worst,
        final(stats).mean == old(stats).mean,
{
    stats.current_ao5 = rolling_average(times, 5);
    stats.current_ao12 = rolling_average(times, 12);
    stats.current_ao100 = rolling_average(times, 100);
}

/// The statistics of a list of counted durations, oldest first.
pub fn statistics_from_times(times: &Vec<u64>) -> (r: Statistics)
    ensures
        r == statistics_of(times@),
{
    let mut stats = Statistics::empty();
    if times.len() == 0 {
        return stats;
    }
    calculate_basic_stats(times, &mut stats);
    calculate_averages(times, &mut stats);
    stats
}

/// The durations of the records that count toward `event`, oldest first.
pub fn counted_durations(records: &Vec<TimeRecord>, event: &CubeEvent) -> (r: Vec<u64>)
    ensures
        r@ == counted_times(history_view(records@), event@),
{
    let mut r: Vec<u64> = Vec::new();
    let mut i: usize = 0;
    while i < records.len()
        invariant
            i <= records.len(),
            r@ == counted_times(history_view(records@.subrange(0, i as int)), event@),
        decreases records.len() - i,
    {
        let rec = &records[i];
        proof {
            let h = history_view(records@.subrange(0, i + 1));
            assert(h.drop_last() =~= history_view(records@.subrange(0, i as int)));
            assert(h.last() == rec@);
        }
        if rec.event == *event && !rec.is_dnf() {
            r.push(rec.time);
        }
        i = i + 1;
    }
    assert(records@.subrange(0, records.len() as int) =~= records@);
    r
}

/// The statistics of `event` over a history: built afresh from the records of
/// that event that are not DNF.
pub fn calculate_statistics(records: &Vec<TimeRecord>, event: &CubeEvent) -> (r: Statistics)
    ensures
        r == history_statistics(history_view(records@), event@),
{
    let times = counted_durations(records, event);
    statistics_from_times(&times)
}

} // verus!
