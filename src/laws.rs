use vstd::prelude::*;

use crate::event::EventView;
use crate::record::{Penalty, RecordView};
use crate::session::with_penalty;
use crate::stats::{
    counted_times, counts_toward, history_statistics, latest_average, seq_max, seq_min, seq_sum,
    sorted_times, statistics_of, time_leq, trim_count, trimmed_average,
};
use vstd::relations::{sorted_by, total_ordering};
use vstd::seq_lib::lemma_sorted_unique;
use vstd::seq_lib::{to_multiset_contains, to_multiset_len};
use crate::timer::{elapsed, ends_solve, key_step, TimerMachine, TimerState};

verus! {

/// Reading the key in the position it was just read in changes nothing, so
/// a noisy input that repeats an edge acts as if it gave the edge once.
pub proof fn lemma_repeated_reading_is_ignored(m: TimerMachine, pressed: bool, first: u64, again: u64)
    ensures
        key_step(key_step(m, pressed, first), pressed, again) == key_step(m, pressed, first),
        !ends_solve(key_step(m, pressed, first), pressed),
{
}

/// A press from `Ready` followed by a release before the hold threshold
/// returns to `Ready`: no solve starts, none is recorded, and the shown
/// times are untouched.
pub proof fn lemma_short_hold_returns_to_ready(m: TimerMachine, press_at: u64, release_at: u64)
    requires
        m.wf(),
        m.state == TimerState::Ready,
        !m.space_pressed,
        elapsed(release_at, press_at) < m.key_preparation_time,
    ensures
        key_step(m, true, press_at).state == TimerState::Preparing,
        key_step(key_step(m, true, press_at), false, release_at).state == TimerState::Ready,
        key_step(key_step(m, true, press_at), false, release_at).start_time.is_none(),
        key_step(key_step(m, true, press_at), false, release_at).current_time == m.current_time,
        key_step(key_step(m, true, press_at), false, release_at).last_time == m.last_time,
        !ends_solve(m, true),
        !ends_solve(key_step(m, true, press_at), false),
{
}

/// Holding the key for exactly the threshold and releasing starts the solve;
/// releasing one millisecond earlier does not.
pub proof fn lemma_hold_threshold_is_inclusive(m: TimerMachine, press_at: u64)
    requires
        m.wf(),
        m.state == TimerState::Ready,
        !m.space_pressed,
        m.key_preparation_time >= 1,
        press_at + m.key_preparation_time <= u64::MAX,
    ensures
        key_step(
            key_step(m, true, press_at),
            false,
            (press_at + m.key_preparation_time) as u64,
        ).state == TimerState::Running,
        key_step(
            key_step(m, true, press_at),
            false,
            (press_at + m.key_preparation_time - 1) as u64,
        ).state == TimerState::Ready,
{
}

/// A press while a solve runs ends it: the phase becomes `Stopped` and the
/// solve's duration is `now - start`.
pub proof fn lemma_press_while_running_stops(m: TimerMachine, now: u64)
    requires
        m.wf(),
        m.state == TimerState::Running,
        !m.space_pressed,
    ensures
        ends_solve(m, true),
        key_step(m, true, now).state == TimerState::Stopped,
        key_step(m, true, now).current_time == elapsed(now, m.start_time->0),
        key_step(m, true, now).start_time.is_none(),
        key_step(m, true, now).space_hold_start.is_none(),
{
}

proof fn lemma_min_is_lowest(t: Seq<u64>)
    requires
        t.len() > 0,
    ensures
        t.contains(seq_min(t)),
        forall|i: int| 0 <= i < t.len() ==> seq_min(t) <= t[i],
    decreases t.len(),
{
    if t.len() > 1 {
        lemma_min_is_lowest(t.drop_last());
        assert forall|i: int| 0 <= i < t.len() implies seq_min(t) <= t[i] by {
            if i < t.len() - 1 {
                assert(t[i] == t.drop_last()[i]);
            }
        }
        let m = seq_min(t.drop_last());
        if t.last() >= m {
            let j = choose|j: int| 0 <= j < t.drop_last().len() && t.drop_last()[j] == m;
            assert(t[j] == m);
        } else {
            assert(t[t.len() - 1] == t.last());
        }
    } else {
        assert(t[0] == seq_min(t));
    }
}

/// The best time is one of the counted durations and no counted duration
/// is lower, whatever order the solves were recorded in.
pub proof fn lemma_best_is_lowest(rs: Seq<RecordView>, ev: EventView)
    ensures
        history_statistics(rs, ev).best is Some <==> counted_times(rs, ev).len() > 0,
        history_statistics(rs, ev).best matches Some(b) ==> {
            &&& counted_times(rs, ev).contains(b)
            &&& forall|i: int|
                0 <= i < counted_times(rs, ev).len() ==> b <= #[trigger] counted_times(rs, ev)[i]
        },
{
    let t = counted_times(rs, ev);
    if t.len() > 0 {
        lemma_min_is_lowest(t);
    }
}

/// The best time depends only on which durations count, not on the order
/// in which they were recorded.
pub proof fn lemma_best_ignores_order(t1: Seq<u64>, t2: Seq<u64>)
    requires
        t1.to_multiset() == t2.to_multiset(),
    ensures
        statistics_of(t1).best == statistics_of(t2).best,
{
    to_multiset_len(t1);
    to_multiset_len(t2);
    if t1.len() > 0 {
        assert(t2.len() > 0);
        lemma_min_is_lowest(t1);
        lemma_min_is_lowest(t2);
        let m1 = seq_min(t1);
        let m2 = seq_min(t2);
        to_multiset_contains(t1, m1);
        to_multiset_contains(t2, m1);
        to_multiset_contains(t2, m2);
        to_multiset_contains(t1, m2);
        assert(t2.contains(m1));
        assert(t1.contains(m2));
        let i = choose|i: int| 0 <= i < t2.len() && t2[i] == m1;
        let j = choose|j: int| 0 <= j < t1.len() && t1[j] == m2;
        assert(m2 <= t2[i]);
        assert(m1 <= t1[j]);
    } else {
        assert(t2.len() == 0);
    }
}

/// A rolling average over a window of three or more solves is present
/// exactly when that many solves count.
pub proof fn lemma_average_present_once_window_full(t: Seq<u64>, w: nat)
    requires
        w >= 3,
    ensures
        latest_average(t, w) is Some <==> t.len() >= w,
{
    let k = trim_count(w);
    assert(2 * k < w) by (nonlinear_arith)
        requires
            w >= 3,
            k == (w + 19) / 20,
    ;
}

/// The average of five is present exactly when five or more solves count.
pub proof fn lemma_average_of_five_needs_five(t: Seq<u64>)
    ensures
        latest_average(t, 5) is Some <==> t.len() >= 5,
{
    lemma_average_present_once_window_full(t, 5);
}

/// With four counted solves there is no average of five; recording a fifth
/// counted solve makes it present at once.
pub proof fn lemma_fifth_solve_gives_average(rs: Seq<RecordView>, ev: EventView, r: RecordView)
    requires
        counted_times(rs, ev).len() == 4,
        counts_toward(r, ev),
    ensures
        history_statistics(rs, ev).current_ao5 is None,
        history_statistics(rs.push(r), ev).current_ao5 is Some,
{
    assert(rs.push(r).drop_last() =~= rs);
    lemma_average_of_five_needs_five(counted_times(rs, ev));
    lemma_average_of_five_needs_five(counted_times(rs.push(r), ev));
}

/// Marking record `i` DNF leaves the counted durations of the history
/// without that record.
pub proof fn lemma_dnf_counts_as_removed(rs: Seq<RecordView>, i: int, ev: EventView)
    requires
        0 <= i < rs.len(),
    ensures
        counted_times(with_penalty(rs, i, Some(Penalty::Dnf)), ev) == counted_times(rs.remove(i), ev),
    decreases rs.len(),
{
    let marked = with_penalty(rs, i, Some(Penalty::Dnf));
    if i < rs.len() - 1 {
        assert(marked.drop_last() =~= with_penalty(rs.drop_last(), i, Some(Penalty::Dnf)));
        assert(rs.remove(i).drop_last() =~= rs.drop_last().remove(i));
        lemma_dnf_counts_as_removed(rs.drop_last(), i, ev);
        assert(marked.last() == rs.last());
        assert(rs.remove(i).last() == rs.last());
    } else {
        assert(marked.drop_last() =~= rs.drop_last());
        assert(rs.remove(i) =~= rs.drop_last());
    }
}

/// Marking a record DNF removes its contribution from the statistics;
/// putting its former penalty back restores them.
pub proof fn lemma_dnf_then_revert(rs: Seq<RecordView>, i: int, ev: EventView)
    requires
        0 <= i < rs.len(),
    ensures
        history_statistics(with_penalty(rs, i, Some(Penalty::Dnf)), ev) == history_statistics(
            rs.remove(i),
            ev,
        ),
        with_penalty(with_penalty(rs, i, Some(Penalty::Dnf)), i, rs[i].penalty) == rs,
        history_statistics(
            with_penalty(with_penalty(rs, i, Some(Penalty::Dnf)), i, rs[i].penalty),
            ev,
        ) == history_statistics(rs, ev),
{
    lemma_dnf_counts_as_removed(rs, i, ev);
    assert(with_penalty(with_penalty(rs, i, Some(Penalty::Dnf)), i, rs[i].penalty) =~= rs);
}

proof fn lemma_max_is_highest(t: Seq<u64>)
    requires
        t.len() > 0,
    ensures
        t.contains(seq_max(t)),
        forall|i: int| 0 <= i < t.len() ==> t[i] <= seq_max(t),
    decreases t.len(),
{
    if t.len() > 1 {
        lemma_max_is_highest(t.drop_last());
        assert forall|i: int| 0 <= i < t.len() implies t[i] <= seq_max(t) by {
            if i < t.len() - 1 {
                assert(t[i] == t.drop_last()[i]);
            }
        }
        let m = seq_max(t.drop_last());
        if t.last() <= m {
            let j = choose|j: int| 0 <= j < t.drop_last().len() && t.drop_last()[j] == m;
            assert(t[j] == m);
        } else {
            assert(t[t.len() - 1] == t.last());
        }
    } else {
        assert(t[0] == seq_max(t));
    }
}

proof fn lemma_sum_remove(t: Seq<u64>, j: int)
    requires
        0 <= j < t.len(),
    ensures
        seq_sum(t) == seq_sum(t.remove(j)) + t[j],
    decreases t.len(),
{
    if j == t.len() - 1 {
        assert(t.remove(j) =~= t.drop_last());
    } else {
        assert(t.remove(j).drop_last() =~= t.drop_last().remove(j));
        assert(t.remove(j).last() == t.last());
        lemma_sum_remove(t.drop_last(), j);
    }
}

/// A position of `x` in a sequence whose multiset holds it, with the
/// multiset of the rest.
proof fn lemma_find_in_permutation<A>(t: Seq<A>, x: A) -> (j: int)
    requires
        t.to_multiset().count(x) > 0,
    ensures
        0 <= j < t.len(),
        t[j] == x,
        t.remove(j).to_multiset() =~= t.to_multiset().remove(x),
{
    to_multiset_contains(t, x);
    let j = choose|j: int| 0 <= j < t.len() && t[j] == x;
    t.to_multiset_ensures();
    j
}

/// Taking the last element off a sequence takes it off its multiset.
proof fn lemma_drop_last_multiset<A>(t: Seq<A>)
    requires
        t.len() > 0,
    ensures
        t.to_multiset().count(t.last()) > 0,
        t.drop_last().to_multiset() =~= t.to_multiset().remove(t.last()),
{
    t.drop_last().to_multiset_ensures();
    assert(t.drop_last().push(t.last()) =~= t);
}

proof fn lemma_sum_ignores_order(t1: Seq<u64>, t2: Seq<u64>)
    requires
        t1.to_multiset() == t2.to_multiset(),
    ensures
        seq_sum(t1) == seq_sum(t2),
    decreases t1.len(),
{
    to_multiset_len(t1);
    to_multiset_len(t2);
    if t1.len() > 0 {
        lemma_drop_last_multiset(t1);
        let j = lemma_find_in_permutation(t2, t1.last());
        lemma_sum_ignores_order(t1.drop_last(), t2.remove(j));
        lemma_sum_remove(t2, j);
    }
}

proof fn lemma_counted_remove(rs: Seq<RecordView>, j: int, ev: EventView)
    requires
        0 <= j < rs.len(),
    ensures
        counted_times(rs, ev).to_multiset() =~= (if counts_toward(rs[j], ev) {
            counted_times(rs.remove(j), ev).to_multiset().insert(rs[j].time)
        } else {
            counted_times(rs.remove(j), ev).to_multiset()
        }),
    decreases rs.len(),
{
    counted_times(rs.drop_last(), ev).to_multiset_ensures();
    if j == rs.len() - 1 {
        assert(rs.remove(j) =~= rs.drop_last());
    } else {
        assert(rs.remove(j).drop_last() =~= rs.drop_last().remove(j));
        assert(rs.remove(j).last() == rs.last());
        lemma_counted_remove(rs.drop_last(), j, ev);
        counted_times(rs.drop_last().remove(j), ev).to_multiset_ensures();
    }
}

proof fn lemma_counted_ignores_order(rs1: Seq<RecordView>, rs2: Seq<RecordView>, ev: EventView)
    requires
        rs1.to_multiset() == rs2.to_multiset(),
    ensures
        counted_times(rs1, ev).to_multiset() == counted_times(rs2, ev).to_multiset(),
    decreases rs1.len(),
{
    to_multiset_len(rs1);
    to_multiset_len(rs2);
    if rs1.len() > 0 {
        lemma_drop_last_multiset(rs1);
        let j = lemma_find_in_permutation(rs2, rs1.last());
        lemma_counted_ignores_order(rs1.drop_last(), rs2.remove(j), ev);
        lemma_counted_remove(rs2, j, ev);
        counted_times(rs1.drop_last(), ev).to_multiset_ensures();
    } else {
        assert(rs2.len() == 0);
    }
}

proof fn lemma_worst_ignores_order(t1: Seq<u64>, t2: Seq<u64>)
    requires
        t1.to_multiset() == t2.to_multiset(),
    ensures
        statistics_of(t1).worst == statistics_of(t2).worst,
{
    to_multiset_len(t1);
    to_multiset_len(t2);
    if t1.len() > 0 {
        lemma_max_is_highest(t1);
        lemma_max_is_highest(t2);
        let m1 = seq_max(t1);
        let m2 = seq_max(t2);
        to_multiset_contains(t1, m1);
        to_multiset_contains(t2, m1);
        to_multiset_contains(t2, m2);
        to_multiset_contains(t1, m2);
        let i = choose|i: int| 0 <= i < t2.len() && t2[i] == m1;
        let j = choose|j: int| 0 <= j < t1.len() && t1[j] == m2;
        assert(t2[i] <= m2);
        assert(t1[j] <= m1);
    }
}

/// Recording the same solves in any other order leaves the best, worst and
/// mean of every category unchanged.
pub proof fn lemma_statistics_ignore_record_order(
    rs1: Seq<RecordView>,
    rs2: Seq<RecordView>,
    ev: EventView,
)
    requires
        rs1.to_multiset() == rs2.to_multiset(),
    ensures
        history_statistics(rs1, ev).best == history_statistics(rs2, ev).best,
        history_statistics(rs1, ev).worst == history_statistics(rs2, ev).worst,
        history_statistics(rs1, ev).mean == history_statistics(rs2, ev).mean,
{
    let t1 = counted_times(rs1, ev);
    let t2 = counted_times(rs2, ev);
    lemma_counted_ignores_order(rs1, rs2, ev);
    to_multiset_len(t1);
    to_multiset_len(t2);
    lemma_best_ignores_order(t1, t2);
    lemma_worst_ignores_order(t1, t2);
    lemma_sum_ignores_order(t1, t2);
}

/// The trimmed mean of a window does not depend on the order of its
/// durations.
pub proof fn lemma_trimmed_average_ignores_order(w1: Seq<u64>, w2: Seq<u64>)
    requires
        w1.to_multiset() == w2.to_multiset(),
    ensures
        trimmed_average(w1) == trimmed_average(w2),
{
    assert(total_ordering(time_leq()));
    w1.lemma_sort_by_ensures(time_leq());
    w2.lemma_sort_by_ensures(time_leq());
    to_multiset_len(w1);
    to_multiset_len(w2);
    lemma_sorted_unique(sorted_times(w1), sorted_times(w2), time_leq());
}

/// The trimmed mean of five durations drops exactly the lowest and the
/// highest and averages the middle three.
pub proof fn lemma_average_of_five_drops_extremes(w: Seq<u64>)
    requires
        w.len() == 5,
    ensures
        trimmed_average(w) == Some(((seq_sum(w) - seq_min(w) - seq_max(w)) / 3) as u64),
{
    let s = sorted_times(w);
    assert(total_ordering(time_leq()));
    w.lemma_sort_by_ensures(time_leq());
    to_multiset_len(w);
    to_multiset_len(s);
    assert(trim_count(5) == 1);
    lemma_sum_ignores_order(s, w);
    lemma_min_is_lowest(w);
    lemma_max_is_highest(w);
    let lo = seq_min(w);
    let hi = seq_max(w);
    to_multiset_contains(w, lo);
    to_multiset_contains(s, lo);
    to_multiset_contains(w, hi);
    to_multiset_contains(s, hi);
    to_multiset_contains(s, s[0]);
    to_multiset_contains(w, s[0]);
    to_multiset_contains(s, s[4]);
    to_multiset_contains(w, s[4]);
    let a = choose|a: int| 0 <= a < s.len() && s[a] == lo;
    let b = choose|b: int| 0 <= b < s.len() && s[b] == hi;
    let c = choose|c: int| 0 <= c < w.len() && w[c] == s[0];
    let d = choose|d: int| 0 <= d < w.len() && w[d] == s[4];
    assert(sorted_by(s, time_leq()));
    if a != 0 {
        assert(time_leq()(s[0], s[a]));
    }
    if b != 4 {
        assert(time_leq()(s[b], s[4]));
    }
    assert(s[0] == lo);
    assert(s[4] == hi);
    let kept = s.subrange(1, 4);
    reveal_with_fuel(seq_sum, 6);
    assert(s.drop_last().drop_last().drop_last().drop_last().drop_last().len() == 0);
    assert(kept.drop_last().drop_last().drop_last().len() == 0);
    assert(seq_sum(s) == s[0] + s[1] + s[2] + s[3] + s[4]);
    assert(seq_sum(kept) == s[1] + s[2] + s[3]);
}

} // verus!
