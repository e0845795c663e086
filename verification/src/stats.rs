use vstd::prelude::*;

verus! {

/// What a [`Stats`] holds.
pub struct StatsView {
    pub enabled: bool,
    pub shakes: nat,
    pub reels: nat,
    pub fishes: nat,
    pub total_fishing_time: nat,
    pub max_fishing_time: nat,
    pub min_fishing_time: nat,
}

impl StatsView {
    /// The longest and shortest fishing times agree with each other and with the
    /// total: no positive time recorded yet means the longest time is 0 and the
    /// shortest is `u64::MAX`; otherwise the shortest is at most the longest, which
    /// is at most the total.
    pub open spec fn wf(self) -> bool {
        &&& self.max_fishing_time <= self.total_fishing_time
        &&& self.max_fishing_time == 0 ==> self.min_fishing_time == u64::MAX
        &&& self.max_fishing_time > 0 ==> self.min_fishing_time <= self.max_fishing_time
        &&& self.max_fishing_time > 0 ==> self.fishes > 0
        &&& self.min_fishing_time <= u64::MAX
    }

    /// The statistics after one more fish, caught in `time` seconds.
    pub open spec fn after_fishing(self, time: nat) -> StatsView {
        StatsView {
            fishes: self.fishes + 1,
            total_fishing_time: self.total_fishing_time + time,
            max_fishing_time: if time > self.max_fishing_time {
                time
            } else {
                self.max_fishing_time
            },
            min_fishing_time: if time > 0 && time < self.min_fishing_time {
                time
            } else {
                self.min_fishing_time
            },
            ..self
        }
    }

    /// The report printed for these statistics.
    pub open spec fn report(self) -> StatsReport {
        StatsReport {
            shakes: self.shakes as u64,
            reels: self.reels as u64,
            missed: (self.reels - self.fishes) as u64,
            fishes: self.fishes as u64,
            times: if self.max_fishing_time != 0 {
                Some(
                    FishingTimes {
                        average: (self.total_fishing_time / self.fishes) as u64,
                        max: self.max_fishing_time as u64,
                        min: self.min_fishing_time as u64,
                    },
                )
            } else {
                None
            },
        }
    }

    /// The report can be computed: no more fishes than reels, and some fish when
    /// some positive fishing time was recorded.
    pub open spec fn reportable(self) -> bool {
        &&& self.fishes <= self.reels
        &&& self.max_fishing_time != 0 ==> self.fishes > 0
    }
}

/// Fishing times, in seconds.
#[derive(Clone, Copy, Debug, PartialEq, Eq, Structural)]
pub struct FishingTimes {
    /// Mean fishing time per fish: total fishing time divided by the number of fishes.
    pub average: u64,
    pub max: u64,
    pub min: u64,
}

/// The figures printed at the end of a session.
#[derive(Clone, Copy, Debug, PartialEq, Eq, Structural)]
pub struct StatsReport {
    pub shakes: u64,
    /// Reel attempts.
    pub reels: u64,
    /// Reel attempts that caught no fish.
    pub missed: u64,
    pub fishes: u64,
    /// Present once some fish took a positive time.
    pub times: Option<FishingTimes>,
}

/// Counters of a fishing session.
pub struct Stats {
    pub enabled: bool,
    /// Shake count
    pub shakes: Box<u64>,
    /// Reel count
    pub reels: Box<u64>,
    /// Fish count
    fishes: Box<u64>,
    /// Total fishing time in seconds
    total_fishing_time: Box<u64>,
    /// Maximum fishing time in seconds
    max_fishing_time: Box<u64>,
    /// Minimum fishing time in seconds
    min_fishing_time: Box<u64>,
}

impl View for Stats {
    type V = StatsView;

    closed spec fn view(&self) -> StatsView {
        StatsView {
            enabled: self.enabled,
            shakes: *self.shakes as nat,
            reels: *self.reels as nat,
            fishes: *self.fishes as nat,
            total_fishing_time: *self.total_fishing_time as nat,
            max_fishing_time: *self.max_fishing_time as nat,
            min_fishing_time: *self.min_fishing_time as nat,
        }
    }
}

impl Stats {
    /// Fresh statistics: every counter at 0, no fishing time yet.
    pub fn new(enabled: bool) -> (s: Stats)
        ensures
            s@ == (StatsView {
                enabled,
                shakes: 0,
                reels: 0,
                fishes: 0,
                total_fishing_time: 0,
                max_fishing_time: 0,
                min_fishing_time: u64::MAX as nat,
            }),
            s@.wf(),
    {
        Stats {
            enabled,
            reels: Box::new(0),
            shakes: Box::new(0),
            fishes: Box::new(0),
            total_fishing_time: Box::new(0),
            max_fishing_time: Box::new(u64::MIN),
            min_fishing_time: Box::new(u64::MAX),
        }
    }

    /// Counts one more fish, caught in `time` seconds.
    pub fn add_fishing_time(&mut self, time: u64)
        requires
            old(self)@.fishes < u64::MAX,
            old(self)@.total_fishing_time + time <= u64::MAX,
        ensures
            final(self)@ == old(self)@.after_fishing(time as nat),
    {
        *self.fishes = *self.fishes + 1;
        *self.total_fishing_time = *self.total_fishing_time + time;
        *self.max_fishing_time = if time > *self.max_fishing_time {
            time
        } else {
            *self.max_fishing_time
        };
        if time > 0 {
            *self.min_fishing_time = if time < *self.min_fishing_time {
                time
            } else {
                *self.min_fishing_time
            };
        }
    }

    /// Counts one more shake.
    pub fn record_shake(&mut self)
        requires
            old(self)@.shakes < u64::MAX,
        ensures
            final(self)@ == (StatsView { shakes: old(self)@.shakes + 1, ..old(self)@ }),
    {
        *self.shakes = *self.shakes + 1;
    }

    /// Counts one more reel attempt, when statistics are enabled.
    pub fn record_reel(&mut self)
        requires
            old(self)@.enabled ==> old(self)@.reels < u64::MAX,
        ensures
            final(self)@ == (if old(self)@.enabled {
                StatsView { reels: old(self)@.reels + 1, ..old(self)@ }
            } else {
                old(self)@
            }),
    {
        if self.enabled {
            *self.reels = *self.reels + 1;
        }
    }

    /// Whether statistics are kept for printing.
    pub fn is_enabled(&self) -> (e: bool)
        ensures
            e == self@.enabled,
    {
        self.enabled
    }

    /// Number of shakes.
    pub fn shakes(&self) -> (n: u64)
        ensures
            n == self@.shakes,
    {
        *self.shakes
    }

    /// Number of reel attempts.
    pub fn reels(&self) -> (n: u64)
        ensures
            n == self@.reels,
    {
        *self.reels
    }

    /// Number of fishes caught.
    pub fn fishes(&self) -> (n: u64)
        ensures
            n == self@.fishes,
    {
        *self.fishes
    }

    /// Total fishing time, in seconds.
    pub fn total_fishing_time(&self) -> (t: u64)
        ensures
            t == self@.total_fishing_time,
    {
        *self.total_fishing_time
    }

    /// Longest fishing time, in seconds (0 before any positive time).
    pub fn max_fishing_time(&self) -> (t: u64)
        ensures
            t == self@.max_fishing_time,
    {
        *self.max_fishing_time
    }

    /// Shortest positive fishing time, in seconds (`u64::MAX` before any).
    pub fn min_fishing_time(&self) -> (t: u64)
        ensures
            t == self@.min_fishing_time,
    {
        *self.min_fishing_time
    }

    /// The figures of the session report.
    pub fn print_stats(self) -> (r: StatsReport)
        requires
            self@.reportable(),
        ensures
            r == self@.report(),
            r.shakes == self@.shakes && r.reels == self@.reels && r.fishes == self@.fishes,
            r.missed + r.fishes == r.reels,
            r.times is Some <==> self@.max_fishing_time != 0,
            r.times matches Some(t) ==> {
                &&& t.average * self@.fishes <= self@.total_fishing_time < (t.average + 1)
                    * self@.fishes
                &&& t.max == self@.max_fishing_time
                &&& t.min == self@.min_fishing_time
            },
    {
        proof {
            lemma_counters_fit(&self);
            lemma_report_is_mean(self@);
        }
        let times = if *self.max_fishing_time != u64::MIN {
            Some(
                FishingTimes {
                    average: *self.total_fishing_time / *self.fishes,
                    max: *self.max_fishing_time,
                    min: *self.min_fishing_time,
                },
            )
        } else {
            None
        };
        StatsReport {
            shakes: *self.shakes,
            reels: *self.reels,
            missed: *self.reels - *self.fishes,
            fishes: *self.fishes,
            times,
        }
    }

    /// The session report to print, or `None` when statistics are disabled.
    pub fn print(self) -> (r: Option<StatsReport>)
        requires
            self@.enabled ==> self@.reportable(),
        ensures
            r == (if self@.enabled {
                Some(self@.report())
            } else {
                None
            }),
    {
        if self.enabled {
            Some(self.print_stats())
        } else {
            None
        }
    }
}

/// The statistics after fishes caught in the given times, in order.
pub open spec fn after_all(s: StatsView, times: Seq<nat>) -> StatsView
    decreases times.len(),
{
    if times.len() == 0 {
        s
    } else {
        after_all(s, times.drop_last()).after_fishing(times.last())
    }
}

/// Sum of `times`.
pub open spec fn total_of(times: Seq<nat>) -> nat
    decreases times.len(),
{
    if times.len() == 0 {
        0
    } else {
        total_of(times.drop_last()) + times.last()
    }
}

/// The statistics of a fresh session.
pub open spec fn fresh_stats(enabled: bool) -> StatsView {
    StatsView {
        enabled,
        shakes: 0,
        reels: 0,
        fishes: 0,
        total_fishing_time: 0,
        max_fishing_time: 0,
        min_fishing_time: u64::MAX as nat,
    }
}

/// Counting two fishes gives the same statistics in either order.
pub proof fn lemma_fishing_commutes(s: StatsView, a: nat, b: nat)
    ensures
        s.after_fishing(a).after_fishing(b) == s.after_fishing(b).after_fishing(a),
{
}

/// Counting the fish of `times[i]` last gives the same statistics as counting
/// it at its place.
pub proof fn lemma_fishing_moved_last(s: StatsView, times: Seq<nat>, i: int)
    requires
        0 <= i < times.len(),
    ensures
        after_all(s, times) == after_all(s, times.remove(i)).after_fishing(times[i]),
    decreases times.len(),
{
    if i == times.len() - 1 {
        assert(times.remove(i) =~= times.drop_last());
    } else {
        let rest = times.remove(i);
        assert(rest.drop_last() =~= times.drop_last().remove(i));
        assert(rest.last() == times.last());
        lemma_fishing_moved_last(s, times.drop_last(), i);
        lemma_fishing_commutes(after_all(s, times.drop_last().remove(i)), times[i], times.last());
    }
}

/// The order in which fishing times are counted does not matter: the same times
/// in any order give the same statistics.
pub proof fn lemma_fishing_order_irrelevant(s: StatsView, times1: Seq<nat>, times2: Seq<nat>)
    requires
        times1.to_multiset() == times2.to_multiset(),
    ensures
        after_all(s, times1) == after_all(s, times2),
    decreases times1.len(),
{
    broadcast use vstd::seq_lib::group_to_multiset_ensures;

    if times1.len() == 0 {
        assert(times2.to_multiset().len() == 0);
        assert(times2.len() == 0);
    } else {
        let x = times1.last();
        assert(times1.contains(x)) by {
            assert(times1[times1.len() - 1] == x);
        }
        assert(times2.to_multiset().count(x) > 0);
        assert(times2.contains(x));
        let i = choose|i: int| 0 <= i < times2.len() && times2[i] == x;
        assert(times1.remove(times1.len() - 1) =~= times1.drop_last());
        assert(times1.drop_last().to_multiset() =~= times2.remove(i).to_multiset());
        lemma_fishing_order_irrelevant(s, times1.drop_last(), times2.remove(i));
        lemma_fishing_moved_last(s, times2, i);
    }
}

/// From fresh statistics, counting fishes caught in `times` gives: one fish per
/// time, their sum as the total, their largest as the longest time (0 for none),
/// and their smallest positive one as the shortest (`u64::MAX` for none); the
/// result is consistent.
pub proof fn lemma_fresh_then_fishing(enabled: bool, times: Seq<nat>)
    requires
        forall|k: int| 0 <= k < times.len() ==> times[k] <= u64::MAX,
    ensures
        ({
            let r = after_all(fresh_stats(enabled), times);
            &&& r.fishes == times.len()
            &&& r.total_fishing_time == total_of(times)
            &&& forall|k: int| 0 <= k < times.len() ==> times[k] <= r.max_fishing_time
            &&& r.max_fishing_time == 0 || exists|k: int|
                0 <= k < times.len() && times[k] == r.max_fishing_time
            &&& forall|k: int|
                0 <= k < times.len() && times[k] > 0 ==> r.min_fishing_time <= times[k]
            &&& r.min_fishing_time == u64::MAX || exists|k: int|
                0 <= k < times.len() && times[k] > 0 && times[k] == r.min_fishing_time
            &&& r.wf()
            &&& r.enabled == enabled && r.shakes == 0 && r.reels == 0
        }),
    decreases times.len(),
{
    if times.len() > 0 {
        let init = times.drop_last();
        lemma_fresh_then_fishing(enabled, init);
        let r0 = after_all(fresh_stats(enabled), init);
        let r = after_all(fresh_stats(enabled), times);
        let t = times.last();
        assert(r == r0.after_fishing(t));
        assert forall|k: int| 0 <= k < times.len() implies times[k] <= r.max_fishing_time by {
            if k < times.len() - 1 {
                assert(times[k] == init[k]);
            }
        }
        assert forall|k: int|
            0 <= k < times.len() && times[k] > 0 implies r.min_fishing_time <= times[k] by {
            if k < times.len() - 1 {
                assert(times[k] == init[k]);
            }
        }
        if r.max_fishing_time != 0 {
            if r.max_fishing_time == t {
                assert(times[times.len() - 1] == t);
            } else {
                let k = choose|k: int| 0 <= k < init.len() && init[k] == r0.max_fishing_time;
                assert(times[k] == init[k]);
            }
        }
        if r.min_fishing_time != u64::MAX {
            if t > 0 && t < r0.min_fishing_time {
                assert(times[times.len() - 1] == t);
            } else {
                let k = choose|k: int|
                    0 <= k < init.len() && init[k] > 0 && init[k] == r0.min_fishing_time;
                assert(times[k] == init[k]);
            }
        }
        lemma_stats_stay_consistent(r0, t);
    }
}

/// Every counter of a [`Stats`] fits in a `u64`.
pub proof fn lemma_counters_fit(s: &Stats)
    ensures
        s@.shakes <= u64::MAX,
        s@.reels <= u64::MAX,
        s@.fishes <= u64::MAX,
        s@.total_fishing_time <= u64::MAX,
        s@.max_fishing_time <= u64::MAX,
        s@.min_fishing_time <= u64::MAX,
{
}

/// Fresh statistics are consistent, and counting a fish keeps them so.
pub proof fn lemma_stats_stay_consistent(s: StatsView, time: nat)
    requires
        s.wf(),
        time <= u64::MAX,
    ensures
        s.after_fishing(time).wf(),
        s.after_fishing(time).max_fishing_time >= time,
        time > 0 ==> s.after_fishing(time).min_fishing_time <= time,
{
}

/// The reported average is the mean fishing time per fish, rounded down: the
/// largest whole number of seconds that, times the number of fishes, stays
/// within the total; longest and shortest times are reported as kept.
pub proof fn lemma_report_is_mean(s: StatsView)
    requires
        s.reportable(),
        s.total_fishing_time <= u64::MAX,
        s.max_fishing_time <= u64::MAX,
        s.min_fishing_time <= u64::MAX,
        s.fishes <= u64::MAX,
        s.reels <= u64::MAX,
        s.shakes <= u64::MAX,
    ensures
        s.report().shakes == s.shakes && s.report().reels == s.reels && s.report().fishes
            == s.fishes,
        s.report().missed + s.report().fishes == s.report().reels,
        s.report().times is Some <==> s.max_fishing_time != 0,
        s.report().times matches Some(t) ==> {
            &&& t.average * s.fishes <= s.total_fishing_time < (t.average + 1) * s.fishes
            &&& t.max == s.max_fishing_time
            &&& t.min == s.min_fishing_time
        },
{
    if s.max_fishing_time != 0 {
        let q = s.total_fishing_time / s.fishes;
        assert(q * s.fishes <= s.total_fishing_time < (q + 1) * s.fishes) by (nonlinear_arith)
            requires
                s.fishes > 0,
                q == s.total_fishing_time / s.fishes,
        ;
        assert(q <= s.total_fishing_time) by (nonlinear_arith)
            requires
                s.fishes > 0,
                q == s.total_fishing_time / s.fishes,
        ;
    }
}

/// In a report, reels are split into missed ones and catches, and the average
/// fishing time is at most the total time.
pub proof fn lemma_report_adds_up(s: StatsView)
    requires
        s.wf(),
        s.reportable(),
        s.reels <= u64::MAX,
        s.total_fishing_time <= u64::MAX,
    ensures
        s.report().missed + s.report().fishes == s.report().reels,
        s.report().times matches Some(t) ==> t.average <= s.total_fishing_time && t.min <= t.max,
{
    if s.max_fishing_time != 0 {
        assert(s.total_fishing_time / s.fishes <= s.total_fishing_time) by (nonlinear_arith)
            requires
                s.fishes > 0,
        ;
    }
}

} // verus!
