//! A performance profiler: named timers and recorded durations, with
//! exact summary statistics.  Callers supply the clock readings, so the
//! profiler itself is deterministic and fully specified.

use vstd::prelude::*;

verus! {

/// Summary statistics of one named measurement series, in the time unit
/// the caller's clock readings use.
#[derive(Debug, Clone, Copy, PartialEq, Eq, Structural)]
pub struct ProfilerMetrics {
    /// The smallest recorded duration.
    pub min: u64,
    /// The largest recorded duration.
    pub max: u64,
    /// The mean recorded duration.
    pub avg: u64,
    /// The sum of the recorded durations, saturated at the largest
    /// representable value.
    pub total: u64,
    /// The number of recorded durations.
    pub count: usize,
}

/// A profiler: running timers and the durations recorded so far, both
/// keyed by name.
#[derive(Debug)]
pub struct Profiler {
    /// The running timers: a name and the clock reading at its start.
    pub timers: Vec<(String, u64)>,
    /// The recorded durations, grouped by name.
    pub measurements: Vec<(String, Vec<u64>)>,
}

/// The clock reading a running timer started at.
pub open spec fn spec_timer(s: Seq<(String, u64)>, name: Seq<char>) -> Option<u64>
    decreases s.len(),
{
    if s.len() == 0 {
        None
    } else if s.last().0@ == name {
        Some(s.last().1)
    } else {
        spec_timer(s.drop_last(), name)
    }
}

/// The durations recorded under a name.
pub open spec fn spec_series(s: Seq<(String, Vec<u64>)>, name: Seq<char>) -> Seq<u64>
    decreases s.len(),
{
    if s.len() == 0 {
        Seq::empty()
    } else if s.last().0@ == name {
        s.last().1@
    } else {
        spec_series(s.drop_last(), name)
    }
}

/// The sum of a series, as an unbounded integer.
pub open spec fn spec_sum(s: Seq<u64>) -> int
    decreases s.len(),
{
    if s.len() == 0 {
        0
    } else {
        spec_sum(s.drop_last()) + s.last()
    }
}

/// The smallest element of a nonempty series.
pub open spec fn spec_min_of(s: Seq<u64>) -> u64
    decreases s.len(),
{
    if s.len() <= 1 {
        s[0]
    } else if s.last() < spec_min_of(s.drop_last()) {
        s.last()
    } else {
        spec_min_of(s.drop_last())
    }
}

/// The largest element of a nonempty series.
pub open spec fn spec_max_of(s: Seq<u64>) -> u64
    decreases s.len(),
{
    if s.len() <= 1 {
        s[0]
    } else if s.last() > spec_max_of(s.drop_last()) {
        s.last()
    } else {
        spec_max_of(s.drop_last())
    }
}

/// The sum of a series, saturated at the largest representable value.
pub open spec fn spec_sum_sat(s: Seq<u64>) -> u64 {
    if spec_sum(s) > u64::MAX {
        u64::MAX
    } else {
        spec_sum(s) as u64
    }
}

/// The summary statistics of a nonempty series.
pub open spec fn spec_metrics(s: Seq<u64>) -> ProfilerMetrics {
    ProfilerMetrics {
        min: spec_min_of(s),
        max: spec_max_of(s),
        avg: spec_sum_sat(s) / (s.len() as u64),
        total: spec_sum_sat(s),
        count: s.len() as usize,
    }
}

/// With pairwise distinct names, the series of an entry's name is that
/// entry's durations.
proof fn lemma_series_at_unique(s: Seq<(String, Vec<u64>)>, i: int)
    requires
        names_unique(s),
        0 <= i < s.len(),
    ensures
        spec_series(s, s[i].0@) == s[i].1@,
    decreases s.len(),
{
    if i == s.len() - 1 {
    } else {
        assert(s.last() == s[s.len() - 1]);
        lemma_series_at_unique(s.drop_last(), i);
        assert(s.drop_last()[i] == s[i]);
    }
}

/// Replacing an entry with one of the same name leaves every other name's
/// series unchanged.
proof fn lemma_series_update(s: Seq<(String, Vec<u64>)>, i: int, e: (String, Vec<u64>), n: Seq<char>)
    requires
        0 <= i < s.len(),
        s[i].0@ == e.0@,
        n != e.0@,
    ensures
        spec_series(s.update(i, e), n) == spec_series(s, n),
    decreases s.len(),
{
    let t = s.update(i, e);
    if i == s.len() - 1 {
        assert(t.drop_last() =~= s.drop_last());
    } else {
        assert(t.last() == s.last());
        assert(t.drop_last() =~= s.drop_last().update(i, e));
        lemma_series_update(s.drop_last(), i, e, n);
    }
}

/// Appending an entry changes only its own name's series.
proof fn lemma_series_push(s: Seq<(String, Vec<u64>)>, e: (String, Vec<u64>), n: Seq<char>)
    ensures
        spec_series(s.push(e), n) == if e.0@ == n {
            e.1@
        } else {
            spec_series(s, n)
        },
{
    assert(s.push(e).drop_last() =~= s);
}

/// A name no entry carries has the empty series.
proof fn lemma_series_missing(s: Seq<(String, Vec<u64>)>, n: Seq<char>)
    requires
        forall|j: int| 0 <= j < s.len() ==> (#[trigger] s[j]).0@ != n,
    ensures
        spec_series(s, n) == Seq::<u64>::empty(),
    decreases s.len(),
{
    if s.len() > 0 {
        lemma_series_missing(s.drop_last(), n);
    }
}

/// Whether the entries of a measurement table carry pairwise distinct
/// names.
pub open spec fn names_unique(s: Seq<(String, Vec<u64>)>) -> bool {
    forall|i: int, j: int|
        0 <= i < j < s.len() ==> (#[trigger] s[i]).0@ != (#[trigger] s[j]).0@
}

/// A series sum never goes negative.
proof fn lemma_sum_nonneg(s: Seq<u64>)
    ensures
        spec_sum(s) >= 0,
    decreases s.len(),
{
    if s.len() > 0 {
        lemma_sum_nonneg(s.drop_last());
    }
}

impl Profiler {
    /// Creates a new profiler with no timers and no measurements.
    pub fn new() -> (r: Profiler)
        ensures
            r.timers@.len() == 0,
            r.measurements@.len() == 0,
            names_unique(r.measurements@),
    {
        Profiler { timers: Vec::new(), measurements: Vec::new() }
    }

    /// Starts (or restarts) the named timer at the given clock reading.
    pub fn start(&mut self, name: &str, now: u64)
        ensures
            spec_timer(final(self).timers@, name@) == Some(now),
            final(self).measurements@ == old(self).measurements@,
    {
        self.timers.push((name.to_owned(), now));
    }

    /// Stops the named timer at the given clock reading and records the
    /// elapsed duration; without a running timer of that name, nothing is
    /// recorded.  A clock that moved backwards records zero.
    pub fn stop(&mut self, name: &str, now: u64)
        requires
            names_unique(old(self).measurements@),
        ensures
            names_unique(final(self).measurements@),
            match spec_timer(old(self).timers@, name@) {
                Some(started) => spec_series(final(self).measurements@, name@) == spec_series(
                    old(self).measurements@,
                    name@,
                ).push(
                    if now >= started {
                        (now - started) as u64
                    } else {
                        0u64
                    },
                ),
                None => final(self).measurements@ == old(self).measurements@,
            },
    {
        let name_string = name.to_owned();
        let mut found: bool = false;
        let mut started: u64 = 0;
        let mut i: usize = self.timers.len();
        proof {
            assert(self.timers@.take(self.timers@.len() as int) =~= self.timers@);
        }
        while i > 0 && !found
            invariant
                i <= self.timers@.len(),
                !found ==> spec_timer(self.timers@.take(i as int), name_string@) == spec_timer(
                    self.timers@,
                    name_string@,
                ),
                found ==> spec_timer(self.timers@, name_string@) == Some(started),
                self.timers@ == old(self).timers@,
                self.measurements@ == old(self).measurements@,
                name_string@ == name@,
            decreases i + (if found {
                0int
            } else {
                1int
            }),
        {
            proof {
                assert(self.timers@.take(i as int).last() == self.timers@[i - 1]);
                assert(self.timers@.take(i as int).drop_last() =~= self.timers@.take(i - 1));
            }
            if self.timers[i - 1].0 == name_string {
                started = self.timers[i - 1].1;
                found = true;
            } else {
                i = i - 1;
            }
        }
        if found {
            let duration = if now >= started {
                now - started
            } else {
                0
            };
            self.record(name, duration);
        } else {
            proof {
                assert(spec_timer(self.timers@.take(0), name_string@) is None);
            }
        }
    }

    /// Records one duration under a name, opening the series on first
    /// use.
    pub fn record(&mut self, name: &str, duration: u64)
        requires
            names_unique(old(self).measurements@),
        ensures
            names_unique(final(self).measurements@),
            spec_series(final(self).measurements@, name@) == spec_series(
                old(self).measurements@,
                name@,
            ).push(duration),
            forall|n: Seq<char>|
                n != name@ ==> spec_series(final(self).measurements@, n) == spec_series(
                    old(self).measurements@,
                    n,
                ),
            final(self).timers@ == old(self).timers@,
    {
        let name_string = name.to_owned();
        let mut found: bool = false;
        let mut i: usize = 0;
        while i < self.measurements.len() && !found
            invariant
                i <= self.measurements@.len(),
                !found ==> forall|j: int|
                    0 <= j < i ==> (#[trigger] self.measurements@[j]).0@ != name_string@,
                found ==> i < self.measurements@.len() && self.measurements@[i as int].0@
                    == name_string@,
                self.measurements@ == old(self).measurements@,
                self.timers@ == old(self).timers@,
                name_string@ == name@,
            decreases self.measurements@.len() - i + (if found {
                0int
            } else {
                1int
            }),
        {
            if self.measurements[i].0 == name_string {
                found = true;
            } else {
                i = i + 1;
            }
        }
        if found {
            let ghost prev = self.measurements@;
            proof {
                lemma_series_at_unique(prev, i as int);
            }
            let mut series: Vec<u64> = Vec::new();
            let mut j: usize = 0;
            let ghost source = self.measurements@[i as int].1@;
            while j < self.measurements[i].1.len()
                invariant
                    i < self.measurements@.len(),
                    source == self.measurements@[i as int].1@,
                    j <= source.len(),
                    series@ == source.take(j as int),
                    self.measurements@ == prev,
                decreases source.len() - j,
            {
                series.push(self.measurements[i].1[j]);
                proof {
                    assert(series@ =~= source.take(j + 1));
                }
                j = j + 1;
            }
            proof {
                assert(source.take(source.len() as int) =~= source);
            }
            series.push(duration);
            let _ = self.measurements.remove(i);
            self.measurements.insert(i, (name_string, series));
            proof {
                assert(self.measurements@ =~= prev.update(i as int, self.measurements@[i as int]));
                assert forall|n: Seq<char>| n != name@ implies spec_series(self.measurements@, n)
                    == spec_series(prev, n) by {
                    lemma_series_update(prev, i as int, self.measurements@[i as int], n);
                }
                assert forall|a: int, b: int|
                    0 <= a < b < self.measurements@.len() implies (
                #[trigger] self.measurements@[a]).0@ != (#[trigger] self.measurements@[b]).0@ by {
                    assert(prev[a].0@ != prev[b].0@);
                    assert(self.measurements@[a].0@ == prev[a].0@);
                    assert(self.measurements@[b].0@ == prev[b].0@);
                }
                lemma_series_at_unique(self.measurements@, i as int);
            }
        } else {
            let ghost prev = self.measurements@;
            let mut series: Vec<u64> = Vec::new();
            series.push(duration);
            self.measurements.push((name_string, series));
            proof {
                lemma_series_missing(prev, name@);
                assert forall|n: Seq<char>| true implies spec_series(self.measurements@, n) == (if n
                    == name@ {
                    spec_series(prev, name@).push(duration)
                } else {
                    spec_series(prev, n)
                }) by {
                    lemma_series_push(prev, self.measurements@.last(), n);
                    if n == name@ {
                        assert(self.measurements@.last().1@ =~= spec_series(prev, name@).push(
                            duration,
                        ));
                    }
                }
                assert forall|a: int, b: int|
                    0 <= a < b < self.measurements@.len() implies (
                #[trigger] self.measurements@[a]).0@ != (#[trigger] self.measurements@[b]).0@ by {
                    if b == self.measurements@.len() - 1 {
                        assert(self.measurements@[a] == prev[a]);
                    } else {
                        assert(self.measurements@[a] == prev[a]);
                        assert(self.measurements@[b] == prev[b]);
                    }
                }
            }
        }
    }

    /// Discards every recorded measurement, keeping running timers.
    pub fn reset(&mut self)
        ensures
            final(self).measurements@.len() == 0,
            names_unique(final(self).measurements@),
            final(self).timers@ == old(self).timers@,
            forall|name: Seq<char>| spec_series(final(self).measurements@, name) == Seq::<
                u64,
            >::empty(),
    {
        self.measurements.clear();
    }

    /// Discards every recorded measurement, keeping running timers.
    pub fn clear(&mut self)
        ensures
            final(self).measurements@.len() == 0,
            names_unique(final(self).measurements@),
            final(self).timers@ == old(self).timers@,
    {
        self.measurements.clear();
    }

    /// The summary statistics of every measurement series, in first-use
    /// order.
    pub fn summary(&self) -> (r: Vec<(String, ProfilerMetrics)>)
        ensures
            r@.len() == self.measurements@.len(),
            forall|k: int|
                0 <= k < r@.len() ==> {
                    &&& (#[trigger] r@[k]).0@ == self.measurements@[k].0@
                    &&& self.measurements@[k].1@.len() > 0 ==> r@[k].1 == spec_metrics(
                        self.measurements@[k].1@,
                    )
                },
    {
        let mut result: Vec<(String, ProfilerMetrics)> = Vec::new();
        let mut i: usize = 0;
        while i < self.measurements.len()
            invariant
                i <= self.measurements@.len(),
                result@.len() == i,
                forall|k: int|
                    0 <= k < i ==> {
                        &&& (#[trigger] result@[k]).0@ == self.measurements@[k].0@
                        &&& self.measurements@[k].1@.len() > 0 ==> result@[k].1 == spec_metrics(
                            self.measurements@[k].1@,
                        )
                    },
            decreases self.measurements@.len() - i,
        {
            let durations = &self.measurements[i].1;
            let metrics = if durations.len() == 0 {
                ProfilerMetrics { min: 0, max: 0, avg: 0, total: 0, count: 0 }
            } else {
                let mut min = durations[0];
                let mut max = durations[0];
                let mut total: u64 = durations[0];
                let ghost ds = durations@;
                let mut j: usize = 1;
                proof {
                    assert(ds.take(1).len() == 1);
                    lemma_sum_nonneg(ds.take(1).drop_last());
                    assert(ds.take(1).drop_last() =~= Seq::<u64>::empty());
                }
                while j < durations.len()
                    invariant
                        1 <= j <= ds.len(),
                        ds == durations@,
                        ds.len() == self.measurements@[i as int].1@.len(),
                        i < self.measurements@.len(),
                        durations@ == self.measurements@[i as int].1@,
                        min == spec_min_of(ds.take(j as int)),
                        max == spec_max_of(ds.take(j as int)),
                        total == spec_sum_sat(ds.take(j as int)),
                    decreases ds.len() - j,
                {
                    let d = durations[j];
                    proof {
                        assert(ds.take(j + 1).drop_last() =~= ds.take(j as int));
                        assert(ds.take(j + 1).last() == ds[j as int]);
                        lemma_sum_nonneg(ds.take(j as int));
                    }
                    if d < min {
                        min = d;
                    }
                    if d > max {
                        max = d;
                    }
                    total = if total > u64::MAX - d {
                        u64::MAX
                    } else {
                        total + d
                    };
                    j = j + 1;
                }
                proof {
                    assert(ds.take(ds.len() as int) =~= ds);
                }
                let count = durations.len();
                ProfilerMetrics { min, max, avg: total / (count as u64), total, count }
            };
            result.push((self.measurements[i].0.clone(), metrics));
            i = i + 1;
        }
        result
    }
}

} // verus!
