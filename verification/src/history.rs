//! Bounded rolling window of probe outcomes for one endpoint.
//!
//! Each measurement is either a latency or an error, never both; the window
//! keeps at most `cap()` entries, newest at the tail, dropping the oldest on
//! overflow.

use vstd::prelude::*;

verus! {

/// Default window length.
pub const DEFAULT_LATENCY_HISTORY_SIZE: usize = 20;

/// Latency used as a sentinel for a failed endpoint; treated as infinite in
/// comparisons, so no real measurement may carry it.
pub const FAILED_ENDPOINT_LATENCY: u64 = 999_999;

/// One probe outcome: a latency on success, an error message on failure.
#[derive(Debug, PartialEq, Eq)]
pub struct LatencyMeasurement {
    pub timestamp_ms: u64,
    pub latency: Option<u64>,
    pub error: Option<String>,
}

impl LatencyMeasurement {
    /// Exactly one of latency and error is present, and a real latency stays
    /// below the failure sentinel.
    pub open spec fn wf(&self) -> bool {
        &&& self.latency is Some <==> self.error is None
        &&& self.latency is Some ==> self.latency->0 < FAILED_ENDPOINT_LATENCY
    }
}

impl Clone for LatencyMeasurement {
    fn clone(&self) -> (r: Self)
        ensures
            r == *self,
    {
        LatencyMeasurement {
            timestamp_ms: self.timestamp_ms,
            latency: self.latency,
            error: crate::strutil::clone_opt_string(&self.error),
        }
    }
}

/// `s` with `m` appended, truncated from the front to at most `cap` entries.
pub open spec fn bounded_push(
    s: Seq<LatencyMeasurement>,
    m: LatencyMeasurement,
    cap: nat,
) -> Seq<LatencyMeasurement> {
    let pushed = s.push(m);
    if pushed.len() <= cap {
        pushed
    } else {
        pushed.subrange(pushed.len() - cap, pushed.len() as int)
    }
}

/// Sum of the latencies of the successful measurements in `s`.
pub open spec fn sum_latencies(s: Seq<LatencyMeasurement>) -> int
    decreases s.len(),
{
    if s.len() == 0 {
        0
    } else {
        sum_latencies(s.drop_last()) + if s.last().latency is Some {
            s.last().latency->0 as int
        } else {
            0
        }
    }
}

/// Number of successful measurements in `s`.
pub open spec fn count_successes(s: Seq<LatencyMeasurement>) -> nat
    decreases s.len(),
{
    if s.len() == 0 {
        0
    } else {
        count_successes(s.drop_last()) + if s.last().latency is Some {
            1nat
        } else {
            0nat
        }
    }
}

/// Number of failed measurements in `s`.
pub open spec fn count_failures(s: Seq<LatencyMeasurement>) -> nat
    decreases s.len(),
{
    if s.len() == 0 {
        0
    } else {
        count_failures(s.drop_last()) + if s.last().latency is None {
            1nat
        } else {
            0nat
        }
    }
}

/// Bounded FIFO of measurements, oldest first.
#[derive(Debug, PartialEq, Eq)]
pub struct LatencyHistory {
    measurements: Vec<LatencyMeasurement>,
    max_size: usize,
}

/// Copies a measurement vector entry for entry.
#[verifier::loop_isolation(false)]
fn clone_measurements(v: &Vec<LatencyMeasurement>) -> (r: Vec<LatencyMeasurement>)
    ensures
        r@ == v@,
{
    let mut measurements: Vec<LatencyMeasurement> = Vec::new();
    let mut i: usize = 0;
    while i < v.len()
        invariant
            0 <= i <= v.len(),
            measurements@ == v@.subrange(0, i as int),
        decreases v.len() - i,
    {
        measurements.push(v[i].clone());
        proof {
            assert(measurements@ =~= v@.subrange(0, i + 1));
        }
        i += 1;
    }
    proof {
        assert(v@.subrange(0, v@.len() as int) =~= v@);
    }
    measurements
}

impl Clone for LatencyHistory {
    fn clone(&self) -> (r: Self)
        ensures
            r.view() == self.view(),
            r.cap() == self.cap(),
    {
        LatencyHistory { measurements: clone_measurements(&self.measurements), max_size: self.max_size }
    }
}

impl LatencyHistory {
    /// The measurements, oldest first.
    pub closed spec fn view(&self) -> Seq<LatencyMeasurement> {
        self.measurements@
    }

    /// The capacity of the window.
    pub closed spec fn cap(&self) -> nat {
        self.max_size as nat
    }

    /// The window never exceeds its capacity and holds only well-formed
    /// measurements.
    pub open spec fn wf(&self) -> bool {
        &&& self.view().len() <= self.cap()
        &&& forall|i: int| 0 <= i < self.view().len() ==> #[trigger] self.view()[i].wf()
    }

    /// An empty window with the given capacity.
    pub fn new(max_size: usize) -> (r: Self)
        ensures
            r.view() == Seq::<LatencyMeasurement>::empty(),
            r.cap() == max_size,
            r.wf(),
    {
        LatencyHistory { measurements: Vec::new(), max_size }
    }

    /// An empty window with the default capacity.
    pub fn new_default() -> (r: Self)
        ensures
            r.view() == Seq::<LatencyMeasurement>::empty(),
            r.cap() == DEFAULT_LATENCY_HISTORY_SIZE,
            r.wf(),
    {
        Self::new(DEFAULT_LATENCY_HISTORY_SIZE)
    }

    /// Appends one measurement taken at `now_ms`, dropping the oldest entries
    /// if the window would overflow.
    #[verifier::loop_isolation(false)]
    pub fn add_measurement(&mut self, latency: Option<u64>, error: Option<String>, now_ms: u64)
        requires
            old(self).wf(),
            latency is Some <==> error is None,
            latency is Some ==> latency->0 < FAILED_ENDPOINT_LATENCY,
        ensures
            final(self).view() == bounded_push(
                old(self).view(),
                LatencyMeasurement { timestamp_ms: now_ms, latency, error },
                old(self).cap(),
            ),
            final(self).cap() == old(self).cap(),
            final(self).wf(),
    {
        let measurement = LatencyMeasurement { timestamp_ms: now_ms, latency, error };
        self.measurements.push(measurement);
        while self.measurements.len() > self.max_size
            invariant
                self.measurements@.len() > self.max_size ==> self.measurements@
                    == old(self).view().push(
                    LatencyMeasurement { timestamp_ms: now_ms, latency, error },
                ),
                self.measurements@.len() <= self.max_size ==> self.measurements@ == bounded_push(
                    old(self).view(),
                    LatencyMeasurement { timestamp_ms: now_ms, latency, error },
                    old(self).cap(),
                ),
                self.max_size == old(self).max_size,
                forall|i: int|
                    0 <= i < self.measurements@.len() ==> #[trigger] self.measurements@[i].wf(),
            decreases self.measurements.len(),
        {
            let ghost before = self.measurements@;
            let _ = self.measurements.remove(0);
            proof {
                assert(self.measurements@ =~= before.subrange(1, before.len() as int));
                assert(self.measurements@ =~= bounded_push(
                    old(self).view(),
                    LatencyMeasurement { timestamp_ms: now_ms, latency, error },
                    old(self).cap(),
                ));
            }
        }
    }

    /// All measurements, oldest first.
    pub fn get_measurements(&self) -> (r: &Vec<LatencyMeasurement>)
        ensures
            r@ == self.view(),
    {
        &self.measurements
    }

    /// The measurements, newest first, copied.
    #[verifier::loop_isolation(false)]
    pub fn measurements_newest_first(&self) -> (r: Vec<LatencyMeasurement>)
        ensures
            r@ == self.view().reverse(),
    {
        let mut r: Vec<LatencyMeasurement> = Vec::new();
        let mut taken: usize = 0;
        while taken < self.measurements.len()
            invariant
                0 <= taken <= self.measurements@.len(),
                r@.len() == taken,
                forall|j: int|
                    0 <= j < taken ==> #[trigger] r@[j] == self.measurements@[self.measurements@.len()
                        - 1 - j],
            decreases self.measurements@.len() - taken,
        {
            r.push(self.measurements[self.measurements.len() - 1 - taken].clone());
            taken += 1;
        }
        proof {
            assert(r@ =~= self.view().reverse());
        }
        r
    }

    /// The most recent measurement, if any.
    pub fn get_latest(&self) -> (r: Option<&LatencyMeasurement>)
        ensures
            match r {
                Some(m) => self.view().len() > 0 && *m == self.view().last(),
                None => self.view().len() == 0,
            },
    {
        if self.measurements.len() > 0 {
            Some(&self.measurements[self.measurements.len() - 1])
        } else {
            None
        }
    }

    /// Mean of the successful latencies; absent when none succeeded.
    #[verifier::loop_isolation(false)]
    pub fn average_latency(&self) -> (r: Option<u64>)
        requires
            self.wf(),
        ensures
            r == if count_successes(self.view()) == 0 {
                None::<u64>
            } else {
                Some((sum_latencies(self.view()) / count_successes(self.view()) as int) as u64)
            },
    {
        let mut sum: u128 = 0;
        let mut count: u64 = 0;
        let mut i: usize = 0;
        while i < self.measurements.len()
            invariant
                0 <= i <= self.measurements.len(),
                sum == sum_latencies(self.measurements@.subrange(0, i as int)),
                count == count_successes(self.measurements@.subrange(0, i as int)),
                count <= i,
                sum <= i * (FAILED_ENDPOINT_LATENCY - 1),
            decreases self.measurements.len() - i,
        {
            proof {
                assert(self.measurements@.subrange(0, i + 1).drop_last() =~= self
                    .measurements@
                    .subrange(0, i as int));
                assert(self.measurements@[i as int].wf());
            }
            match self.measurements[i].latency {
                Some(latency) => {
                    sum = sum + latency as u128;
                    count = count + 1;
                },
                None => {},
            }
            i += 1;
        }
        proof {
            assert(self.measurements@.subrange(0, self.measurements@.len() as int) =~= self
                .measurements@);
        }
        if count == 0 {
            None
        } else {
            Some((sum / count as u128) as u64)
        }
    }

    /// Failures among the most recent `recent_count` measurements.
    #[verifier::loop_isolation(false)]
    pub fn recent_failure_count(&self, recent_count: usize) -> (r: usize)
        ensures
            r == count_failures(
                self.view().skip(
                    if self.view().len() >= recent_count {
                        self.view().len() - recent_count
                    } else {
                        0
                    },
                ),
            ),
    {
        let start: usize = if self.measurements.len() >= recent_count {
            self.measurements.len() - recent_count
        } else {
            0
        };
        let mut count: usize = 0;
        let mut i: usize = start;
        while i < self.measurements.len()
            invariant
                start <= i <= self.measurements.len(),
                count == count_failures(self.measurements@.subrange(start as int, i as int)),
                count <= i - start,
            decreases self.measurements.len() - i,
        {
            proof {
                assert(self.measurements@.subrange(start as int, i + 1).drop_last() =~= self
                    .measurements@
                    .subrange(start as int, i as int));
            }
            if self.measurements[i].latency.is_none() {
                count += 1;
            }
            i += 1;
        }
        proof {
            assert(self.measurements@.subrange(start as int, self.measurements@.len() as int)
                =~= self.measurements@.skip(start as int));
        }
        count
    }
}

/// Law: a history never exceeds its capacity; with the default capacity it
/// holds at most twenty measurements, however many are recorded.
pub proof fn lemma_history_bounded(h: LatencyHistory)
    requires
        h.wf(),
    ensures
        h.view().len() <= h.cap(),
        h.cap() == DEFAULT_LATENCY_HISTORY_SIZE ==> h.view().len() <= 20,
{
}

impl Default for LatencyHistory {
    fn default() -> (r: Self)
        ensures
            r.view() == Seq::<LatencyMeasurement>::empty(),
            r.cap() == DEFAULT_LATENCY_HISTORY_SIZE,
            r.wf(),
    {
        Self::new(DEFAULT_LATENCY_HISTORY_SIZE)
    }
}

} // verus!
