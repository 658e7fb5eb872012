//! Load classification and dynamic health-check interval scheduling.
//!
//! The classifier maps the number of active connections and the request rate
//! of the last minute to one of four load levels; the scheduler turns the
//! level (and, when idle, the idle duration) into the next probe interval.

use vstd::prelude::*;

verus! {

/// Four-level load signal derived from tracker state and request arrivals.
#[derive(Debug, Clone, Copy, PartialEq, Eq, Structural)]
pub enum LoadLevel {
    Idle,
    Low,
    Medium,
    High,
}

/// The classification rule; the first matching row wins.
pub open spec fn spec_classify(active_count: u32, requests_last_minute: nat) -> LoadLevel {
    if active_count > 10 {
        LoadLevel::High
    } else if requests_last_minute > 30 {
        LoadLevel::High
    } else if active_count >= 4 || requests_last_minute >= 10 {
        LoadLevel::Medium
    } else if active_count >= 1 || requests_last_minute >= 2 {
        LoadLevel::Low
    } else {
        LoadLevel::Idle
    }
}

/// Number of instants in `s` at or after `cutoff`.
pub open spec fn count_at_least(s: Seq<u64>, cutoff: u64) -> nat
    decreases s.len(),
{
    if s.len() == 0 {
        0
    } else {
        count_at_least(s.drop_last(), cutoff) + if s.last() >= cutoff {
            1nat
        } else {
            0nat
        }
    }
}

/// `s` with its leading entries below `cutoff` removed.
pub open spec fn trim_before(s: Seq<u64>, cutoff: u64) -> Seq<u64>
    decreases s.len(),
{
    if s.len() > 0 && s[0] < cutoff {
        trim_before(s.subrange(1, s.len() as int), cutoff)
    } else {
        s
    }
}

/// The instant `window_ms` before `now_ms`, floored at zero.
pub open spec fn window_cutoff(now_ms: u64, window_ms: u64) -> u64 {
    if now_ms >= window_ms {
        (now_ms - window_ms) as u64
    } else {
        0
    }
}

/// Request arrivals of the last five minutes plus the current load level and
/// when it last changed.
#[derive(Debug)]
pub struct LoadMetrics {
    recent_requests: Vec<u64>,
    current_load_level: LoadLevel,
    last_load_change_ms: u64,
}

impl LoadMetrics {
    /// Arrival instants kept, oldest first.
    pub closed spec fn requests(&self) -> Seq<u64> {
        self.recent_requests@
    }

    /// The instant the load level last changed.
    pub closed spec fn last_change_ms(&self) -> u64 {
        self.last_load_change_ms
    }

    /// The current level, as a spec value.
    pub closed spec fn level(&self) -> LoadLevel {
        self.current_load_level
    }

    /// Arrival instants are kept in nondecreasing order.
    pub open spec fn wf(&self) -> bool {
        forall|i: int, j: int|
            0 <= i <= j < self.requests().len() ==> self.requests()[i] <= self.requests()[j]
    }

    /// Fresh metrics: no arrivals, idle, level unchanged since `now_ms`.
    pub fn new(now_ms: u64) -> (r: Self)
        ensures
            r.requests() == Seq::<u64>::empty(),
            r.level() == LoadLevel::Idle,
            r.last_change_ms() == now_ms,
            r.wf(),
    {
        LoadMetrics {
            recent_requests: Vec::new(),
            current_load_level: LoadLevel::Idle,
            last_load_change_ms: now_ms,
        }
    }

    /// Records one request arrival at `now_ms`.
    pub fn record_request(&mut self, now_ms: u64)
        requires
            old(self).wf(),
            forall|i: int|
                0 <= i < old(self).requests().len() ==> old(self).requests()[i] <= now_ms,
        ensures
            final(self).requests() == old(self).requests().push(now_ms),
            final(self).level() == old(self).level(),
            final(self).last_change_ms() == old(self).last_change_ms(),
            final(self).wf(),
    {
        self.recent_requests.push(now_ms);
    }

    /// Requests seen in the minute before `now_ms`.
    #[verifier::loop_isolation(false)]
    pub fn get_request_rate(&self, now_ms: u64) -> (r: usize)
        ensures
            r == count_at_least(self.requests(), window_cutoff(now_ms, 60_000)),
    {
        let cutoff: u64 = if now_ms >= 60_000 {
            now_ms - 60_000
        } else {
            0
        };
        let mut count: usize = 0;
        let mut i: usize = 0;
        while i < self.recent_requests.len()
            invariant
                0 <= i <= self.recent_requests.len(),
                count == count_at_least(self.recent_requests@.subrange(0, i as int), cutoff),
                count <= i,
                cutoff == window_cutoff(now_ms, 60_000),
            decreases self.recent_requests.len() - i,
        {
            proof {
                assert(self.recent_requests@.subrange(0, i + 1).drop_last() =~= self
                    .recent_requests@
                    .subrange(0, i as int));
            }
            if self.recent_requests[i] >= cutoff {
                count += 1;
            }
            i += 1;
        }
        proof {
            assert(self.recent_requests@.subrange(0, self.recent_requests@.len() as int) =~= self
                .recent_requests@);
        }
        count
    }

    /// The current load level.
    pub fn get_load_level(&self) -> (r: LoadLevel)
        ensures
            r == self.level(),
    {
        self.current_load_level
    }

    /// The instant the load level last changed.
    pub fn get_last_change_ms(&self) -> (r: u64)
        ensures
            r == self.last_change_ms(),
    {
        self.last_load_change_ms
    }

    /// Drops arrivals older than five minutes, reclassifies from
    /// `active_count` and the arrivals of the last minute, and stamps the
    /// change instant when the level moved.
    #[verifier::loop_isolation(false)]
    pub fn update(&mut self, active_count: u32, now_ms: u64)
        requires
            old(self).wf(),
        ensures
            final(self).requests() == trim_before(
                old(self).requests(),
                window_cutoff(now_ms, 300_000),
            ),
            final(self).level() == spec_classify(
                active_count,
                count_at_least(final(self).requests(), window_cutoff(now_ms, 60_000)),
            ),
            final(self).last_change_ms() == if final(self).level() == old(self).level() {
                old(self).last_change_ms()
            } else {
                now_ms
            },
            final(self).wf(),
    {
        let cutoff: u64 = if now_ms >= 300_000 {
            now_ms - 300_000
        } else {
            0
        };
        while self.recent_requests.len() > 0 && self.recent_requests[0] < cutoff
            invariant
                trim_before(self.recent_requests@, cutoff) == trim_before(
                    old(self).requests(),
                    cutoff,
                ),
                self.current_load_level == old(self).current_load_level,
                self.last_load_change_ms == old(self).last_load_change_ms,
                self.wf(),
            decreases self.recent_requests.len(),
        {
            let ghost before = self.recent_requests@;
            proof {
                assert(self.wf());
                assert(self.requests() == before);
                assert(forall|x: int, y: int|
                    0 <= x <= y < before.len() ==> before[x] <= before[y]);
            }
            let _ = self.recent_requests.remove(0);
            proof {
                assert(self.recent_requests@ =~= before.subrange(1, before.len() as int));
                assert forall|a: int, b: int|
                    0 <= a <= b < self.recent_requests@.len() implies self.recent_requests@[a]
                    <= self.recent_requests@[b] by {
                    assert(before[a + 1] <= before[b + 1]);
                }
            }
        }
        proof {
            assert(trim_before(self.recent_requests@, cutoff) == self.recent_requests@);
        }
        let requests_last_minute = self.get_request_rate(now_ms);
        let new_level = classify_load(active_count, requests_last_minute);
        if !load_level_eq(new_level, self.current_load_level) {
            self.current_load_level = new_level;
            self.last_load_change_ms = now_ms;
        }
    }
}

/// The scheduler's unclamped interval while idle, in seconds: the base
/// interval stretched piecewise linearly with the idle duration, approaching
/// the maximum after half an hour.
pub open spec fn idle_interval(base: u64, maxi: u64, idle_secs: u64) -> int {
    if idle_secs <= 60 {
        base as int
    } else if idle_secs <= 300 {
        base * (420 + idle_secs) / 480
    } else if idle_secs <= 900 {
        base * (idle_secs + 300) / 400
    } else if idle_secs <= 1800 {
        base * (5 * idle_secs - 1800) / 900
    } else {
        let progress: int = if idle_secs - 1800 <= 1800 {
            idle_secs - 1800
        } else {
            1800
        };
        if maxi >= 8 * base {
            8 * base + (maxi - 8 * base) * progress / 1800
        } else {
            8 * base - (8 * base - maxi) * progress / 1800
        }
    }
}

/// `v` clamped into the closed interval from `mini` to `maxi`.
pub open spec fn clamp_interval(v: int, mini: u64, maxi: u64) -> u64 {
    if v < mini {
        mini
    } else if v > maxi {
        maxi
    } else {
        v as u64
    }
}

/// The scheduler's interval, in seconds, for a given load level, request
/// rate, and idle duration. High load takes the minimum interval directly;
/// the other levels scale the base interval and clamp it into the configured
/// bounds.
pub open spec fn spec_interval(
    base: u64,
    mini: u64,
    maxi: u64,
    level: LoadLevel,
    requests_last_minute: nat,
    idle_secs: u64,
) -> u64 {
    match level {
        LoadLevel::High => mini,
        LoadLevel::Medium => clamp_interval(
            if requests_last_minute > 5 {
                base * 6 / 5
            } else {
                base * 3 / 2
            },
            mini,
            maxi,
        ),
        LoadLevel::Low => clamp_interval(
            if requests_last_minute > 2 {
                base * 2
            } else {
                base * 5 / 2
            },
            mini,
            maxi,
        ),
        LoadLevel::Idle => clamp_interval(idle_interval(base, maxi, idle_secs), mini, maxi),
    }
}

/// Chooses the next health-check interval from the configured bounds and the
/// observed load.
#[derive(Debug)]
pub struct DynamicHealthChecker {
    load_metrics: LoadMetrics,
    base_interval_secs: u64,
    min_interval_secs: u64,
    max_interval_secs: u64,
    dynamic_enabled: bool,
}

impl DynamicHealthChecker {
    /// The load metrics driving the scheduler.
    pub closed spec fn metrics(&self) -> LoadMetrics {
        self.load_metrics
    }

    /// Base interval, in seconds.
    pub closed spec fn base_secs(&self) -> u64 {
        self.base_interval_secs
    }

    /// Lower bound, in seconds.
    pub closed spec fn min_secs(&self) -> u64 {
        self.min_interval_secs
    }

    /// Upper bound, in seconds.
    pub closed spec fn max_secs(&self) -> u64 {
        self.max_interval_secs
    }

    /// Whether dynamic scaling is on.
    pub closed spec fn dynamic_enabled_spec(&self) -> bool {
        self.dynamic_enabled
    }

    /// A scheduler over the configuration's intervals, idle as of `now_ms`.
    pub fn new(config: &crate::config::Config, now_ms: u64) -> (r: Self)
        ensures
            r.metrics().requests() == Seq::<u64>::empty(),
            r.metrics().level() == LoadLevel::Idle,
            r.metrics().last_change_ms() == now_ms,
            r.metrics().wf(),
            r.base_secs() == config.health_check.interval_seconds,
            r.min_secs() == match config.health_check.min_interval_seconds {
                Some(m) => m,
                None => 30,
            },
            r.max_secs() == match config.health_check.max_interval_seconds {
                Some(m) => m,
                None => 3600,
            },
            r.dynamic_enabled_spec() == config.health_check.dynamic_scaling,
    {
        DynamicHealthChecker {
            load_metrics: LoadMetrics::new(now_ms),
            base_interval_secs: config.health_check_interval(),
            min_interval_secs: config.min_health_check_interval(),
            max_interval_secs: config.max_health_check_interval(),
            dynamic_enabled: config.is_dynamic_scaling_enabled(),
        }
    }

    /// The next interval, in seconds. With scaling off this is the base
    /// interval and the metrics are left alone; otherwise the metrics are
    /// brought up to date first and the interval follows the level, the
    /// request rate, and the idle duration.
    pub fn calculate_interval(&mut self, active_count: u32, now_ms: u64) -> (r: u64)
        requires
            old(self).metrics().wf(),
        ensures
            final(self).base_secs() == old(self).base_secs(),
            final(self).min_secs() == old(self).min_secs(),
            final(self).max_secs() == old(self).max_secs(),
            final(self).dynamic_enabled_spec() == old(self).dynamic_enabled_spec(),
            final(self).metrics().wf(),
            !old(self).dynamic_enabled_spec() ==> r == old(self).base_secs() && *final(self)
                == *old(self),
            old(self).dynamic_enabled_spec() ==> final(self).metrics().requests() == trim_before(
                old(self).metrics().requests(),
                window_cutoff(now_ms, 300_000),
            ),
            old(self).dynamic_enabled_spec() ==> final(self).metrics().level() == spec_classify(
                active_count,
                count_at_least(final(self).metrics().requests(), window_cutoff(now_ms, 60_000)),
            ),
            old(self).dynamic_enabled_spec() ==> final(self).metrics().last_change_ms()
                == if final(self).metrics().level() == old(self).metrics().level() {
                old(self).metrics().last_change_ms()
            } else {
                now_ms
            },
            old(self).dynamic_enabled_spec() ==> r == spec_interval(
                old(self).base_secs(),
                old(self).min_secs(),
                old(self).max_secs(),
                final(self).metrics().level(),
                count_at_least(final(self).metrics().requests(), window_cutoff(now_ms, 60_000)),
                idle_secs_at(final(self).metrics(), now_ms),
            ),
    {
        if !self.dynamic_enabled {
            return self.base_interval_secs;
        }
        self.load_metrics.update(active_count, now_ms);
        let level = self.load_metrics.get_load_level();
        let request_rate = self.load_metrics.get_request_rate(now_ms);
        let base = self.base_interval_secs;
        let mini = self.min_interval_secs;
        let maxi = self.max_interval_secs;
        match level {
            LoadLevel::High => mini,
            LoadLevel::Medium => {
                let scaled: u128 = if request_rate > 5 {
                    (base as u128) * 6 / 5
                } else {
                    (base as u128) * 3 / 2
                };
                clamp_exec(scaled, mini, maxi)
            },
            LoadLevel::Low => {
                let scaled: u128 = if request_rate > 2 {
                    (base as u128) * 2
                } else {
                    (base as u128) * 5 / 2
                };
                clamp_exec(scaled, mini, maxi)
            },
            LoadLevel::Idle => {
                let last_change = self.load_metrics.get_last_change_ms();
                let idle_secs: u64 = if now_ms >= last_change {
                    (now_ms - last_change) / 1000
                } else {
                    0
                };
                let scaled: u128 = if idle_secs <= 60 {
                    base as u128
                } else if idle_secs <= 300 {
                    proof {
                        assert((base as int) * (420 + idle_secs as int) <= (u64::MAX as int)
                            * 720) by (nonlinear_arith)
                            requires
                                0 <= base <= u64::MAX,
                                idle_secs <= 300,
                        ;
                    }
                    (base as u128) * (420 + idle_secs as u128) / 480
                } else if idle_secs <= 900 {
                    proof {
                        assert((base as int) * (idle_secs as int + 300) <= (u64::MAX as int)
                            * 1200) by (nonlinear_arith)
                            requires
                                0 <= base <= u64::MAX,
                                idle_secs <= 900,
                        ;
                    }
                    (base as u128) * (idle_secs as u128 + 300) / 400
                } else if idle_secs <= 1800 {
                    proof {
                        assert((base as int) * (5 * (idle_secs as int) - 1800) <= (u64::MAX as int)
                            * 7200) by (nonlinear_arith)
                            requires
                                0 <= base <= u64::MAX,
                                900 < idle_secs <= 1800,
                        ;
                    }
                    (base as u128) * (5 * idle_secs as u128 - 1800) / 900
                } else {
                    let progress: u128 = if idle_secs - 1800 <= 1800 {
                        (idle_secs - 1800) as u128
                    } else {
                        1800
                    };
                    if maxi as u128 >= 8 * base as u128 {
                        proof {
                            assert((maxi - 8 * (base as int)) * progress / 1800 <= maxi - 8 * (
                            base as int)) by (nonlinear_arith)
                                requires
                                    0 <= progress <= 1800,
                                    0 <= 8 * (base as int) <= maxi,
                            ;
                            assert((maxi - 8 * (base as int)) * progress <= (u64::MAX as int)
                                * 1800) by (nonlinear_arith)
                                requires
                                    0 <= progress <= 1800,
                                    0 <= maxi - 8 * (base as int) <= u64::MAX,
                            ;
                        }
                        8 * base as u128 + (maxi as u128 - 8 * base as u128) * progress / 1800
                    } else {
                        proof {
                            assert((8 * (base as int) - maxi) * progress <= 8 * (u64::MAX as int)
                                * 1800) by (nonlinear_arith)
                                requires
                                    0 <= progress <= 1800,
                                    0 <= 8 * (base as int) - maxi <= 8 * (u64::MAX as int),
                            ;
                            assert((8 * (base as int) - maxi) * progress / 1800 <= 8 * (
                            base as int)) by (nonlinear_arith)
                                requires
                                    0 <= progress <= 1800,
                                    0 <= maxi,
                                    0 <= 8 * (base as int) - maxi,
                            ;
                        }
                        let shrink: u128 = (8 * base as u128 - maxi as u128) * progress / 1800;
                        8 * base as u128 - shrink
                    }
                };
                clamp_exec(scaled, mini, maxi)
            },
        }
    }

    /// Records one request arrival at `now_ms`.
    pub fn record_request(&mut self, now_ms: u64)
        requires
            old(self).metrics().wf(),
            forall|i: int|
                0 <= i < old(self).metrics().requests().len() ==> old(self).metrics().requests()[i]
                    <= now_ms,
        ensures
            final(self).metrics().requests() == old(self).metrics().requests().push(now_ms),
            final(self).metrics().level() == old(self).metrics().level(),
            final(self).metrics().last_change_ms() == old(self).metrics().last_change_ms(),
            final(self).metrics().wf(),
            final(self).base_secs() == old(self).base_secs(),
            final(self).min_secs() == old(self).min_secs(),
            final(self).max_secs() == old(self).max_secs(),
            final(self).dynamic_enabled_spec() == old(self).dynamic_enabled_spec(),
    {
        self.load_metrics.record_request(now_ms);
    }

    /// The current load level.
    pub fn get_load_level(&self) -> (r: LoadLevel)
        ensures
            r == self.metrics().level(),
    {
        self.load_metrics.get_load_level()
    }

    /// Requests seen in the minute before `now_ms`.
    pub fn get_request_rate(&self, now_ms: u64) -> (r: usize)
        ensures
            r == count_at_least(self.metrics().requests(), window_cutoff(now_ms, 60_000)),
    {
        self.load_metrics.get_request_rate(now_ms)
    }
}

/// Seconds a scheduler has been at its current level, as of `now_ms`.
pub open spec fn idle_secs_at(m: LoadMetrics, now_ms: u64) -> u64 {
    if now_ms >= m.last_change_ms() {
        ((now_ms - m.last_change_ms()) / 1000) as u64
    } else {
        0
    }
}

/// `v` clamped into the closed interval from `mini` to `maxi`, executably.
fn clamp_exec(v: u128, mini: u64, maxi: u64) -> (r: u64)
    ensures
        r == clamp_interval(v as int, mini, maxi),
{
    if v < mini as u128 {
        mini
    } else if v > maxi as u128 {
        maxi
    } else {
        v as u64
    }
}

/// Compares two load levels.
pub fn load_level_eq(a: LoadLevel, b: LoadLevel) -> (r: bool)
    ensures
        r == (a == b),
{
    a == b
}

/// Classifies `active_count` connections and `requests_last_minute` arrivals.
pub fn classify_load(active_count: u32, requests_last_minute: usize) -> (r: LoadLevel)
    ensures
        r == spec_classify(active_count, requests_last_minute as nat),
{
    if active_count > 10 {
        LoadLevel::High
    } else if requests_last_minute > 30 {
        LoadLevel::High
    } else if active_count >= 4 || requests_last_minute >= 10 {
        LoadLevel::Medium
    } else if active_count >= 1 || requests_last_minute >= 2 {
        LoadLevel::Low
    } else {
        LoadLevel::Idle
    }
}

} // verus!
