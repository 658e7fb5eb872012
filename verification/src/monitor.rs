//! The dashboard's view of the system: a pure state that absorbs the event
//! stream — endpoint health, cycle timing, switches, mode changes, pause
//! state — and reclassifies the load level from request arrivals. Rendering
//! that view is the terminal's business, outside this crate.

use vstd::prelude::*;
use crate::events::{ProxyEvent, SelectionMode};
use crate::health::EndpointStatus;
use crate::load::{count_at_least, spec_classify, trim_before, window_cutoff, LoadLevel};
use crate::state::{status_index, unique_status_urls};
use crate::strutil::{chars_of, string_from_chars};

verus! {

/// The last endpoint switch, as shown in the status line.
#[derive(Debug, PartialEq, Eq)]
pub struct SwitchInfo {
    pub from: String,
    pub to: String,
    pub from_latency: u64,
    pub to_latency: u64,
    /// How much faster the new endpoint is, floored at zero.
    pub improvement: u64,
}

/// Everything the dashboard shows, fed purely by events.
#[derive(Debug)]
pub struct DashboardView {
    pub endpoint_health: Vec<EndpointStatus>,
    pub current_endpoint: String,
    pub last_switch: Option<SwitchInfo>,
    pub next_health_check_ms: u64,
    pub health_check_interval_secs: u64,
    /// When a cycle is running: its start and its estimated length in
    /// seconds.
    pub health_check_running: Option<(u64, u64)>,
    pub current_load_level: LoadLevel,
    pub active_connections_count: u32,
    pub selection_mode: SelectionMode,
    pub manual_selected_index: Option<usize>,
    pub paused: bool,
    /// Request arrival instants of the last five minutes, oldest first.
    pub recent_requests: Vec<u64>,
}

impl DashboardView {
    /// Health records keep unique urls and the arrival instants stay in
    /// nondecreasing order.
    pub open spec fn wf(&self) -> bool {
        &&& unique_status_urls(self.endpoint_health@)
        &&& forall|i: int, j: int|
            0 <= i <= j < self.recent_requests@.len() ==> self.recent_requests@[i]
                <= self.recent_requests@[j]
    }

    /// A fresh view before any event arrived.
    pub fn new(current_endpoint: String, interval_secs: u64, now_ms: u64) -> (r: Self)
        ensures
            r.endpoint_health@ == Seq::<EndpointStatus>::empty(),
            r.current_endpoint == current_endpoint,
            r.last_switch is None,
            r.next_health_check_ms == now_ms,
            r.health_check_interval_secs == interval_secs,
            r.health_check_running is None,
            r.current_load_level == LoadLevel::Idle,
            r.active_connections_count == 0,
            r.selection_mode == SelectionMode::Auto,
            r.manual_selected_index is None,
            !r.paused,
            r.recent_requests@ == Seq::<u64>::empty(),
            r.wf(),
    {
        DashboardView {
            endpoint_health: Vec::new(),
            current_endpoint,
            last_switch: None,
            next_health_check_ms: now_ms,
            health_check_interval_secs: interval_secs,
            health_check_running: None,
            current_load_level: LoadLevel::Idle,
            active_connections_count: 0,
            selection_mode: SelectionMode::Auto,
            manual_selected_index: None,
            paused: false,
            recent_requests: Vec::new(),
        }
    }

    /// Absorbs one event: a health update replaces (or adds) that endpoint's
    /// record; a cycle start adopts the announced timing and load; running
    /// and completion toggle the in-flight marker; a switch moves the current
    /// endpoint and remembers the improvement; mode, manual selection and
    /// pause events set their fields; a request arrival is recorded, old
    /// arrivals are dropped, and the load level is reclassified. Connection
    /// events and announcements change nothing here.
    pub fn handle_proxy_event(&mut self, event: ProxyEvent)
        requires
            old(self).wf(),
            event matches ProxyEvent::RequestReceived { timestamp_ms, .. } ==> forall|i: int|
                0 <= i < old(self).recent_requests@.len() ==> old(self).recent_requests@[i]
                    <= timestamp_ms,
        ensures
            final(self).wf(),
            event matches ProxyEvent::HealthUpdate(st) ==> unchanged_but_health(
                *old(self),
                *final(self),
            ) && (match status_index(old(self).endpoint_health@, st.endpoint@, 0) {
                Some(i) => final(self).endpoint_health@ == old(self).endpoint_health@.update(i, st),
                None => final(self).endpoint_health@ == old(self).endpoint_health@.push(st),
            }),
            event matches ProxyEvent::HealthCheckStarted {
                interval_secs,
                next_check_time_ms,
                load_level,
                active_connections,
            } ==> *final(self) == (DashboardView {
                next_health_check_ms: next_check_time_ms,
                health_check_interval_secs: interval_secs,
                current_load_level: load_level,
                active_connections_count: active_connections,
                health_check_running: None,
                ..*old(self)
            }),
            event matches ProxyEvent::HealthCheckRunning { started_at_ms, estimated_duration_secs }
                ==> *final(self) == (DashboardView {
                health_check_running: Some((started_at_ms, estimated_duration_secs)),
                ..*old(self)
            }),
            event is HealthCheckCompleted ==> *final(self) == (DashboardView {
                health_check_running: None,
                ..*old(self)
            }),
            event matches ProxyEvent::EndpointSwitch { from, to, from_latency, to_latency }
                ==> *final(self) == (DashboardView {
                current_endpoint: to,
                last_switch: Some(
                    SwitchInfo {
                        from,
                        to,
                        from_latency,
                        to_latency,
                        improvement: crate::orchestrator::sat_sub(from_latency, to_latency),
                    },
                ),
                ..*old(self)
            }),
            event matches ProxyEvent::SelectionModeChanged { mode } ==> *final(self) == (
            DashboardView { selection_mode: mode, ..*old(self) }),
            event matches ProxyEvent::ManualEndpointSelected { endpoint, endpoint_index }
                ==> *final(self) == (DashboardView {
                current_endpoint: endpoint,
                manual_selected_index: Some(endpoint_index),
                ..*old(self)
            }),
            event is SystemPaused ==> *final(self) == (DashboardView {
                paused: true,
                ..*old(self)
            }),
            event is SystemResumed ==> *final(self) == (DashboardView {
                paused: false,
                ..*old(self)
            }),
            event matches ProxyEvent::RequestReceived { timestamp_ms, .. } ==> {
                &&& final(self).recent_requests@ == trim_before(
                    old(self).recent_requests@.push(timestamp_ms),
                    window_cutoff(timestamp_ms, 300_000),
                )
                &&& final(self).current_load_level == spec_classify(
                    old(self).active_connections_count,
                    count_at_least(
                        final(self).recent_requests@,
                        window_cutoff(timestamp_ms, 60_000),
                    ),
                )
                &&& unchanged_but_requests(*old(self), *final(self))
            },
            (event is ConnectionStarted || event is ConnectionCompleted || event is ServerStarted
                || event is ConfigLoaded || event is ManualRefreshTriggered) ==> *final(self)
                == *old(self),
    {
        match event {
            ProxyEvent::HealthUpdate(st) => {
                self.upsert_health(st);
            },
            ProxyEvent::HealthCheckStarted {
                interval_secs,
                next_check_time_ms,
                load_level,
                active_connections,
            } => {
                self.next_health_check_ms = next_check_time_ms;
                self.health_check_interval_secs = interval_secs;
                self.current_load_level = load_level;
                self.active_connections_count = active_connections;
                self.health_check_running = None;
            },
            ProxyEvent::HealthCheckRunning { started_at_ms, estimated_duration_secs } => {
                self.health_check_running = Some((started_at_ms, estimated_duration_secs));
            },
            ProxyEvent::HealthCheckCompleted { duration_ms: _ } => {
                self.health_check_running = None;
            },
            ProxyEvent::EndpointSwitch { from, to, from_latency, to_latency } => {
                let improvement: u64 = if from_latency >= to_latency {
                    from_latency - to_latency
                } else {
                    0
                };
                self.current_endpoint = to.clone();
                self.last_switch = Some(
                    SwitchInfo { from, to, from_latency, to_latency, improvement },
                );
            },
            ProxyEvent::SelectionModeChanged { mode } => {
                self.selection_mode = mode;
            },
            ProxyEvent::ManualEndpointSelected { endpoint, endpoint_index } => {
                self.current_endpoint = endpoint;
                self.manual_selected_index = Some(endpoint_index);
            },
            ProxyEvent::SystemPaused => {
                self.paused = true;
            },
            ProxyEvent::SystemResumed => {
                self.paused = false;
            },
            ProxyEvent::RequestReceived { endpoint: _, timestamp_ms } => {
                self.record_request(timestamp_ms);
            },
            ProxyEvent::ConnectionStarted(_) => {},
            ProxyEvent::ConnectionCompleted(_) => {},
            ProxyEvent::ServerStarted { .. } => {},
            ProxyEvent::ConfigLoaded { .. } => {},
            ProxyEvent::ManualRefreshTriggered => {},
        }
    }

    /// Replaces the record kept for a url, or adds one.
    fn upsert_health(&mut self, status: EndpointStatus)
        requires
            old(self).wf(),
        ensures
            final(self).wf(),
            unchanged_but_health(*old(self), *final(self)),
            match status_index(old(self).endpoint_health@, status.endpoint@, 0) {
                Some(i) => final(self).endpoint_health@ == old(self).endpoint_health@.update(
                    i,
                    status,
                ),
                None => final(self).endpoint_health@ == old(self).endpoint_health@.push(status),
            },
    {
        let mut i: usize = 0;
        #[verifier::loop_isolation(false)]
        while i < self.endpoint_health.len()
            invariant
                0 <= i <= self.endpoint_health@.len(),
                self.endpoint_health@ == old(self).endpoint_health@,
                status_index(old(self).endpoint_health@, status.endpoint@, 0) == status_index(
                    old(self).endpoint_health@,
                    status.endpoint@,
                    i as int,
                ),
                unchanged_but_health(*old(self), *self),
            decreases self.endpoint_health@.len() - i,
        {
            if self.endpoint_health[i].endpoint.eq(&status.endpoint) {
                let ghost before = self.endpoint_health@;
                let _ = self.endpoint_health.remove(i);
                self.endpoint_health.insert(i, status);
                proof {
                    assert(self.endpoint_health@ =~= before.update(i as int, status));
                    assert forall|a: int, b: int|
                        0 <= a < b < self.endpoint_health@.len() implies self.endpoint_health@[
                        a
                    ].endpoint@ != self.endpoint_health@[b].endpoint@ by {
                        assert(before[a].endpoint@ != before[b].endpoint@);
                    }
                }
                return ;
            }
            i += 1;
        }
        self.endpoint_health.push(status);
        proof {
            assert forall|a: int, b: int|
                0 <= a < b < self.endpoint_health@.len() implies self.endpoint_health@[a].endpoint@
                != self.endpoint_health@[b].endpoint@ by {
                if b < self.endpoint_health@.len() - 1 {
                    assert(old(self).endpoint_health@[a].endpoint@ != old(
                        self,
                    ).endpoint_health@[b].endpoint@);
                } else {
                    lemma_no_status_for_url(old(self).endpoint_health@, status.endpoint@, 0, a);
                }
            }
        }
    }

    /// Records one arrival, drops arrivals older than five minutes, and
    /// reclassifies the load from the last minute's arrivals.
    fn record_request(&mut self, timestamp_ms: u64)
        requires
            old(self).wf(),
            forall|i: int|
                0 <= i < old(self).recent_requests@.len() ==> old(self).recent_requests@[i]
                    <= timestamp_ms,
        ensures
            final(self).wf(),
            unchanged_but_requests(*old(self), *final(self)),
            final(self).recent_requests@ == trim_before(
                old(self).recent_requests@.push(timestamp_ms),
                window_cutoff(timestamp_ms, 300_000),
            ),
            final(self).current_load_level == spec_classify(
                old(self).active_connections_count,
                count_at_least(final(self).recent_requests@, window_cutoff(timestamp_ms, 60_000)),
            ),
    {
        self.recent_requests.push(timestamp_ms);
        let cutoff: u64 = if timestamp_ms >= 300_000 {
            timestamp_ms - 300_000
        } else {
            0
        };
        let ghost pushed = self.recent_requests@;
        #[verifier::loop_isolation(false)]
        while self.recent_requests.len() > 0 && self.recent_requests[0] < cutoff
            invariant
                trim_before(self.recent_requests@, cutoff) == trim_before(pushed, cutoff),
                forall|i: int, j: int|
                    0 <= i <= j < self.recent_requests@.len() ==> self.recent_requests@[i]
                        <= self.recent_requests@[j],
                unchanged_but_requests(*old(self), *self),
                self.current_load_level == old(self).current_load_level,
            decreases self.recent_requests.len(),
        {
            let ghost before = self.recent_requests@;
            proof {
                assert(forall|x: int, y: int|
                    0 <= x <= y < before.len() ==> before[x] <= before[y]);
            }
            let _ = self.recent_requests.remove(0);
            proof {
                assert(self.recent_requests@ =~= before.subrange(1, before.len() as int));
                assert forall|a: int, b: int|
                    0 <= a <= b < self.recent_requests@.len() implies self.recent_requests@[a]
                    <= self.recent_requests@[b] by {
                    assert(before[a + 1] <= before[b + 1]);
                }
            }
        }
        proof {
            assert(trim_before(self.recent_requests@, cutoff) == self.recent_requests@);
        }
        let minute_cutoff: u64 = if timestamp_ms >= 60_000 {
            timestamp_ms - 60_000
        } else {
            0
        };
        let mut in_last_minute: usize = 0;
        let mut i: usize = 0;
        #[verifier::loop_isolation(false)]
        while i < self.recent_requests.len()
            invariant
                0 <= i <= self.recent_requests@.len(),
                in_last_minute == count_at_least(
                    self.recent_requests@.subrange(0, i as int),
                    minute_cutoff,
                ),
                in_last_minute <= i,
            decreases self.recent_requests@.len() - i,
        {
            proof {
                assert(self.recent_requests@.subrange(0, i + 1).drop_last() =~= self
                    .recent_requests@
                    .subrange(0, i as int));
            }
            if self.recent_requests[i] >= minute_cutoff {
                in_last_minute += 1;
            }
            i += 1;
        }
        proof {
            assert(self.recent_requests@.subrange(0, self.recent_requests@.len() as int) =~= self
                .recent_requests@);
        }
        self.current_load_level = crate::load::classify_load(
            self.active_connections_count,
            in_last_minute,
        );
    }
}

/// The two views agree on everything but the health records.
pub open spec fn unchanged_but_health(a: DashboardView, b: DashboardView) -> bool {
    &&& a.current_endpoint == b.current_endpoint
    &&& a.last_switch == b.last_switch
    &&& a.next_health_check_ms == b.next_health_check_ms
    &&& a.health_check_interval_secs == b.health_check_interval_secs
    &&& a.health_check_running == b.health_check_running
    &&& a.current_load_level == b.current_load_level
    &&& a.active_connections_count == b.active_connections_count
    &&& a.selection_mode == b.selection_mode
    &&& a.manual_selected_index == b.manual_selected_index
    &&& a.paused == b.paused
    &&& a.recent_requests@ == b.recent_requests@
}

/// The two views agree on everything but the arrivals and the load level.
pub open spec fn unchanged_but_requests(a: DashboardView, b: DashboardView) -> bool {
    &&& a.endpoint_health@ == b.endpoint_health@
    &&& a.current_endpoint == b.current_endpoint
    &&& a.last_switch == b.last_switch
    &&& a.next_health_check_ms == b.next_health_check_ms
    &&& a.health_check_interval_secs == b.health_check_interval_secs
    &&& a.health_check_running == b.health_check_running
    &&& a.active_connections_count == b.active_connections_count
    &&& a.selection_mode == b.selection_mode
    &&& a.manual_selected_index == b.manual_selected_index
    &&& a.paused == b.paused
}

proof fn lemma_no_status_for_url(s: Seq<EndpointStatus>, url: Seq<char>, k: int, a: int)
    requires
        status_index(s, url, k) is None,
        0 <= k <= a < s.len(),
    ensures
        s[a].endpoint@ != url,
    decreases a - k,
{
    if k < a {
        lemma_no_status_for_url(s, url, k + 1, a);
    }
}

/// Shortens text to at most `max_len` characters, marking the cut with an
/// ellipsis of three dots that fit inside the bound.
pub fn truncate_text_safely(text: &String, max_len: usize) -> (r: String)
    ensures
        text@.len() <= max_len ==> r@ == text@,
        text@.len() > max_len ==> r@ == text@.take(
            if max_len >= 3 {
                (max_len - 3) as int
            } else {
                0
            },
        ) + "..."@,
{
    let chars = chars_of(text.as_str());
    if chars.len() <= max_len {
        return text.clone();
    }
    let keep: usize = if max_len >= 3 {
        max_len - 3
    } else {
        0
    };
    let mut kept: Vec<char> = Vec::new();
    let mut i: usize = 0;
    #[verifier::loop_isolation(false)]
    while i < keep
        invariant
            0 <= i <= keep <= chars@.len(),
            kept@ == chars@.subrange(0, i as int),
        decreases keep - i,
    {
        kept.push(chars[i]);
        proof {
            assert(kept@ =~= chars@.subrange(0, i + 1));
        }
        i += 1;
    }
    let mut r = string_from_chars(&kept);
    r.append("...");
    proof {
        assert(chars@.subrange(0, keep as int) =~= text@.take(keep as int));
    }
    r
}

} // verus!
