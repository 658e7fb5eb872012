//! The health-check cycle state machine.
//!
//! A cycle announces itself, marks every endpoint as checking, announces that
//! probes are running, merges each probe result as it lands, and closes with
//! a completion event. In automatic mode the first available result of a
//! cycle wins a race: the winner is evaluated against the current endpoint
//! and, when a switch is warranted, traffic moves and a switch event is
//! emitted. Probing itself happens outside; this module takes the results in
//! completion order.

use vstd::prelude::*;
use crate::events::{ProxyEvent, SelectionMode};
use crate::health::EndpointStatus;
use crate::history::{bounded_push, LatencyMeasurement, FAILED_ENDPOINT_LATENCY};
use crate::load::LoadLevel;
use crate::state::{status_index, statuses_have_url, ProxyState};

verus! {

/// Commands the orchestrator accepts from the operator.
#[derive(Debug, Clone, Copy, PartialEq, Eq, Structural)]
pub enum OrchestratorCommand {
    Pause,
    Resume,
    ManualRefresh,
}

/// The outcome of one probe: its endpoint and either a latency or an error.
#[derive(Debug, PartialEq, Eq)]
pub struct ProbeResult {
    pub endpoint: String,
    pub latency: Option<u64>,
    pub error: Option<String>,
}

impl ProbeResult {
    /// Exactly one of latency and error, the latency below the sentinel.
    pub open spec fn wf(&self) -> bool {
        &&& self.latency is Some <==> self.error is None
        &&& self.latency is Some ==> self.latency->0 < FAILED_ENDPOINT_LATENCY
    }
}

/// Cycle-scoped orchestrator state: whether monitoring is paused, and whether
/// this cycle's race already has a winner.
#[derive(Debug, Clone, Copy, PartialEq, Eq, Structural)]
pub struct OrchestratorCore {
    pub paused: bool,
    pub winner_chosen: bool,
}

impl OrchestratorCore {
    /// A running orchestrator with no winner chosen.
    pub fn new() -> (r: Self)
        ensures
            !r.paused,
            !r.winner_chosen,
    {
        OrchestratorCore { paused: false, winner_chosen: false }
    }

    /// Pauses monitoring; emits the pause event.
    pub fn handle_pause(&mut self) -> (events: Vec<ProxyEvent>)
        ensures
            final(self).paused,
            final(self).winner_chosen == old(self).winner_chosen,
            events@ == seq![ProxyEvent::SystemPaused],
    {
        self.paused = true;
        let mut events: Vec<ProxyEvent> = Vec::new();
        events.push(ProxyEvent::SystemPaused);
        proof {
            assert(events@ =~= seq![ProxyEvent::SystemPaused]);
        }
        events
    }

    /// Resumes monitoring; emits the resume event. The caller schedules an
    /// immediate cycle.
    pub fn handle_resume(&mut self) -> (events: Vec<ProxyEvent>)
        ensures
            !final(self).paused,
            final(self).winner_chosen == old(self).winner_chosen,
            events@ == seq![ProxyEvent::SystemResumed],
    {
        self.paused = false;
        let mut events: Vec<ProxyEvent> = Vec::new();
        events.push(ProxyEvent::SystemResumed);
        proof {
            assert(events@ =~= seq![ProxyEvent::SystemResumed]);
        }
        events
    }

    /// Announces a manual refresh; honored both paused and running. The
    /// caller then runs one out-of-band cycle.
    pub fn handle_manual_refresh(&mut self) -> (events: Vec<ProxyEvent>)
        ensures
            *final(self) == *old(self),
            events@ == seq![ProxyEvent::ManualRefreshTriggered],
    {
        let mut events: Vec<ProxyEvent> = Vec::new();
        events.push(ProxyEvent::ManualRefreshTriggered);
        proof {
            assert(events@ =~= seq![ProxyEvent::ManualRefreshTriggered]);
        }
        events
    }
}

/// Whether `new` is exactly the record `prev` becomes once the probe result
/// `r` is merged at `now_ms`: latency and availability from the result, the
/// error kept only on failure, and the measurement appended to the preserved
/// history.
pub open spec fn merged_matches(
    new: EndpointStatus,
    prev: EndpointStatus,
    r: ProbeResult,
    now_ms: u64,
) -> bool {
    &&& new.endpoint == prev.endpoint
    &&& new.latency == if r.latency is Some {
        r.latency->0
    } else {
        FAILED_ENDPOINT_LATENCY
    }
    &&& new.available == (r.latency is Some)
    &&& new.error == if r.latency is Some {
        None::<String>
    } else {
        r.error
    }
    &&& new.last_check_ms == now_ms
    &&& new.latency_history.view() == bounded_push(
        prev.latency_history.view(),
        LatencyMeasurement { timestamp_ms: now_ms, latency: r.latency, error: r.error },
        prev.latency_history.cap(),
    )
    &&& new.latency_history.cap() == prev.latency_history.cap()
}

/// What one probe step does: the result's status record (at index `i`) is
/// merged, every other record is untouched, and — when the result is
/// available, the mode automatic, and the race still open — the switch
/// decision is evaluated against the merged state; a warranted switch moves
/// the current endpoint and appends a switch event to the update event.
pub open spec fn probe_step_post(
    pre: ProxyState,
    pre_core: OrchestratorCore,
    post: ProxyState,
    result: ProbeResult,
    now_ms: u64,
    events: Seq<ProxyEvent>,
    i: int,
) -> bool {
    &&& 0 <= i < pre.endpoint_status@.len()
    &&& pre.endpoint_status@[i].endpoint@ == result.endpoint@
    &&& post.endpoint_status@.len() == pre.endpoint_status@.len()
    &&& forall|j: int|
        0 <= j < pre.endpoint_status@.len() && j != i ==> #[trigger] post.endpoint_status@[j]
            == pre.endpoint_status@[j]
    &&& merged_matches(post.endpoint_status@[i], pre.endpoint_status@[i], result, now_ms)
    &&& {
        let decided = if result.latency is Some && pre.selection_mode == SelectionMode::Auto
            && !pre_core.winner_chosen {
            spec_switch_decision(
                post.endpoint_status@,
                pre.current_endpoint@,
                pre.config.server.switch_threshold_ms,
                post.endpoint_status@[i],
            )
        } else {
            None
        };
        &&& post.current_endpoint == if decided is Some {
            result.endpoint
        } else {
            pre.current_endpoint
        }
        &&& events.len() == if decided is Some {
            2int
        } else {
            1
        }
        &&& (events[0] matches ProxyEvent::HealthUpdate(st) && crate::health::same_status(
            st,
            post.endpoint_status@[i],
        ))
        &&& (decided matches Some(pair) ==> events[1] == (ProxyEvent::EndpointSwitch {
            from: pre.current_endpoint,
            to: result.endpoint,
            from_latency: pair.0,
            to_latency: pair.1,
        }))
    }
}

/// Whether — and at which latencies — a switch from `current` to an available
/// `candidate` is warranted: immediately when there is no current endpoint or
/// its status is missing or unavailable, otherwise only when the candidate
/// improves the current latency by at least `threshold` (a saturating
/// subtraction). The pair carries the current endpoint's latency (the failure
/// sentinel when unknown) and the candidate's.
pub open spec fn spec_switch_decision(
    statuses: Seq<EndpointStatus>,
    current: Seq<char>,
    threshold: u64,
    candidate: EndpointStatus,
) -> Option<(u64, u64)> {
    if !candidate.available {
        None
    } else if current.len() == 0 {
        Some((FAILED_ENDPOINT_LATENCY, candidate.latency))
    } else {
        match status_index(statuses, current, 0) {
            Some(i) => if !statuses[i].available {
                Some((statuses[i].latency, candidate.latency))
            } else if sat_sub(statuses[i].latency, candidate.latency) >= threshold {
                Some((statuses[i].latency, candidate.latency))
            } else {
                None
            },
            None => Some((FAILED_ENDPOINT_LATENCY, candidate.latency)),
        }
    }
}

/// `a - b`, floored at zero.
pub open spec fn sat_sub(a: u64, b: u64) -> u64 {
    if a >= b {
        (a - b) as u64
    } else {
        0
    }
}

/// Evaluates the switch decision for `candidate` against the state's current
/// endpoint and configured threshold.
pub fn calculate_switch_decision(state: &ProxyState, candidate: &EndpointStatus) -> (r: Option<
    (u64, u64),
>)
    ensures
        r == spec_switch_decision(
            state.endpoint_status@,
            state.current_endpoint@,
            state.config.server.switch_threshold_ms,
            *candidate,
        ),
{
    if !candidate.available {
        return None;
    }
    if state.current_endpoint.as_str().is_empty() {
        return Some((FAILED_ENDPOINT_LATENCY, candidate.latency));
    }
    let mut i: usize = 0;
    #[verifier::loop_isolation(false)]
    while i < state.endpoint_status.len()
        invariant
            0 <= i <= state.endpoint_status@.len(),
            status_index(state.endpoint_status@, state.current_endpoint@, 0) == status_index(
                state.endpoint_status@,
                state.current_endpoint@,
                i as int,
            ),
        decreases state.endpoint_status@.len() - i,
    {
        if state.endpoint_status[i].endpoint.eq(&state.current_endpoint) {
            let current_status = &state.endpoint_status[i];
            if !current_status.available {
                return Some((current_status.latency, candidate.latency));
            }
            let improvement: u64 = if current_status.latency >= candidate.latency {
                current_status.latency - candidate.latency
            } else {
                0
            };
            if improvement >= state.config.server.switch_threshold_ms {
                return Some((current_status.latency, candidate.latency));
            }
            return None;
        }
        i += 1;
    }
    Some((FAILED_ENDPOINT_LATENCY, candidate.latency))
}

/// Marks every endpoint as checking — not available, no error, latency and
/// history preserved — and emits one update event per status.
pub fn mark_endpoints_as_checking(state: &mut ProxyState) -> (events: Vec<ProxyEvent>)
    requires
        old(state).wf(),
    ensures
        final(state).config == old(state).config,
        final(state).current_endpoint == old(state).current_endpoint,
        final(state).selection_mode == old(state).selection_mode,
        final(state).endpoint_status@.len() == old(state).endpoint_status@.len(),
        forall|i: int|
            0 <= i < final(state).endpoint_status@.len()
                ==> #[trigger] final(state).endpoint_status@[i] == (EndpointStatus {
                available: false,
                error: None,
                ..old(state).endpoint_status@[i]
            }),
        final(state).wf(),
        events@.len() == old(state).endpoint_status@.len(),
        forall|i: int| 0 <= i < events@.len() ==> (#[trigger] events@[i]) is HealthUpdate,
{
    let mut events: Vec<ProxyEvent> = Vec::new();
    let mut i: usize = 0;
    #[verifier::loop_isolation(false)]
    while i < state.endpoint_status.len()
        invariant
            0 <= i <= state.endpoint_status@.len(),
            state.config == old(state).config,
            state.current_endpoint == old(state).current_endpoint,
            state.selection_mode == old(state).selection_mode,
            state.endpoint_status@.len() == old(state).endpoint_status@.len(),
            forall|j: int|
                i <= j < state.endpoint_status@.len() ==> #[trigger] state.endpoint_status@[j]
                    == old(state).endpoint_status@[j],
            forall|j: int|
                0 <= j < i ==> #[trigger] state.endpoint_status@[j] == (EndpointStatus {
                    available: false,
                    error: None,
                    ..old(state).endpoint_status@[j]
                }),
            events@.len() == i,
            forall|j: int| 0 <= j < i ==> (#[trigger] events@[j]) is HealthUpdate,
        decreases state.endpoint_status@.len() - i,
    {
        let ghost before = state.endpoint_status@;
        let mut st = state.endpoint_status.remove(i);
        st.available = false;
        st.error = None;
        let copy = st.clone();
        state.endpoint_status.insert(i, st);
        proof {
            assert(state.endpoint_status@ =~= before.update(
                i as int,
                EndpointStatus { available: false, error: None, ..before[i as int] },
            ));
        }
        events.push(ProxyEvent::HealthUpdate(copy));
        i += 1;
    }
    proof {
        assert forall|a: int, b: int|
            0 <= a < b < state.endpoint_status@.len() implies state.endpoint_status@[a].endpoint@
            != state.endpoint_status@[b].endpoint@ by {
            assert(state.endpoint_status@[a].endpoint == old(state).endpoint_status@[a].endpoint);
            assert(state.endpoint_status@[b].endpoint == old(state).endpoint_status@[b].endpoint);
        }
    }
    events
}

/// Merges one probe result into the state and evaluates the cycle's race: in
/// automatic mode the first available result claims the win and, when the
/// decision warrants it, traffic switches to it with a switch event after the
/// update event.
pub fn handle_probe_result(
    core: &mut OrchestratorCore,
    state: &mut ProxyState,
    result: ProbeResult,
    now_ms: u64,
) -> (events: Vec<ProxyEvent>)
    requires
        old(state).wf(),
        result.wf(),
        statuses_have_url(old(state).endpoint_status@, result.endpoint@),
    ensures
        final(state).config == old(state).config,
        final(state).selection_mode == old(state).selection_mode,
        final(core).paused == old(core).paused,
        final(state).wf(),
        final(core).winner_chosen == (old(core).winner_chosen || (result.latency is Some && old(
            state,
        ).selection_mode == SelectionMode::Auto)),
        exists|i: int|
            #[trigger] probe_step_post(
                *old(state),
                *old(core),
                *final(state),
                result,
                now_ms,
                events@,
                i,
            ),
{
    let ghost old_statuses = state.endpoint_status@;
    let mut events: Vec<ProxyEvent> = Vec::new();
    let mut i: usize = 0;
    let mut merged_index: usize = 0;
    let mut found = false;
    #[verifier::loop_isolation(false)]
    while i < state.endpoint_status.len() && !found
        invariant
            0 <= i <= state.endpoint_status@.len(),
            state.endpoint_status@ == old_statuses,
            !found ==> forall|j: int| 0 <= j < i ==> old_statuses[j].endpoint@ != result.endpoint@,
            found ==> 0 <= merged_index < i && old_statuses[
                merged_index as int
            ].endpoint@ == result.endpoint@,
        decreases state.endpoint_status@.len() - i,
    {
        if state.endpoint_status[i].endpoint.eq(&result.endpoint) {
            merged_index = i;
            found = true;
        }
        i += 1;
    }
    proof {
        if !found {
            assert(!statuses_have_url(old_statuses, result.endpoint@));
            assert(false);
        }
    }
    let mut st = state.endpoint_status.remove(merged_index);
    let latency_copy = result.latency;
    let error_copy = crate::strutil::clone_opt_string(&result.error);
    st.update_with_check_result(latency_copy, error_copy, now_ms);
    let updated_copy = st.clone();
    state.endpoint_status.insert(merged_index, st);
    proof {
        assert(state.endpoint_status@.len() == old_statuses.len());
        assert forall|a: int, b: int|
            0 <= a < b < state.endpoint_status@.len() implies state.endpoint_status@[a].endpoint@
            != state.endpoint_status@[b].endpoint@ by {
            assert(state.endpoint_status@[a].endpoint@ == old_statuses[a].endpoint@);
            assert(state.endpoint_status@[b].endpoint@ == old_statuses[b].endpoint@);
        }
    }
    events.push(ProxyEvent::HealthUpdate(updated_copy));
    let available = match result.latency {
        Some(_) => true,
        None => false,
    };
    if !available {
        proof {
            assert(probe_step_post(
                *old(state),
                *old(core),
                *state,
                result,
                now_ms,
                events@,
                merged_index as int,
            ));
        }
        return events;
    }
    let auto_mode = match state.selection_mode {
        SelectionMode::Auto => true,
        SelectionMode::Manual => false,
    };
    if !auto_mode {
        proof {
            assert(probe_step_post(
                *old(state),
                *old(core),
                *state,
                result,
                now_ms,
                events@,
                merged_index as int,
            ));
        }
        return events;
    }
    if core.winner_chosen {
        proof {
            assert(probe_step_post(
                *old(state),
                *old(core),
                *state,
                result,
                now_ms,
                events@,
                merged_index as int,
            ));
        }
        return events;
    }
    core.winner_chosen = true;
    let candidate = &state.endpoint_status[merged_index];
    let decision = calculate_switch_decision(state, candidate);
    match decision {
        Some((from_latency, to_latency)) => {
            let from = state.current_endpoint.clone();
            state.switch_endpoint_silent(result.endpoint.clone());
            events.push(
                ProxyEvent::EndpointSwitch {
                    from,
                    to: result.endpoint,
                    from_latency,
                    to_latency,
                },
            );
            proof {
                assert(events@[0] == ProxyEvent::HealthUpdate(updated_copy));
                assert(probe_step_post(
                    *old(state),
                    *old(core),
                    *state,
                    result,
                    now_ms,
                    events@,
                    merged_index as int,
                ));
            }
        },
        None => {
            proof {
                assert(probe_step_post(
                    *old(state),
                    *old(core),
                    *state,
                    result,
                    now_ms,
                    events@,
                    merged_index as int,
                ));
            }
        },
    }
    events
}

/// Whether any of the first `n` results is available.
pub open spec fn any_available(results: Seq<ProbeResult>, n: int) -> bool {
    exists|m: int| 0 <= m < n && m < results.len() && (#[trigger] results[m]).latency is Some
}

/// Index of the first available result at or after `k`, if any.
pub open spec fn first_available(results: Seq<ProbeResult>, k: int) -> Option<int>
    decreases results.len() - k,
{
    if k < 0 || k >= results.len() {
        None
    } else if results[k].latency is Some {
        Some(k)
    } else {
        first_available(results, k + 1)
    }
}

proof fn lemma_first_available(results: Seq<ProbeResult>, k: int, j: int)
    requires
        0 <= k <= j < results.len(),
        results[j].latency is Some,
        forall|m: int| k <= m < j ==> !((#[trigger] results[m]).latency is Some),
    ensures
        first_available(results, k) == Some(j),
    decreases j - k,
{
    if k < j {
        lemma_first_available(results, k + 1, j);
    }
}

/// Number of switch events in `events`.
pub open spec fn count_switch_events(events: Seq<ProxyEvent>) -> nat
    decreases events.len(),
{
    if events.len() == 0 {
        0
    } else {
        count_switch_events(events.drop_last()) + if events.last() is EndpointSwitch {
            1nat
        } else {
            0nat
        }
    }
}

proof fn lemma_count_switch_concat(a: Seq<ProxyEvent>, b: Seq<ProxyEvent>)
    ensures
        count_switch_events(a + b) == count_switch_events(a) + count_switch_events(b),
    decreases b.len(),
{
    if b.len() == 0 {
        assert(a + b =~= a);
    } else {
        lemma_count_switch_concat(a, b.drop_last());
        assert((a + b).drop_last() =~= a + b.drop_last());
        assert((a + b).last() == b.last());
    }
}

proof fn lemma_count_switch_push(a: Seq<ProxyEvent>, e: ProxyEvent)
    ensures
        count_switch_events(a.push(e)) == count_switch_events(a) + if e is EndpointSwitch {
            1nat
        } else {
            0nat
        },
{
    assert(a.push(e).drop_last() =~= a);
    assert(a.push(e).last() == e);
}

/// `a + b`, capped at the largest representable value.
pub open spec fn sat_add(a: u64, b: u64) -> u64 {
    if a + b <= u64::MAX {
        (a + b) as u64
    } else {
        u64::MAX
    }
}

/// The announced next-check instant: `interval_secs` after `now_ms`, capped.
pub open spec fn next_check_time(now_ms: u64, interval_secs: u64) -> u64 {
    if now_ms + interval_secs * 1000 <= u64::MAX {
        (now_ms + interval_secs * 1000) as u64
    } else {
        u64::MAX
    }
}

/// Every switch event of a cycle names the first available result of that
/// cycle, moves away from the cycle's starting endpoint, and can only happen
/// in automatic mode.
pub open spec fn switch_event_ok(e: ProxyEvent, results: Seq<ProbeResult>, pre: ProxyState) -> bool {
    e matches ProxyEvent::EndpointSwitch { from, to, .. } ==> {
        &&& pre.selection_mode == SelectionMode::Auto
        &&& from == pre.current_endpoint
        &&& first_available(results, 0) matches Some(j) && to@ == results[j].endpoint@
    }
}

/// Runs one complete health-check cycle over probe results in completion
/// order: a start event, one checking update per endpoint, a running event,
/// the merge of each result (with the race-winner switch, in automatic mode),
/// and a completion event. The start event always comes first, every health
/// update lies strictly between it and the final completion event, at most
/// one switch happens, any switch goes to the cycle's first available result,
/// and manual mode never switches.
#[verifier::loop_isolation(false)]
pub fn run_cycle(
    core: &mut OrchestratorCore,
    state: &mut ProxyState,
    results: &Vec<ProbeResult>,
    interval_secs: u64,
    load_level: LoadLevel,
    active_connections: u32,
    now_ms: u64,
    duration_ms: u64,
) -> (events: Vec<ProxyEvent>)
    requires
        old(state).wf(),
        forall|j: int|
            0 <= j < results@.len() ==> (#[trigger] results@[j]).wf() && statuses_have_url(
                old(state).endpoint_status@,
                results@[j].endpoint@,
            ),
    ensures
        final(state).config == old(state).config,
        final(state).selection_mode == old(state).selection_mode,
        final(core).paused == old(core).paused,
        final(state).wf(),
        final(state).endpoint_status@.len() == old(state).endpoint_status@.len(),
        events@.len() == 3 + old(state).endpoint_status@.len() + results@.len()
            + count_switch_events(events@),
        events@[0] == (ProxyEvent::HealthCheckStarted {
            interval_secs,
            next_check_time_ms: next_check_time(now_ms, interval_secs),
            load_level,
            active_connections,
        }),
        events@[1 + old(state).endpoint_status@.len() as int] == (ProxyEvent::HealthCheckRunning {
            started_at_ms: now_ms,
            estimated_duration_secs: sat_add(old(state).config.health_check.timeout_seconds, 5),
        }),
        events@.last() == (ProxyEvent::HealthCheckCompleted { duration_ms }),
        forall|m: int|
            0 <= m < events@.len() && (#[trigger] events@[m]) is HealthUpdate ==> 0 < m
                < events@.len() - 1,
        count_switch_events(events@) <= 1,
        forall|m: int|
            0 <= m < events@.len() ==> switch_event_ok(#[trigger] events@[m], results@, *old(state)),
        old(state).selection_mode == SelectionMode::Manual ==> count_switch_events(events@) == 0,
        count_switch_events(events@) == 0 ==> final(state).current_endpoint == old(
            state,
        ).current_endpoint,
        (old(state).selection_mode == SelectionMode::Auto && old(state).current_endpoint@.len()
            == 0 && first_available(results@, 0) is Some) ==> count_switch_events(events@) == 1 && (
        first_available(results@, 0) matches Some(fa) && final(state).current_endpoint@
            == results@[fa].endpoint@),
{
    let ghost pre = *old(state);
    let ghost n = old(state).endpoint_status@.len() as int;
    core.winner_chosen = false;
    let mut events: Vec<ProxyEvent> = Vec::new();
    let next_check_time_ms: u64 = {
        let t: u128 = now_ms as u128 + (interval_secs as u128) * 1000;
        if t > u64::MAX as u128 {
            u64::MAX
        } else {
            t as u64
        }
    };
    events.push(
        ProxyEvent::HealthCheckStarted {
            interval_secs,
            next_check_time_ms,
            load_level,
            active_connections,
        },
    );
    let mut checking = mark_endpoints_as_checking(state);
    let ghost checking_events = checking@;
    events.append(&mut checking);
    let estimated_duration_secs: u64 = if state.config.health_check.timeout_seconds
        <= u64::MAX - 5 {
        state.config.health_check.timeout_seconds + 5
    } else {
        u64::MAX
    };
    events.push(
        ProxyEvent::HealthCheckRunning { started_at_ms: now_ms, estimated_duration_secs },
    );
    proof {
        assert(count_switch_events(events@) == 0) by {
            assert forall|m: int|
                0 <= m < events@.len() implies !((#[trigger] events@[m]) is EndpointSwitch) by {}
            lemma_count_switch_none(events@);
        }
    }
    let mut j: usize = 0;
    while j < results.len()
        invariant
            0 <= j <= results@.len(),
            state.endpoint_status@.len() == pre.endpoint_status@.len(),
            forall|m: int|
                0 <= m < state.endpoint_status@.len() ==> (
                #[trigger] state.endpoint_status@[m]).endpoint@ == pre.endpoint_status@[m].endpoint@,
            state.wf(),
            state.config == pre.config,
            state.selection_mode == pre.selection_mode,
            core.paused == old(core).paused,
            core.winner_chosen == (pre.selection_mode == SelectionMode::Auto && any_available(
                results@,
                j as int,
            )),
            events@.len() == 2 + n + j + count_switch_events(events@),
            events@[0] == (ProxyEvent::HealthCheckStarted {
                interval_secs,
                next_check_time_ms: next_check_time(now_ms, interval_secs),
                load_level,
                active_connections,
            }),
            events@[1 + n] == (ProxyEvent::HealthCheckRunning {
                started_at_ms: now_ms,
                estimated_duration_secs: sat_add(pre.config.health_check.timeout_seconds, 5),
            }),
            forall|m: int|
                0 <= m < events@.len() ==> !((#[trigger] events@[m]) is HealthCheckCompleted),
            forall|m: int|
                0 <= m < events@.len() && (#[trigger] events@[m]) is HealthUpdate ==> 0 < m,
            count_switch_events(events@) <= 1,
            !core.winner_chosen ==> count_switch_events(events@) == 0,
            forall|m: int|
                0 <= m < events@.len() ==> switch_event_ok(#[trigger] events@[m], results@, pre),
            pre.selection_mode == SelectionMode::Manual ==> count_switch_events(events@) == 0,
            count_switch_events(events@) == 0 ==> state.current_endpoint == pre.current_endpoint,
            (pre.selection_mode == SelectionMode::Auto && pre.current_endpoint@.len() == 0
                && any_available(results@, j as int)) ==> count_switch_events(events@) == 1 && (
            first_available(results@, 0) matches Some(fa) && state.current_endpoint@
                == results@[fa].endpoint@),
        decreases results@.len() - j,
    {
        let result = clone_probe_result(&results[j]);
        proof {
            let w = choose|w: int|
                0 <= w < pre.endpoint_status@.len() && (
                #[trigger] pre.endpoint_status@[w]).endpoint@ == results@[j as int].endpoint@;
            assert(state.endpoint_status@[w].endpoint@ == result.endpoint@);
            assert(statuses_have_url(state.endpoint_status@, result.endpoint@));
        }
        let ghost state_before = *state;
        let ghost core_before = *core;
        let ghost events_before = events@;
        let mut step = handle_probe_result(core, state, result, now_ms);
        let ghost step_events = step@;
        events.append(&mut step);
        proof {
            let i = choose|i: int|
                #[trigger] probe_step_post(
                    state_before,
                    core_before,
                    *state,
                    results@[j as int],
                    now_ms,
                    step_events,
                    i,
                );
            lemma_count_switch_concat(events_before, step_events);
            assert(count_switch_events(step_events) == step_events.len() - 1) by {
                if step_events.len() == 1 {
                    lemma_count_switch_push(Seq::<ProxyEvent>::empty(), step_events[0]);
                    assert(step_events =~= Seq::<ProxyEvent>::empty().push(step_events[0]));
                } else {
                    lemma_count_switch_push(Seq::<ProxyEvent>::empty(), step_events[0]);
                    lemma_count_switch_push(
                        Seq::<ProxyEvent>::empty().push(step_events[0]),
                        step_events[1],
                    );
                    assert(step_events =~= Seq::<ProxyEvent>::empty().push(step_events[0]).push(
                        step_events[1],
                    ));
                }
            }
            if step_events.len() == 2 {
                assert(!core_before.winner_chosen && results@[j as int].latency is Some
                    && pre.selection_mode == SelectionMode::Auto);
                assert(!any_available(results@, j as int));
                assert forall|m: int|
                    0 <= m < j implies !((#[trigger] results@[m]).latency is Some) by {
                    if results@[m].latency is Some {
                        assert(any_available(results@, j as int));
                    }
                }
                lemma_first_available(results@, 0, j as int);
                assert(state_before.current_endpoint == pre.current_endpoint);
            }
            if results@[j as int].latency is Some {
                assert(any_available(results@, j + 1));
            }
            if any_available(results@, j + 1) && !(results@[j as int].latency is Some) {
                let w = choose|w: int|
                    0 <= w < j + 1 && w < results@.len() && (
                    #[trigger] results@[w]).latency is Some;
                assert(any_available(results@, j as int));
            }
        }
        j += 1;
    }
    let ghost before_completed = events@;
    events.push(ProxyEvent::HealthCheckCompleted { duration_ms });
    proof {
        lemma_count_switch_push(before_completed, ProxyEvent::HealthCheckCompleted { duration_ms });
        if pre.selection_mode == SelectionMode::Auto && pre.current_endpoint@.len() == 0
            && first_available(results@, 0) is Some {
            let fa = first_available(results@, 0)->0;
            lemma_first_available_is_available(results@, 0);
            assert(any_available(results@, results@.len() as int));
        }
    }
    events
}

proof fn lemma_count_switch_none(events: Seq<ProxyEvent>)
    requires
        forall|m: int| 0 <= m < events.len() ==> !((#[trigger] events[m]) is EndpointSwitch),
    ensures
        count_switch_events(events) == 0,
    decreases events.len(),
{
    if events.len() > 0 {
        lemma_count_switch_none(events.drop_last());
    }
}

proof fn lemma_first_available_is_available(results: Seq<ProbeResult>, k: int)
    requires
        first_available(results, k) is Some,
    ensures
        ({
            let j = first_available(results, k)->0;
            k <= j < results.len() && results[j].latency is Some
        }),
    decreases results.len() - k,
{
    if !(k < 0 || k >= results.len()) && !(results[k].latency is Some) {
        lemma_first_available_is_available(results, k + 1);
    }
}

/// Copies a probe result.
fn clone_probe_result(r: &ProbeResult) -> (c: ProbeResult)
    ensures
        c == *r,
{
    ProbeResult {
        endpoint: r.endpoint.clone(),
        latency: r.latency,
        error: crate::strutil::clone_opt_string(&r.error),
    }
}

} // verus!
