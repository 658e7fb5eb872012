//! A state machine over the proxy's shared state, driven by explicit
//! transitions: health updates, endpoint switches, and configuration reloads,
//! with a version counter and switch statistics.

use vstd::prelude::*;
use crate::config::{all_entries, same_config, Config};
use crate::health::{same_status, EndpointStatus};
use crate::history::FAILED_ENDPOINT_LATENCY;
use crate::state::{status_index, unique_status_urls};

verus! {

/// Why a switch happened.
#[derive(Debug, Clone, Copy, PartialEq, Eq, Structural)]
pub enum SwitchReason {
    /// The new endpoint improves the latency by this much.
    LatencyImprovement { improvement_ms: u64 },
    /// The current endpoint is down.
    FailoverRecovery,
    /// The operator chose it.
    ManualSwitch,
    /// Nothing was selected yet.
    InitialSelection,
}

/// A transition the manager applies atomically.
#[derive(Debug, PartialEq, Eq)]
pub enum ProxyStateTransition {
    /// One endpoint's health changed.
    EndpointHealthUpdated { endpoint: String, status: EndpointStatus },
    /// Traffic moved between endpoints.
    EndpointSwitched { from: String, to: String, reason: SwitchReason },
    /// The configuration was replaced.
    ConfigReloaded { config: Config },
}

/// A proposed switch, with its latency improvement.
#[derive(Debug, PartialEq, Eq)]
pub struct SwitchDecision {
    pub from: String,
    pub to: String,
    pub reason: SwitchReason,
    pub improvement_ms: u64,
}

/// Counters describing the state machine.
#[derive(Debug, Clone, Copy, PartialEq, Eq, Structural)]
pub struct StateStats {
    pub switch_count: u64,
    pub last_switch_time_ms: u64,
    pub state_version: u64,
    pub total_endpoints: usize,
}

/// The proxy's authoritative state with switch statistics and a version
/// counter that rises on every applied transition.
#[derive(Debug)]
pub struct ProxyStateManager {
    endpoint_status: Vec<EndpointStatus>,
    current_endpoint: String,
    config: Config,
    last_switch_time_ms: u64,
    switch_count: u64,
    state_version: u64,
}

impl ProxyStateManager {
    /// The statuses kept, one per endpoint url.
    pub closed spec fn statuses(&self) -> Seq<EndpointStatus> {
        self.endpoint_status@
    }

    /// The current endpoint url.
    pub closed spec fn current(&self) -> String {
        self.current_endpoint
    }

    /// The configuration.
    pub closed spec fn spec_config(&self) -> Config {
        self.config
    }

    /// When traffic last moved.
    pub closed spec fn last_switch_ms(&self) -> u64 {
        self.last_switch_time_ms
    }

    /// How often traffic moved.
    pub closed spec fn switches(&self) -> u64 {
        self.switch_count
    }

    /// The version, risen on every applied transition.
    pub closed spec fn version(&self) -> u64 {
        self.state_version
    }

    /// Status urls are unique and every status is well formed.
    pub open spec fn wf(&self) -> bool {
        &&& unique_status_urls(self.statuses())
        &&& forall|i: int| 0 <= i < self.statuses().len() ==> (#[trigger] self.statuses()[i]).wf()
    }

    /// A fresh manager at `now_ms`: the current endpoint is the default
    /// group's first endpoint (or the first endpoint at all, or empty), every
    /// configured url starts unavailable as `Not checked yet`, no switches,
    /// version one.
    pub fn new(config: Config, now_ms: u64) -> (r: Self)
        ensures
            r.switches() == 0,
            r.version() == 1,
            r.last_switch_ms() == now_ms,
            r.wf(),
            forall|i: int|
                0 <= i < r.statuses().len() ==> {
                    let st = #[trigger] r.statuses()[i];
                    !st.available && st.latency == FAILED_ENDPOINT_LATENCY && st.last_check_ms
                        == now_ms
                },
            forall|u: Seq<char>| #[trigger]
                crate::state::statuses_have_url(r.statuses(), u) <==> crate::state::entries_have_url(
                    all_entries(config.groups@),
                    all_entries(config.groups@).len() as int,
                    u,
                ),
            same_config(r.spec_config(), config),
    {
        let seeded = crate::state::ProxyState::new(config, now_ms);
        ProxyStateManager {
            endpoint_status: seeded.endpoint_status,
            current_endpoint: seeded.current_endpoint,
            config: seeded.config,
            last_switch_time_ms: now_ms,
            switch_count: 0,
            state_version: 1,
        }
    }

    /// The current endpoint url.
    pub fn get_current_endpoint(&self) -> (r: String)
        ensures
            r == self.current(),
    {
        self.current_endpoint.clone()
    }

    /// The status kept for `endpoint`, copied, if any.
    pub fn get_endpoint_status(&self, endpoint: &String) -> (r: Option<EndpointStatus>)
        ensures
            match status_index(self.statuses(), endpoint@, 0) {
                Some(i) => r matches Some(st) && same_status(st, self.statuses()[i]),
                None => r is None,
            },
    {
        let mut i: usize = 0;
        #[verifier::loop_isolation(false)]
        while i < self.endpoint_status.len()
            invariant
                0 <= i <= self.statuses().len(),
                status_index(self.statuses(), endpoint@, 0) == status_index(
                    self.statuses(),
                    endpoint@,
                    i as int,
                ),
            decreases self.statuses().len() - i,
        {
            if self.endpoint_status[i].endpoint.eq(endpoint) {
                return Some(self.endpoint_status[i].clone());
            }
            i += 1;
        }
        None
    }

    /// All statuses, copied.
    pub fn get_all_endpoint_status(&self) -> (r: Vec<EndpointStatus>)
        ensures
            r@.len() == self.statuses().len(),
            forall|i: int|
                0 <= i < r@.len() ==> same_status(#[trigger] r@[i], self.statuses()[i]),
    {
        let mut r: Vec<EndpointStatus> = Vec::new();
        let mut i: usize = 0;
        #[verifier::loop_isolation(false)]
        while i < self.endpoint_status.len()
            invariant
                0 <= i <= self.statuses().len(),
                r@.len() == i,
                forall|j: int| 0 <= j < i ==> same_status(#[trigger] r@[j], self.statuses()[j]),
            decreases self.statuses().len() - i,
        {
            r.push(self.endpoint_status[i].clone());
            i += 1;
        }
        r
    }

    /// The configuration, copied.
    pub fn get_config(&self) -> (r: Config)
        ensures
            same_config(r, self.spec_config()),
    {
        self.config.clone()
    }

    /// Counters for monitoring.
    pub fn get_state_stats(&self) -> (r: StateStats)
        ensures
            r == (StateStats {
                switch_count: self.switches(),
                last_switch_time_ms: self.last_switch_ms(),
                state_version: self.version(),
                total_endpoints: self.statuses().len() as usize,
            }),
    {
        StateStats {
            switch_count: self.switch_count,
            last_switch_time_ms: self.last_switch_time_ms,
            state_version: self.state_version,
            total_endpoints: self.endpoint_status.len(),
        }
    }

    /// Stores `status` as the record for the url it names, replacing the old
    /// record or appending a new one, and raises the version.
    pub fn update_endpoint_health(&mut self, endpoint: String, status: EndpointStatus)
        requires
            old(self).wf(),
            status.wf(),
            endpoint@ == status.endpoint@,
            old(self).version() < u64::MAX,
        ensures
            final(self).wf(),
            final(self).version() == old(self).version() + 1,
            final(self).current() == old(self).current(),
            final(self).switches() == old(self).switches(),
            match status_index(old(self).statuses(), endpoint@, 0) {
                Some(i) => final(self).statuses() == old(self).statuses().update(i, status),
                None => final(self).statuses() == old(self).statuses().push(status),
            },
    {
        let mut i: usize = 0;
        #[verifier::loop_isolation(false)]
        while i < self.endpoint_status.len()
            invariant
                0 <= i <= self.statuses().len(),
                self.statuses() == old(self).statuses(),
                status_index(old(self).statuses(), endpoint@, 0) == status_index(
                    old(self).statuses(),
                    endpoint@,
                    i as int,
                ),
                self.current_endpoint == old(self).current_endpoint,
                self.switch_count == old(self).switch_count,
                self.state_version == old(self).state_version,
                self.config == old(self).config,
                self.last_switch_time_ms == old(self).last_switch_time_ms,
            decreases self.statuses().len() - i,
        {
            if self.endpoint_status[i].endpoint.eq(&endpoint) {
                let ghost before = self.statuses();
                let _ = self.endpoint_status.remove(i);
                self.endpoint_status.insert(i, status);
                proof {
                    assert(self.statuses() =~= before.update(i as int, status));
                    assert forall|a: int, b: int|
                        0 <= a < b < self.statuses().len() implies self.statuses()[a].endpoint@
                        != self.statuses()[b].endpoint@ by {
                        assert(before[a].endpoint@ != before[b].endpoint@);
                    }
                }
                self.state_version = self.state_version + 1;
                return ;
            }
            i += 1;
        }
        self.endpoint_status.push(status);
        proof {
            assert forall|a: int, b: int|
                0 <= a < b < self.statuses().len() implies self.statuses()[a].endpoint@
                != self.statuses()[b].endpoint@ by {
                if b < self.statuses().len() - 1 {
                    assert(old(self).statuses()[a].endpoint@ != old(self).statuses()[b].endpoint@);
                } else {
                    assert(status_index(old(self).statuses(), endpoint@, 0) is None);
                    lemma_status_index_absent(old(self).statuses(), endpoint@, a);
                }
            }
        }
        self.state_version = self.state_version + 1;
    }

    /// Moves traffic to `new_endpoint` at `now_ms` and counts the switch; a
    /// no-op, version included, when it is current already.
    pub fn switch_endpoint_atomic(&mut self, new_endpoint: String, now_ms: u64)
        requires
            old(self).wf(),
            old(self).version() < u64::MAX,
            old(self).switches() < u64::MAX,
        ensures
            final(self).wf(),
            final(self).statuses() == old(self).statuses(),
            old(self).current()@ == new_endpoint@ ==> *final(self) == *old(self),
            old(self).current()@ != new_endpoint@ ==> final(self).current() == new_endpoint
                && final(self).switches() == old(self).switches() + 1
                && final(self).last_switch_ms() == now_ms
                && final(self).version() == old(self).version() + 1,
    {
        if self.current_endpoint.eq(&new_endpoint) {
            return ;
        }
        self.current_endpoint = new_endpoint;
        self.last_switch_time_ms = now_ms;
        self.switch_count = self.switch_count + 1;
        self.state_version = self.state_version + 1;
    }

    /// Replaces the configuration and raises the version.
    pub fn reload_config(&mut self, config: Config)
        requires
            old(self).wf(),
            old(self).version() < u64::MAX,
        ensures
            final(self).wf(),
            final(self).spec_config() == config,
            final(self).version() == old(self).version() + 1,
            final(self).statuses() == old(self).statuses(),
            final(self).current() == old(self).current(),
            final(self).switches() == old(self).switches(),
    {
        self.config = config;
        self.state_version = self.state_version + 1;
    }

    /// Applies one transition at `now_ms`.
    pub fn apply_transition(&mut self, transition: ProxyStateTransition, now_ms: u64)
        requires
            old(self).wf(),
            old(self).version() < u64::MAX,
            old(self).switches() < u64::MAX,
            transition matches ProxyStateTransition::EndpointHealthUpdated { endpoint, status }
                ==> status.wf() && endpoint@ == status.endpoint@,
        ensures
            final(self).wf(),
    {
        match transition {
            ProxyStateTransition::EndpointHealthUpdated { endpoint, status } => {
                self.update_endpoint_health(endpoint, status);
            },
            ProxyStateTransition::EndpointSwitched { from: _, to, reason: _ } => {
                self.switch_endpoint_atomic(to, now_ms);
            },
            ProxyStateTransition::ConfigReloaded { config } => {
                self.reload_config(config);
            },
        }
    }

    /// Whether traffic should move to `new_endpoint` with `new_latency`:
    /// immediately when nothing is selected or the current endpoint is
    /// unknown or down, otherwise only when the improvement reaches the
    /// configured threshold; never to the endpoint already current.
    pub fn should_switch_endpoint(&self, new_endpoint: &String, new_latency: u64) -> (r: Option<
        SwitchDecision,
    >)
        ensures
            r == spec_should_switch(
                self.statuses(),
                self.current(),
                self.spec_config().server.switch_threshold_ms,
                *new_endpoint,
                new_latency,
            ),
    {
        if self.current_endpoint.as_str().is_empty() {
            return Some(
                SwitchDecision {
                    from: self.current_endpoint.clone(),
                    to: new_endpoint.clone(),
                    reason: SwitchReason::InitialSelection,
                    improvement_ms: 0,
                },
            );
        }
        if self.current_endpoint.eq(new_endpoint) {
            return None;
        }
        let threshold = self.config.server.switch_threshold_ms;
        let mut i: usize = 0;
        #[verifier::loop_isolation(false)]
        while i < self.endpoint_status.len()
            invariant
                0 <= i <= self.statuses().len(),
                status_index(self.statuses(), self.current()@, 0) == status_index(
                    self.statuses(),
                    self.current()@,
                    i as int,
                ),
            decreases self.statuses().len() - i,
        {
            if self.endpoint_status[i].endpoint.eq(&self.current_endpoint) {
                let current_status = &self.endpoint_status[i];
                if !current_status.available {
                    let improvement = if current_status.latency >= new_latency {
                        current_status.latency - new_latency
                    } else {
                        0
                    };
                    return Some(
                        SwitchDecision {
                            from: self.current_endpoint.clone(),
                            to: new_endpoint.clone(),
                            reason: SwitchReason::FailoverRecovery,
                            improvement_ms: improvement,
                        },
                    );
                }
                let improvement = if current_status.latency >= new_latency {
                    current_status.latency - new_latency
                } else {
                    0
                };
                if improvement >= threshold {
                    return Some(
                        SwitchDecision {
                            from: self.current_endpoint.clone(),
                            to: new_endpoint.clone(),
                            reason: SwitchReason::LatencyImprovement {
                                improvement_ms: improvement,
                            },
                            improvement_ms: improvement,
                        },
                    );
                }
                return None;
            }
            i += 1;
        }
        let improvement = if FAILED_ENDPOINT_LATENCY >= new_latency {
            FAILED_ENDPOINT_LATENCY - new_latency
        } else {
            0
        };
        Some(
            SwitchDecision {
                from: self.current_endpoint.clone(),
                to: new_endpoint.clone(),
                reason: SwitchReason::InitialSelection,
                improvement_ms: improvement,
            },
        )
    }
}

proof fn lemma_status_index_absent(s: Seq<EndpointStatus>, url: Seq<char>, a: int)
    requires
        status_index(s, url, 0) is None,
        0 <= a < s.len(),
    ensures
        s[a].endpoint@ != url,
    decreases a,
{
    lemma_status_index_none_from(s, url, 0, a);
}

proof fn lemma_status_index_none_from(s: Seq<EndpointStatus>, url: Seq<char>, k: int, a: int)
    requires
        status_index(s, url, k) is None,
        0 <= k <= a < s.len(),
    ensures
        s[a].endpoint@ != url,
    decreases a - k,
{
    if k < a {
        lemma_status_index_none_from(s, url, k + 1, a);
    }
}

/// The decision `should_switch_endpoint` takes, as a predicate over the
/// state: an empty selection yields an initial pick with no improvement; the
/// endpoint already current yields nothing; a missing current status yields
/// an initial pick improving on the failure sentinel; a down current endpoint
/// yields a failover; otherwise only an improvement at or above `threshold`
/// yields a switch.
pub open spec fn spec_should_switch(
    statuses: Seq<EndpointStatus>,
    current: String,
    threshold: u64,
    new_endpoint: String,
    new_latency: u64,
) -> Option<SwitchDecision> {
    if current@.len() == 0 {
        Some(
            SwitchDecision {
                from: current,
                to: new_endpoint,
                reason: SwitchReason::InitialSelection,
                improvement_ms: 0,
            },
        )
    } else if current@ == new_endpoint@ {
        None
    } else {
        match status_index(statuses, current@, 0) {
            Some(i) => if !statuses[i].available {
                Some(
                    SwitchDecision {
                        from: current,
                        to: new_endpoint,
                        reason: SwitchReason::FailoverRecovery,
                        improvement_ms: crate::orchestrator::sat_sub(
                            statuses[i].latency,
                            new_latency,
                        ),
                    },
                )
            } else if crate::orchestrator::sat_sub(statuses[i].latency, new_latency) >= threshold {
                Some(
                    SwitchDecision {
                        from: current,
                        to: new_endpoint,
                        reason: SwitchReason::LatencyImprovement {
                            improvement_ms: crate::orchestrator::sat_sub(
                                statuses[i].latency,
                                new_latency,
                            ),
                        },
                        improvement_ms: crate::orchestrator::sat_sub(
                            statuses[i].latency,
                            new_latency,
                        ),
                    },
                )
            } else {
                None
            },
            None => Some(
                SwitchDecision {
                    from: current,
                    to: new_endpoint,
                    reason: SwitchReason::InitialSelection,
                    improvement_ms: crate::orchestrator::sat_sub(
                        FAILED_ENDPOINT_LATENCY,
                        new_latency,
                    ),
                },
            ),
        }
    }
}

} // verus!
