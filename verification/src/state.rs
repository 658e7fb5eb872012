//! The shared proxy state: the current endpoint, each endpoint's status, and
//! the selection mode. The orchestrator writes the current endpoint and the
//! statuses; the proxy pipeline reads the current endpoint and marks
//! endpoints failed when forwarding to them fails.

use vstd::prelude::*;
use crate::config::{all_entries, Config};
use crate::events::SelectionMode;
use crate::health::EndpointStatus;

verus! {

/// Index of the first status for `url`, if any.
pub open spec fn status_index(s: Seq<EndpointStatus>, url: Seq<char>, i: int) -> Option<int>
    decreases s.len() - i,
{
    if i < 0 || i >= s.len() {
        None
    } else if s[i].endpoint@ == url {
        Some(i)
    } else {
        status_index(s, url, i + 1)
    }
}

/// No two statuses are kept for the same endpoint url.
pub open spec fn unique_status_urls(s: Seq<EndpointStatus>) -> bool {
    forall|i: int, j: int| 0 <= i < j < s.len() ==> s[i].endpoint@ != s[j].endpoint@
}

/// Whether one of the first `n` endpoint entries carries the url `u`.
pub open spec fn entries_have_url(
    entries: Seq<(String, crate::config::SimpleEndpoint, String)>,
    n: int,
    u: Seq<char>,
) -> bool {
    exists|k: int| 0 <= k < n && k < entries.len() && (#[trigger] entries[k]).1.url@ == u
}

/// Whether some status is kept for the url `u`.
pub open spec fn statuses_have_url(s: Seq<EndpointStatus>, u: Seq<char>) -> bool {
    exists|i: int| 0 <= i < s.len() && (#[trigger] s[i]).endpoint@ == u
}

/// Authoritative shared state of the proxy.
#[derive(Debug)]
pub struct ProxyState {
    pub config: Config,
    pub endpoint_status: Vec<EndpointStatus>,
    pub current_endpoint: String,
    pub selection_mode: SelectionMode,
}

/// The state after traffic is pointed at `url`; everything else is kept.
pub open spec fn spec_switched(s: ProxyState, url: String) -> ProxyState {
    ProxyState { current_endpoint: url, ..s }
}

/// Law: switching to an endpoint twice leaves the same state as switching to
/// it once.
pub proof fn lemma_switch_idempotent(s: ProxyState, url: String)
    ensures
        spec_switched(spec_switched(s, url), url) == spec_switched(s, url),
{
}

impl ProxyState {
    /// Every status is well formed and no endpoint url is kept twice.
    pub open spec fn wf(&self) -> bool {
        &&& unique_status_urls(self.endpoint_status@)
        &&& forall|i: int|
            0 <= i < self.endpoint_status@.len() ==> (#[trigger] self.endpoint_status@[i]).wf()
    }

    /// A fresh state over `config` at `now_ms`: the current endpoint is the
    /// default group's first endpoint, or the very first endpoint, or empty
    /// when there is none; every configured endpoint url starts with an
    /// unavailable status reading `Not checked yet`; selection is automatic.
    pub fn new(config: Config, now_ms: u64) -> (r: Self)
        ensures
            r.selection_mode == SelectionMode::Auto,
            r.wf(),
            forall|i: int|
                0 <= i < r.endpoint_status@.len() ==> {
                    let st = #[trigger] r.endpoint_status@[i];
                    !st.available && st.latency == crate::history::FAILED_ENDPOINT_LATENCY
                        && st.last_check_ms == now_ms && (st.error matches Some(e) && e@
                        == "Not checked yet"@)
                },
            forall|u: Seq<char>| #[trigger]
                statuses_have_url(r.endpoint_status@, u) <==> entries_have_url(
                    all_entries(config.groups@),
                    all_entries(config.groups@).len() as int,
                    u,
                ),
            same_config_view(r.config, config),
    {
        let entries = config.get_all_endpoints();
        let current_endpoint: String = match config.get_default_endpoint() {
            Some((_token, endpoint)) => endpoint.url,
            None => {
                if entries.len() > 0 {
                    entries[0].1.url.clone()
                } else {
                    String::new()
                }
            },
        };
        let mut endpoint_status: Vec<EndpointStatus> = Vec::new();
        let ghost all = entries@;
        let mut k: usize = 0;
        #[verifier::loop_isolation(false)]
        while k < entries.len()
            invariant
                0 <= k <= all.len(),
                entries@ == all,
                unique_status_urls(endpoint_status@),
                forall|i: int|
                    0 <= i < endpoint_status@.len() ==> {
                        let st = #[trigger] endpoint_status@[i];
                        !st.available && st.latency == crate::history::FAILED_ENDPOINT_LATENCY
                            && st.last_check_ms == now_ms && (st.error matches Some(e) && e@
                            == "Not checked yet"@) && st.wf()
                    },
                forall|u: Seq<char>| #[trigger]
                    statuses_have_url(endpoint_status@, u) <==> entries_have_url(all, k as int, u),
            decreases all.len() - k,
        {
            let url = &entries[k].1.url;
            let mut present = false;
            let mut i: usize = 0;
            #[verifier::loop_isolation(false)]
            while i < endpoint_status.len()
                invariant
                    0 <= i <= endpoint_status@.len(),
                    present == exists|m: int|
                        0 <= m < i && (#[trigger] endpoint_status@[m]).endpoint@ == url@,
                decreases endpoint_status@.len() - i,
            {
                if endpoint_status[i].endpoint.eq(url) {
                    present = true;
                }
                i += 1;
            }
            let ghost before = endpoint_status@;
            proof {
                assert(present == statuses_have_url(before, url@));
            }
            if !present {
                let status = EndpointStatus::new_unavailable(
                    url.clone(),
                    String::from_str("Not checked yet"),
                    now_ms,
                );
                endpoint_status.push(status);
            }
            proof {
                assert forall|u: Seq<char>| #[trigger]
                    statuses_have_url(endpoint_status@, u) <==> entries_have_url(
                        all,
                        k + 1,
                        u,
                    ) by {
                    if statuses_have_url(endpoint_status@, u) {
                        let w = choose|w: int|
                            0 <= w < endpoint_status@.len() && (
                            #[trigger] endpoint_status@[w]).endpoint@ == u;
                        if w < before.len() {
                            assert(statuses_have_url(before, u));
                            assert(entries_have_url(all, k as int, u));
                        } else {
                            assert(endpoint_status@[w].endpoint@ == url@);
                            assert(all[k as int].1.url@ == u);
                        }
                    }
                    if entries_have_url(all, k + 1, u) {
                        let m = choose|m: int|
                            0 <= m < k + 1 && m < all.len() && (#[trigger] all[m]).1.url@ == u;
                        if m < k {
                            assert(entries_have_url(all, k as int, u));
                            assert(statuses_have_url(before, u));
                            let w = choose|w: int|
                                0 <= w < before.len() && (#[trigger] before[w]).endpoint@ == u;
                            assert(endpoint_status@[w].endpoint@ == u);
                        } else {
                            assert(u == url@);
                            if present {
                                let w = choose|w: int|
                                    0 <= w < before.len() && (#[trigger] before[w]).endpoint@
                                        == url@;
                                assert(endpoint_status@[w].endpoint@ == u);
                            } else {
                                assert(endpoint_status@.last().endpoint@ == u);
                            }
                        }
                        assert(statuses_have_url(endpoint_status@, u));
                    }
                }
            }
            k += 1;
        }
        ProxyState {
            config,
            endpoint_status,
            current_endpoint,
            selection_mode: SelectionMode::Auto,
        }
    }

    /// Points traffic at `new_endpoint`; a no-op when it is current already.
    /// Returns the pair of latencies (current first, new second, the failure
    /// sentinel when unknown) to announce, or nothing when no switch
    /// happened.
    pub fn switch_endpoint(&mut self, new_endpoint: String) -> (log: Option<(u64, u64)>)
        ensures
            *final(self) == spec_switched(*old(self), new_endpoint),
            log is Some <==> old(self).current_endpoint@ != new_endpoint@,
            log matches Some(pair) ==> pair.0 == latency_for(
                old(self).endpoint_status@,
                old(self).current_endpoint@,
            ) && pair.1 == latency_for(old(self).endpoint_status@, new_endpoint@),
    {
        if !self.current_endpoint.eq(&new_endpoint) {
            let from_latency = lookup_latency(&self.endpoint_status, &self.current_endpoint);
            let to_latency = lookup_latency(&self.endpoint_status, &new_endpoint);
            self.current_endpoint = new_endpoint;
            Some((from_latency, to_latency))
        } else {
            self.current_endpoint = new_endpoint;
            None
        }
    }

    /// Points traffic at `new_endpoint` without announcing anything.
    pub fn switch_endpoint_silent(&mut self, new_endpoint: String)
        ensures
            *final(self) == spec_switched(*old(self), new_endpoint),
    {
        self.current_endpoint = new_endpoint;
    }

    /// Marks the endpoint `url` failed with the given error at `now_ms`,
    /// keeping its latency and history; unknown urls are ignored.
    pub fn mark_failed(&mut self, url: &String, error: String, now_ms: u64)
        requires
            old(self).wf(),
        ensures
            final(self).config == old(self).config,
            final(self).current_endpoint == old(self).current_endpoint,
            final(self).selection_mode == old(self).selection_mode,
            match status_index(old(self).endpoint_status@, url@, 0) {
                Some(i) => final(self).endpoint_status@ == old(self).endpoint_status@.update(
                    i,
                    EndpointStatus {
                        available: false,
                        error: Some(error),
                        last_check_ms: now_ms,
                        ..old(self).endpoint_status@[i]
                    },
                ),
                None => final(self).endpoint_status@ == old(self).endpoint_status@,
            },
            final(self).wf(),
    {
        let mut i: usize = 0;
        #[verifier::loop_isolation(false)]
        while i < self.endpoint_status.len()
            invariant
                0 <= i <= self.endpoint_status@.len(),
                self.endpoint_status@ == old(self).endpoint_status@,
                status_index(old(self).endpoint_status@, url@, 0) == status_index(
                    old(self).endpoint_status@,
                    url@,
                    i as int,
                ),
                self.config == old(self).config,
                self.current_endpoint == old(self).current_endpoint,
                self.selection_mode == old(self).selection_mode,
            decreases self.endpoint_status@.len() - i,
        {
            if self.endpoint_status[i].endpoint.eq(url) {
                let ghost before = self.endpoint_status@;
                let mut updated = self.endpoint_status.remove(i);
                updated.available = false;
                updated.error = Some(error);
                updated.last_check_ms = now_ms;
                self.endpoint_status.insert(i, updated);
                proof {
                    assert(self.endpoint_status@ =~= before.update(
                        i as int,
                        EndpointStatus {
                            available: false,
                            error: Some(error),
                            last_check_ms: now_ms,
                            ..before[i as int]
                        },
                    ));
                }
                return ;
            }
            i += 1;
        }
    }
}

/// The latency recorded for `url`, or the failure sentinel when `url` has no
/// status.
pub open spec fn latency_for(s: Seq<EndpointStatus>, url: Seq<char>) -> u64 {
    match status_index(s, url, 0) {
        Some(i) => s[i].latency,
        None => crate::history::FAILED_ENDPOINT_LATENCY,
    }
}

/// Looks the latency up for `url`, yielding the failure sentinel when absent.
fn lookup_latency(s: &Vec<EndpointStatus>, url: &String) -> (r: u64)
    ensures
        r == latency_for(s@, url@),
{
    let mut i: usize = 0;
    #[verifier::loop_isolation(false)]
    while i < s.len()
        invariant
            0 <= i <= s@.len(),
            status_index(s@, url@, 0) == status_index(s@, url@, i as int),
        decreases s@.len() - i,
    {
        if s[i].endpoint.eq(url) {
            return s[i].latency;
        }
        i += 1;
    }
    crate::history::FAILED_ENDPOINT_LATENCY
}

/// Field-wise agreement of two configurations (see the config module).
pub open spec fn same_config_view(a: Config, b: Config) -> bool {
    crate::config::same_config(a, b)
}

} // verus!
