//! Per-endpoint health status and the interpretation of probe outcomes.
//!
//! An endpoint is *available* with a real latency, *failed* with an error
//! message and the sentinel latency, or *checking* (not available, no error)
//! while a probe is in flight. Availability always implies the absence of an
//! error and a latency other than the failure sentinel.

use vstd::prelude::*;
use crate::history::{LatencyHistory, bounded_push, LatencyMeasurement, FAILED_ENDPOINT_LATENCY};
use crate::strutil::{spec_decimal, u64_to_string};

verus! {

/// Health of one endpoint, with its measurement window.
#[derive(Debug, PartialEq, Eq)]
pub struct EndpointStatus {
    pub endpoint: String,
    pub latency: u64,
    pub available: bool,
    pub error: Option<String>,
    pub last_check_ms: u64,
    pub latency_history: LatencyHistory,
}

/// Field-wise agreement of two statuses, with the history compared by
/// contents (a copied history is a distinct vector with the same entries).
pub open spec fn same_status(a: EndpointStatus, b: EndpointStatus) -> bool {
    &&& a.endpoint == b.endpoint
    &&& a.latency == b.latency
    &&& a.available == b.available
    &&& a.error == b.error
    &&& a.last_check_ms == b.last_check_ms
    &&& a.latency_history.view() == b.latency_history.view()
    &&& a.latency_history.cap() == b.latency_history.cap()
}

impl Clone for EndpointStatus {
    fn clone(&self) -> (r: Self)
        ensures
            same_status(r, *self),
    {
        EndpointStatus {
            endpoint: self.endpoint.clone(),
            latency: self.latency,
            available: self.available,
            error: crate::strutil::clone_opt_string(&self.error),
            last_check_ms: self.last_check_ms,
            latency_history: self.latency_history.clone(),
        }
    }
}

impl EndpointStatus {
    /// Availability implies no error and a latency other than the failure
    /// sentinel; the history is well formed.
    pub open spec fn wf(&self) -> bool {
        &&& self.available ==> self.error is None && self.latency != FAILED_ENDPOINT_LATENCY
        &&& self.latency_history.wf()
    }

    /// A failed endpoint: sentinel latency, the error recorded in the fields
    /// and as the first history entry.
    pub fn new_unavailable(endpoint: String, error: String, now_ms: u64) -> (r: Self)
        ensures
            r.endpoint == endpoint,
            r.latency == FAILED_ENDPOINT_LATENCY,
            !r.available,
            r.error == Some(error),
            r.last_check_ms == now_ms,
            r.latency_history.view() == seq![
                LatencyMeasurement {
                    timestamp_ms: now_ms,
                    latency: None::<u64>,
                    error: Some(error),
                },
            ],
            r.latency_history.cap() == crate::history::DEFAULT_LATENCY_HISTORY_SIZE,
            r.wf(),
    {
        let mut history = LatencyHistory::new_default();
        history.add_measurement(None, Some(error.clone()), now_ms);
        proof {
            assert(history.view() =~= seq![
                LatencyMeasurement {
                    timestamp_ms: now_ms,
                    latency: None::<u64>,
                    error: Some(error),
                },
            ]);
        }
        EndpointStatus {
            endpoint,
            latency: FAILED_ENDPOINT_LATENCY,
            available: false,
            error: Some(error),
            last_check_ms: now_ms,
            latency_history: history,
        }
    }

    /// The transient state while a probe is in flight: not available, no
    /// error, empty history.
    pub fn new_checking(endpoint: String, now_ms: u64) -> (r: Self)
        ensures
            r.endpoint == endpoint,
            r.latency == 0,
            !r.available,
            r.error is None,
            r.last_check_ms == now_ms,
            r.latency_history.view() == Seq::<LatencyMeasurement>::empty(),
            r.latency_history.cap() == crate::history::DEFAULT_LATENCY_HISTORY_SIZE,
            r.wf(),
    {
        EndpointStatus {
            endpoint,
            latency: 0,
            available: false,
            error: None,
            last_check_ms: now_ms,
            latency_history: LatencyHistory::new_default(),
        }
    }

    /// A healthy endpoint with its measured latency, recorded in the history.
    pub fn new_available(endpoint: String, latency: u64, now_ms: u64) -> (r: Self)
        requires
            latency < FAILED_ENDPOINT_LATENCY,
        ensures
            r.endpoint == endpoint,
            r.latency == latency,
            r.available,
            r.error is None,
            r.last_check_ms == now_ms,
            r.latency_history.view() == seq![
                LatencyMeasurement {
                    timestamp_ms: now_ms,
                    latency: Some(latency),
                    error: None::<String>,
                },
            ],
            r.latency_history.cap() == crate::history::DEFAULT_LATENCY_HISTORY_SIZE,
            r.wf(),
    {
        let mut history = LatencyHistory::new_default();
        history.add_measurement(Some(latency), None, now_ms);
        proof {
            assert(history.view() =~= seq![
                LatencyMeasurement {
                    timestamp_ms: now_ms,
                    latency: Some(latency),
                    error: None::<String>,
                },
            ]);
        }
        EndpointStatus {
            endpoint,
            latency,
            available: true,
            error: None,
            last_check_ms: now_ms,
            latency_history: history,
        }
    }

    /// Merges a fresh probe result: on success the latency is taken and the
    /// error cleared; on failure the sentinel latency and the error are set.
    /// Either way the measurement is appended to the history.
    pub fn update_with_check_result(
        &mut self,
        latency: Option<u64>,
        error: Option<String>,
        now_ms: u64,
    )
        requires
            old(self).wf(),
            latency is Some <==> error is None,
            latency is Some ==> latency->0 < FAILED_ENDPOINT_LATENCY,
        ensures
            final(self).endpoint == old(self).endpoint,
            final(self).latency == if latency is Some {
                latency->0
            } else {
                FAILED_ENDPOINT_LATENCY
            },
            final(self).available == (latency is Some),
            final(self).error == if latency is Some {
                None::<String>
            } else {
                error
            },
            final(self).last_check_ms == now_ms,
            final(self).latency_history.view() == bounded_push(
                old(self).latency_history.view(),
                LatencyMeasurement { timestamp_ms: now_ms, latency, error },
                old(self).latency_history.cap(),
            ),
            final(self).latency_history.cap() == old(self).latency_history.cap(),
            final(self).wf(),
    {
        self.last_check_ms = now_ms;
        match latency {
            Some(lat) => {
                self.latency = lat;
                self.available = true;
                self.error = None;
            },
            None => {
                self.latency = FAILED_ENDPOINT_LATENCY;
                self.available = false;
                self.error = crate::strutil::clone_opt_string(&error);
            },
        }
        self.latency_history.add_measurement(latency, error, now_ms);
    }
}

/// Law: an available endpoint carries no error and never the failure
/// sentinel as its latency.
pub proof fn lemma_available_implies_sound(st: EndpointStatus)
    requires
        st.wf(),
        st.available,
    ensures
        st.error is None,
        st.latency != FAILED_ENDPOINT_LATENCY,
{
}

/// What the probe runner observed for one endpoint.
#[derive(Debug, PartialEq, Eq)]
pub enum ProbeOutcome {
    /// No result arrived within the probe timeout.
    TimedOut,
    /// The channel to the probe worker closed without a result.
    Disconnected,
    /// The probe process could not be run; carries the failure text.
    ExecError { message: String },
    /// The probe process finished. `success` is its exit status,
    /// `stdout_empty` whether it produced no output, and `stderr` its
    /// diagnostic text when there was any.
    Completed { success: bool, stdout_empty: bool, stderr: Option<String> },
}

/// The status that one probe outcome yields for `endpoint`, per the rules of
/// `interpret_probe_outcome`.
pub open spec fn probe_success(outcome: ProbeOutcome) -> bool {
    outcome matches ProbeOutcome::Completed { success: true, stdout_empty: false, .. }
}

/// Turns one probe outcome into an endpoint status. The probe succeeded only
/// when the process exited cleanly and produced output; every other outcome
/// marks the endpoint unavailable with a descriptive error.
pub fn interpret_probe_outcome(
    endpoint: String,
    outcome: ProbeOutcome,
    timeout_seconds: u64,
    latency_ms: u64,
    now_ms: u64,
) -> (r: EndpointStatus)
    requires
        latency_ms < FAILED_ENDPOINT_LATENCY,
    ensures
        r.endpoint == endpoint,
        r.available == probe_success(outcome),
        r.last_check_ms == now_ms,
        probe_success(outcome) ==> r.latency == latency_ms && r.error is None,
        outcome is TimedOut ==> (r.error matches Some(e) && e@ == "Health check timed out after "@
            + spec_decimal(timeout_seconds as nat) + "s"@),
        outcome is Disconnected ==> (r.error matches Some(e)
            && e@ == "Health check thread disconnected"@),
        outcome matches ProbeOutcome::ExecError { message } ==> (r.error matches Some(e)
            && e@ == "Health check execution error: "@ + message@),
        outcome matches ProbeOutcome::Completed { success, stdout_empty, stderr } ==> ((success
            && !stdout_empty) || (r.error matches Some(e) && e@ == match stderr {
            Some(s) => s@,
            None => "No output from probe command"@,
        })),
        !probe_success(outcome) ==> r.latency == FAILED_ENDPOINT_LATENCY,
        r.wf(),
{
    match outcome {
        ProbeOutcome::TimedOut => {
            let mut msg = String::from_str("Health check timed out after ");
            msg.append(u64_to_string(timeout_seconds).as_str());
            msg.append("s");
            EndpointStatus::new_unavailable(endpoint, msg, now_ms)
        },
        ProbeOutcome::Disconnected => {
            let msg = String::from_str("Health check thread disconnected");
            EndpointStatus::new_unavailable(endpoint, msg, now_ms)
        },
        ProbeOutcome::ExecError { message } => {
            let mut msg = String::from_str("Health check execution error: ");
            msg.append(message.as_str());
            EndpointStatus::new_unavailable(endpoint, msg, now_ms)
        },
        ProbeOutcome::Completed { success, stdout_empty, stderr } => {
            if success && !stdout_empty {
                EndpointStatus::new_available(endpoint, latency_ms, now_ms)
            } else {
                let msg = match stderr {
                    Some(s) => s,
                    None => String::from_str("No output from probe command"),
                };
                EndpointStatus::new_unavailable(endpoint, msg, now_ms)
            }
        },
    }
}

/// Index of the lowest-latency available status among the first `n`; the
/// earliest such index wins ties.
pub open spec fn best_available_index(s: Seq<EndpointStatus>, n: int) -> Option<int>
    decreases n,
{
    if n <= 0 {
        None
    } else {
        let prev = best_available_index(s, n - 1);
        let prev_latency: int = match prev {
            Some(p) => s[p].latency as int,
            None => u64::MAX as int,
        };
        if s[n - 1].available && (s[n - 1].latency as int) < prev_latency {
            Some(n - 1)
        } else {
            prev
        }
    }
}

/// Latency recorded for `url` among the first `n` statuses (the last entry
/// wins if several carry the url); infinite when none does.
pub open spec fn latency_of_url(s: Seq<EndpointStatus>, url: Seq<char>, n: int) -> int
    decreases n,
{
    if n <= 0 {
        u64::MAX as int
    } else if s[n - 1].endpoint@ == url {
        s[n - 1].latency as int
    } else {
        latency_of_url(s, url, n - 1)
    }
}

/// Whether `find_best_endpoint` proposes a switch: there is a best available
/// endpoint, it is not the current one, and it improves on the current
/// latency (infinite when unknown) by more than the threshold.
pub open spec fn best_endpoint_found(
    s: Seq<EndpointStatus>,
    current: Seq<char>,
    threshold: u64,
) -> bool {
    match best_available_index(s, s.len() as int) {
        Some(bi) => s[bi].endpoint@ != current && s[bi].latency + threshold < latency_of_url(
            s,
            current,
            s.len() as int,
        ),
        None => false,
    }
}

/// The best available endpoint, when it beats the current one by more than
/// the switch threshold. Scans for the lowest-latency available status (first
/// wins ties); returns it only when it is not the current endpoint and
/// improves on the current latency (infinite when unknown).
#[verifier::loop_isolation(false)]
pub fn find_best_endpoint(
    statuses: &Vec<EndpointStatus>,
    current_endpoint: &String,
    switch_threshold_ms: u64,
) -> (r: Option<String>)
    ensures
        (r is Some) == best_endpoint_found(statuses@, current_endpoint@, switch_threshold_ms),
        r matches Some(u) ==> u@ == statuses@[best_available_index(
            statuses@,
            statuses@.len() as int,
        )->0].endpoint@,
{
    let ghost s = statuses@;
    let mut best_index: Option<usize> = None;
    let mut best_latency: u64 = u64::MAX;
    let mut i: usize = 0;
    while i < statuses.len()
        invariant
            0 <= i <= statuses.len(),
            match best_index {
                Some(b) => 0 <= b < i && best_available_index(s, i as int) == Some(b as int)
                    && best_latency == s[b as int].latency,
                None => best_available_index(s, i as int) is None && best_latency == u64::MAX,
            },
        decreases statuses.len() - i,
    {
        if statuses[i].available && statuses[i].latency < best_latency {
            best_latency = statuses[i].latency;
            best_index = Some(i);
        }
        proof {
            let prev = best_available_index(s, i as int);
            let prev_latency: int = match prev {
                Some(p) => s[p].latency as int,
                None => u64::MAX as int,
            };
            assert(best_available_index(s, i + 1) == if s[i as int].available && (s[
                i as int
            ].latency as int) < prev_latency {
                Some(i as int)
            } else {
                prev
            });
        }
        i += 1;
    }
    match best_index {
        Some(b) => {
            let best_url = &statuses[b].endpoint;
            if !best_url.eq(current_endpoint) {
                let mut current_latency: u64 = u64::MAX;
                let mut j: usize = 0;
                while j < statuses.len()
                    invariant
                        0 <= j <= statuses.len(),
                        current_latency == latency_of_url(s, current_endpoint@, j as int),
                    decreases statuses.len() - j,
                {
                    if statuses[j].endpoint.eq(current_endpoint) {
                        current_latency = statuses[j].latency;
                    }
                    proof {
                        assert(latency_of_url(s, current_endpoint@, j + 1) == if s[
                            j as int
                        ].endpoint@ == current_endpoint@ {
                            s[j as int].latency as int
                        } else {
                            latency_of_url(s, current_endpoint@, j as int)
                        });
                    }
                    j += 1;
                }
                if (best_latency as u128) + (switch_threshold_ms as u128) < (
                current_latency as u128) {
                    Some(statuses[b].endpoint.clone())
                } else {
                    None
                }
            } else {
                None
            }
        },
        None => None,
    }
}

} // verus!
