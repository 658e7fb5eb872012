//! The proxy request pipeline's decision core.
//!
//! A request is tracked from acceptance to completion: `begin_request`
//! registers it and emits its start events, `finish_request` closes it —
//! exactly once, whatever the outcome — and maps the outcome to the client's
//! reply. In between, the forwarding machinery rewrites the request for the
//! chosen endpoint and, when the primary endpoint is exhausted, walks the
//! fallback order: every other available endpoint first, then the remaining
//! ones, in registry order.

use vstd::prelude::*;
use crate::config::SimpleEndpoint;
use crate::events::{ActiveConnection, ConnectionStatus, ProxyEvent};
use crate::health::EndpointStatus;
use crate::state::status_index;
use crate::tracker::{apply_status, ConnectionTracker};

verus! {

/// `p` is a prefix of `s`.
pub open spec fn starts_with(s: Seq<char>, p: Seq<char>) -> bool {
    p.len() <= s.len() && s.subrange(0, p.len() as int) == p
}

/// The host part of an endpoint url: the url with its scheme prefix removed.
pub open spec fn spec_host_of(url: Seq<char>) -> Seq<char> {
    if starts_with(url, "https://"@) {
        url.skip(8)
    } else if starts_with(url, "http://"@) {
        url.skip(7)
    } else {
        url
    }
}

/// The target URI for a request: the endpoint url with the original path and
/// query appended.
pub fn build_target_uri(endpoint: &String, path_and_query: &str) -> (r: String)
    ensures
        r@ == endpoint@ + path_and_query@,
{
    let mut uri = endpoint.clone();
    uri.append(path_and_query);
    uri
}

/// Checks whether the characters of `s` start with the literal `p`.
fn chars_start_with(s: &Vec<char>, p: &Vec<char>) -> (r: bool)
    ensures
        r == starts_with(s@, p@),
{
    if p.len() > s.len() {
        return false;
    }
    let mut i: usize = 0;
    #[verifier::loop_isolation(false)]
    while i < p.len()
        invariant
            0 <= i <= p@.len(),
            p@.len() <= s@.len(),
            forall|j: int| 0 <= j < i ==> s@[j] == p@[j],
        decreases p@.len() - i,
    {
        if s[i] != p[i] {
            proof {
                assert(s@.subrange(0, p@.len() as int)[i as int] != p@[i as int]);
            }
            return false;
        }
        i += 1;
    }
    proof {
        assert(s@.subrange(0, p@.len() as int) =~= p@);
    }
    true
}

/// The host to place in the `host` header for an endpoint url.
pub fn host_of_url(url: &String) -> (r: String)
    ensures
        r@ == spec_host_of(url@),
{
    let chars = crate::strutil::chars_of(url.as_str());
    let https = crate::strutil::chars_of("https://");
    let http = crate::strutil::chars_of("http://");
    proof {
        reveal_strlit("https://");
        reveal_strlit("http://");
        assert("https://"@.len() == 8);
        assert("http://"@.len() == 7);
    }
    let skip: usize = if chars_start_with(&chars, &https) {
        8
    } else if chars_start_with(&chars, &http) {
        7
    } else {
        0
    };
    let mut rest: Vec<char> = Vec::new();
    let mut i: usize = skip;
    #[verifier::loop_isolation(false)]
    while i < chars.len()
        invariant
            skip <= i <= chars@.len(),
            skip <= chars@.len(),
            rest@ == chars@.subrange(skip as int, i as int),
        decreases chars@.len() - i,
    {
        rest.push(chars[i]);
        proof {
            assert(rest@ =~= chars@.subrange(skip as int, i + 1));
        }
        i += 1;
    }
    proof {
        assert(chars@.subrange(skip as int, chars@.len() as int) =~= chars@.skip(skip as int));
        assert(chars@.skip(0) =~= chars@);
    }
    crate::strutil::string_from_chars(&rest)
}

/// The authorization header for a bearer token; none when the token is empty.
pub fn bearer_header_value(token: &String) -> (r: Option<String>)
    ensures
        token@.len() == 0 ==> r is None,
        token@.len() > 0 ==> (r matches Some(v) && v@ == "Bearer "@ + token@),
{
    if token.as_str().is_empty() {
        None
    } else {
        let mut v = String::from_str("Bearer ");
        v.append(token.as_str());
        Some(v)
    }
}

/// Whether `statuses` records `url` as available.
pub open spec fn url_available(statuses: Seq<EndpointStatus>, url: Seq<char>) -> bool {
    match status_index(statuses, url, 0) {
        Some(i) => statuses[i].available,
        None => false,
    }
}

/// Whether `url` is recorded as available.
pub fn is_url_available(statuses: &Vec<EndpointStatus>, url: &String) -> (r: bool)
    ensures
        r == url_available(statuses@, url@),
{
    let mut i: usize = 0;
    #[verifier::loop_isolation(false)]
    while i < statuses.len()
        invariant
            0 <= i <= statuses@.len(),
            status_index(statuses@, url@, 0) == status_index(statuses@, url@, i as int),
        decreases statuses@.len() - i,
    {
        if statuses[i].endpoint.eq(url) {
            return statuses[i].available;
        }
        i += 1;
    }
    false
}

/// The available fallback candidates among the first `n` entries: every entry
/// other than the current endpoint whose url is recorded available, as
/// `(url, token)`, in registry order.
pub open spec fn available_candidates(
    entries: Seq<(String, SimpleEndpoint, String)>,
    statuses: Seq<EndpointStatus>,
    current: Seq<char>,
    n: int,
) -> Seq<(String, String)>
    decreases n,
{
    if n <= 0 {
        Seq::empty()
    } else {
        let prev = available_candidates(entries, statuses, current, n - 1);
        let e = entries[n - 1];
        if e.1.url@ != current && url_available(statuses, e.1.url@) {
            prev.push((e.1.url, e.0))
        } else {
            prev
        }
    }
}

/// The remaining fallback candidates among the first `n` entries: every entry
/// other than the current endpoint whose url is not recorded available.
pub open spec fn remaining_candidates(
    entries: Seq<(String, SimpleEndpoint, String)>,
    statuses: Seq<EndpointStatus>,
    current: Seq<char>,
    n: int,
) -> Seq<(String, String)>
    decreases n,
{
    if n <= 0 {
        Seq::empty()
    } else {
        let prev = remaining_candidates(entries, statuses, current, n - 1);
        let e = entries[n - 1];
        if e.1.url@ != current && !url_available(statuses, e.1.url@) {
            prev.push((e.1.url, e.0))
        } else {
            prev
        }
    }
}

/// The cross-endpoint fallback order after the primary endpoint failed: the
/// primary itself is skipped, every other available endpoint comes first, the
/// remaining endpoints last, each group in registry order; each candidate
/// carries its url and bearer token.
pub fn build_fallback_order(
    entries: &Vec<(String, SimpleEndpoint, String)>,
    statuses: &Vec<EndpointStatus>,
    current: &String,
) -> (r: Vec<(String, String)>)
    ensures
        r@ == available_candidates(entries@, statuses@, current@, entries@.len() as int)
            + remaining_candidates(entries@, statuses@, current@, entries@.len() as int),
{
    let mut candidates: Vec<(String, String)> = Vec::new();
    let mut i: usize = 0;
    #[verifier::loop_isolation(false)]
    while i < entries.len()
        invariant
            0 <= i <= entries@.len(),
            candidates@ == available_candidates(entries@, statuses@, current@, i as int),
        decreases entries@.len() - i,
    {
        if !entries[i].1.url.eq(current) && is_url_available(statuses, &entries[i].1.url) {
            let candidate = (entries[i].1.url.clone(), entries[i].0.clone());
            candidates.push(candidate);
        }
        i += 1;
    }
    let mut k: usize = 0;
    #[verifier::loop_isolation(false)]
    while k < entries.len()
        invariant
            0 <= k <= entries@.len(),
            candidates@ == available_candidates(entries@, statuses@, current@, entries@.len() as int)
                + remaining_candidates(entries@, statuses@, current@, k as int),
        decreases entries@.len() - k,
    {
        if !entries[k].1.url.eq(current) && !is_url_available(statuses, &entries[k].1.url) {
            let candidate = (entries[k].1.url.clone(), entries[k].0.clone());
            candidates.push(candidate);
            proof {
                assert(candidates@ =~= available_candidates(
                    entries@,
                    statuses@,
                    current@,
                    entries@.len() as int,
                ) + remaining_candidates(entries@, statuses@, current@, k + 1));
            }
        }
        k += 1;
    }
    proof {
        assert(candidates@ =~= available_candidates(
            entries@,
            statuses@,
            current@,
            entries@.len() as int,
        ) + remaining_candidates(entries@, statuses@, current@, entries@.len() as int));
    }
    candidates
}

/// Number of connection-started events in `events`.
pub open spec fn count_started(events: Seq<ProxyEvent>) -> nat
    decreases events.len(),
{
    if events.len() == 0 {
        0
    } else {
        count_started(events.drop_last()) + if events.last() is ConnectionStarted {
            1nat
        } else {
            0nat
        }
    }
}

/// Number of connection-completed events in `events`.
pub open spec fn count_completed(events: Seq<ProxyEvent>) -> nat
    decreases events.len(),
{
    if events.len() == 0 {
        0
    } else {
        count_completed(events.drop_last()) + if events.last() is ConnectionCompleted {
            1nat
        } else {
            0nat
        }
    }
}

proof fn lemma_counts_push(a: Seq<ProxyEvent>, e: ProxyEvent)
    ensures
        count_started(a.push(e)) == count_started(a) + if e is ConnectionStarted {
            1nat
        } else {
            0nat
        },
        count_completed(a.push(e)) == count_completed(a) + if e is ConnectionCompleted {
            1nat
        } else {
            0nat
        },
{
    assert(a.push(e).drop_last() =~= a);
    assert(a.push(e).last() == e);
}

/// Registers an accepted request: the connection is tracked, moved straight
/// to `Processing`, and announced with exactly one started event followed by
/// the request-received event for load tracking.
pub fn begin_request(
    tracker: &mut ConnectionTracker,
    connection_id: String,
    endpoint: String,
    now_ms: u64,
) -> (events: Vec<ProxyEvent>)
    requires
        old(tracker).wf(),
        old(tracker).connections().len() < u32::MAX,
        forall|j: int|
            0 <= j < old(tracker).connections().len() ==> old(tracker).connections()[j].id@
                != connection_id@,
    ensures
        final(tracker).wf(),
        final(tracker).connections() == old(tracker).connections().push(
            ActiveConnection {
                status: ConnectionStatus::Processing,
                ..ActiveConnection::spec_new(connection_id, endpoint, now_ms)
            },
        ),
        final(tracker).completed() == old(tracker).completed(),
        final(tracker).failed() == old(tracker).failed(),
        events@ == seq![
            ProxyEvent::ConnectionStarted(
                ActiveConnection::spec_new(connection_id, endpoint, now_ms),
            ),
            ProxyEvent::RequestReceived { endpoint, timestamp_ms: now_ms },
        ],
        count_started(events@) == 1,
        count_completed(events@) == 0,
{
    let endpoint_copy = endpoint.clone();
    let id_copy = connection_id.clone();
    let connection = tracker.start_connection(connection_id, endpoint, now_ms);
    let ghost after_start = tracker.connections();
    let moved = tracker.update_connection_status(&id_copy, ConnectionStatus::Processing);
    proof {
        assert(after_start[after_start.len() - 1].id@ == id_copy@);
        if moved is None {
            assert(false);
        }
        let i = choose|i: int|
            0 <= i < after_start.len() && after_start[i].id@ == id_copy@ && moved->0
                == apply_status(after_start[i], ConnectionStatus::Processing)
                && tracker.connections() == after_start.update(i, moved->0);
        assert(i == after_start.len() - 1);
        assert(tracker.connections() =~= old(tracker).connections().push(
            ActiveConnection {
                status: ConnectionStatus::Processing,
                ..ActiveConnection::spec_new(id_copy, endpoint_copy, now_ms)
            },
        ));
    }
    let mut events: Vec<ProxyEvent> = Vec::new();
    events.push(ProxyEvent::ConnectionStarted(connection));
    let ghost first = events@;
    events.push(ProxyEvent::RequestReceived { endpoint: endpoint_copy, timestamp_ms: now_ms });
    proof {
        assert(events@ =~= seq![
            ProxyEvent::ConnectionStarted(
                ActiveConnection::spec_new(id_copy, events@[1]->RequestReceived_endpoint, now_ms),
            ),
            events@[1],
        ]);
        lemma_counts_push(Seq::<ProxyEvent>::empty(), first[0]);
        assert(first =~= Seq::<ProxyEvent>::empty().push(first[0]));
        lemma_counts_push(first, events@[1]);
        assert(events@ =~= first.push(events@[1]));
    }
    events
}

/// How the forwarded response's body ended.
#[derive(Debug, Clone, Copy, PartialEq, Eq, Structural)]
pub enum BodyReadResult {
    /// The body was consumed to its end.
    Finished,
    /// Reading the body failed.
    ReadError,
    /// Reading the body ran out of time.
    TimedOut,
}

/// How the whole forwarding ended.
#[derive(Debug, Clone, Copy, PartialEq, Eq, Structural)]
pub enum ForwardOutcome {
    /// The primary endpoint answered; carries how its body read ended.
    PrimaryDelivered { body: BodyReadResult },
    /// A fallback endpoint answered; carries how its body read ended.
    FallbackDelivered { body: BodyReadResult },
    /// Every candidate failed or the fallback budget ran out.
    AllEndpointsFailed,
    /// The retry machinery surfaced an error with no endpoint to blame.
    FinalError,
}

/// What the client receives.
#[derive(Debug, PartialEq, Eq)]
pub enum ClientReply {
    /// Hand the upstream response through unchanged.
    Forward,
    /// Answer with this status and body text.
    Error { status: u16, body: String },
}

/// Whether the outcome delivered a fully read upstream response.
pub open spec fn outcome_forwarded(outcome: ForwardOutcome) -> bool {
    ||| outcome == (ForwardOutcome::PrimaryDelivered { body: BodyReadResult::Finished })
    ||| outcome == (ForwardOutcome::FallbackDelivered { body: BodyReadResult::Finished })
}

/// Closes a tracked request exactly once, whatever the outcome: when the
/// response body was fully read the connection passes through `Finishing`
/// first; the entry is then completed, one completed event is emitted, and
/// the outcome is mapped to the client's reply. Unknown ids close nothing and
/// emit nothing.
pub fn finish_request(
    tracker: &mut ConnectionTracker,
    connection_id: &String,
    outcome: &ForwardOutcome,
    now_ms: u64,
) -> (r: (ClientReply, Vec<ProxyEvent>))
    requires
        old(tracker).wf(),
        old(tracker).completed() < u64::MAX,
    ensures
        final(tracker).wf(),
        final(tracker).failed() == old(tracker).failed(),
        count_started(r.1@) == 0,
        (exists|i: int|
            0 <= i < old(tracker).connections().len() && #[trigger] old(tracker).connections()[i].id@
                == connection_id@) ==> {
            &&& count_completed(r.1@) == 1
            &&& r.1@ == seq![ProxyEvent::ConnectionCompleted(*connection_id)]
            &&& final(tracker).completed() == old(tracker).completed() + 1
            &&& exists|i: int|
                {
                    &&& 0 <= i < old(tracker).connections().len()
                    &&& old(tracker).connections()[i].id@ == connection_id@
                    &&& final(tracker).connections() == if outcome_forwarded(*outcome) {
                        old(tracker).connections().update(
                            i,
                            apply_status(
                                #[trigger] old(tracker).connections()[i],
                                ConnectionStatus::Finishing,
                            ),
                        ).remove(i)
                    } else {
                        old(tracker).connections().remove(i)
                    }
                }
        },
        (forall|i: int|
            0 <= i < old(tracker).connections().len() ==> #[trigger] old(
                tracker,
            ).connections()[i].id@ != connection_id@) ==> r.1@ == Seq::<ProxyEvent>::empty()
            && final(tracker).connections() == old(tracker).connections()
            && final(tracker).distribution() == old(tracker).distribution()
            && final(tracker).completed() == old(tracker).completed()
            && final(tracker).mean_ms() == old(tracker).mean_ms()
            && final(tracker).peak() == old(tracker).peak(),
        (r.0 is Forward) == outcome_forwarded(*outcome),
        *outcome == (ForwardOutcome::PrimaryDelivered { body: BodyReadResult::ReadError }) ==> (r.0
            matches ClientReply::Error { status, body } && status == 502 && body@
            == "Body consumption error"@),
        *outcome == (ForwardOutcome::PrimaryDelivered { body: BodyReadResult::TimedOut }) ==> (r.0
            matches ClientReply::Error { status, body } && status == 504 && body@
            == "Body consumption timeout"@),
        *outcome == (ForwardOutcome::FallbackDelivered { body: BodyReadResult::ReadError }) ==> (r.0
            matches ClientReply::Error { status, body } && status == 502 && body@
            == "Fallback body consumption error"@),
        *outcome == (ForwardOutcome::FallbackDelivered { body: BodyReadResult::TimedOut }) ==> (r.0
            matches ClientReply::Error { status, body } && status == 504 && body@
            == "Fallback body consumption timeout"@),
        *outcome == ForwardOutcome::AllEndpointsFailed ==> (r.0 matches ClientReply::Error {
            status,
            body,
        } && status == 503 && body@ == "All endpoints unavailable"@),
        *outcome == ForwardOutcome::FinalError ==> (r.0 matches ClientReply::Error { status, body }
            && status == 502 && body@ == "Request failed"@),
{
    let ghost pre = *old(tracker);
    let forwarded = match outcome {
        ForwardOutcome::PrimaryDelivered { body: BodyReadResult::Finished } => true,
        ForwardOutcome::FallbackDelivered { body: BodyReadResult::Finished } => true,
        _ => false,
    };
    if forwarded {
        let _ = tracker.update_connection_status(connection_id, ConnectionStatus::Finishing);
    }
    let ghost mid = *tracker;
    proof {
        assert(forwarded == outcome_forwarded(*outcome));
        assert(mid.connections().len() == pre.connections().len());
        assert forall|j: int|
            0 <= j < pre.connections().len() implies #[trigger] mid.connections()[j].id@
            == pre.connections()[j].id@ by {}
    }
    let completed = tracker.complete_connection(connection_id, now_ms);
    let mut events: Vec<ProxyEvent> = Vec::new();
    match completed {
        Some(_) => {
            events.push(ProxyEvent::ConnectionCompleted(connection_id.clone()));
            proof {
                assert(events@ =~= seq![ProxyEvent::ConnectionCompleted(*connection_id)]);
                let i2 = choose|i2: int|
                    0 <= i2 < mid.connections().len() && #[trigger] mid.connections()[i2].id@
                        == connection_id@ && tracker.connections() == mid.connections().remove(i2);
                assert(pre.connections()[i2].id@ == connection_id@);
                if forwarded {
                    let i1 = choose|i1: int|
                        0 <= i1 < pre.connections().len() && #[trigger] pre.connections()[i1].id@
                            == connection_id@ && mid.connections() == pre.connections().update(
                            i1,
                            apply_status(pre.connections()[i1], ConnectionStatus::Finishing),
                        );
                    assert(i1 == i2);
                    assert(tracker.connections() == pre.connections().update(
                        i2,
                        apply_status(pre.connections()[i2], ConnectionStatus::Finishing),
                    ).remove(i2));
                } else {
                    assert(mid == pre);
                }
                lemma_counts_push(
                    Seq::<ProxyEvent>::empty(),
                    ProxyEvent::ConnectionCompleted(*connection_id),
                );
                assert(count_started(events@) == 0 && count_completed(events@) == 1);
            }
        },
        None => {
            proof {
                assert forall|j: int|
                    0 <= j < pre.connections().len() implies #[trigger] pre.connections()[j].id@
                    != connection_id@ by {
                    assert(mid.connections()[j].id@ != connection_id@);
                }
                assert(tracker.connections() == pre.connections());
                assert(tracker.distribution() == pre.distribution());
                assert(count_started(events@) == 0 && count_completed(events@) == 0);
            }
        },
    }
    let reply = match outcome {
        ForwardOutcome::PrimaryDelivered { body } => {
            match body {
                BodyReadResult::Finished => ClientReply::Forward,
                BodyReadResult::ReadError => ClientReply::Error {
                    status: 502,
                    body: String::from_str("Body consumption error"),
                },
                BodyReadResult::TimedOut => ClientReply::Error {
                    status: 504,
                    body: String::from_str("Body consumption timeout"),
                },
            }
        },
        ForwardOutcome::FallbackDelivered { body } => {
            match body {
                BodyReadResult::Finished => ClientReply::Forward,
                BodyReadResult::ReadError => ClientReply::Error {
                    status: 502,
                    body: String::from_str("Fallback body consumption error"),
                },
                BodyReadResult::TimedOut => ClientReply::Error {
                    status: 504,
                    body: String::from_str("Fallback body consumption timeout"),
                },
            }
        },
        ForwardOutcome::AllEndpointsFailed => ClientReply::Error {
            status: 503,
            body: String::from_str("All endpoints unavailable"),
        },
        ForwardOutcome::FinalError => ClientReply::Error {
            status: 502,
            body: String::from_str("Request failed"),
        },
    };
    (reply, events)
}

proof fn lemma_count_events_concat(a: Seq<ProxyEvent>, b: Seq<ProxyEvent>)
    ensures
        count_started(a + b) == count_started(a) + count_started(b),
        count_completed(a + b) == count_completed(a) + count_completed(b),
    decreases b.len(),
{
    if b.len() == 0 {
        assert(a + b =~= a);
    } else {
        lemma_count_events_concat(a, b.drop_last());
        assert((a + b).drop_last() =~= a + b.drop_last());
        assert((a + b).last() == b.last());
    }
}

/// Law: over a request's lifetime — its begin events followed by its finish
/// events — exactly one connection-started and exactly one
/// connection-completed event are emitted.
pub proof fn lemma_request_lifecycle_events(begin: Seq<ProxyEvent>, finish: Seq<ProxyEvent>)
    requires
        count_started(begin) == 1,
        count_completed(begin) == 0,
        count_started(finish) == 0,
        count_completed(finish) == 1,
    ensures
        count_started(begin + finish) == 1,
        count_completed(begin + finish) == 1,
{
    lemma_count_events_concat(begin, finish);
}

} // verus!
