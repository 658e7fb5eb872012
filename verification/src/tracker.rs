//! Tracking of in-flight proxied connections.
//!
//! The tracker holds the active connections, a per-endpoint distribution that
//! always equals the grouped count of the active set, the peak concurrency,
//! and completion statistics with an exact streaming mean. Every operation
//! preserves the distribution invariant: for every endpoint url, the recorded
//! count equals the number of active connections to it, and the counts sum to
//! the number of active connections.

use vstd::prelude::*;
use crate::events::{ActiveConnection, ConnectionStatus, status_rank};
use crate::strutil::{spec_decimal, u64_to_string};

verus! {

/// Whole seconds a connection has been alive at `now_ms` (zero when the clock
/// reads earlier than the start).
pub open spec fn conn_age_secs(c: ActiveConnection, now_ms: u64) -> int {
    if now_ms >= c.start_time_ms {
        (now_ms - c.start_time_ms) / 1000
    } else {
        0
    }
}

/// Number of connections in `s` to the endpoint `url`.
pub open spec fn count_conns(s: Seq<ActiveConnection>, url: Seq<char>) -> nat
    decreases s.len(),
{
    if s.len() == 0 {
        0
    } else {
        count_conns(s.drop_last(), url) + if s.last().endpoint@ == url {
            1nat
        } else {
            0nat
        }
    }
}

/// No two connections share an id.
pub open spec fn unique_ids(s: Seq<ActiveConnection>) -> bool {
    forall|i: int, j: int| 0 <= i < j < s.len() ==> s[i].id@ != s[j].id@
}

/// No two distribution entries share a url.
pub open spec fn unique_keys(d: Seq<(String, u32)>) -> bool {
    forall|i: int, j: int| 0 <= i < j < d.len() ==> d[i].0@ != d[j].0@
}

/// Count recorded in `d` for the endpoint `url` (summing duplicates, of which
/// a well-formed distribution has none).
pub open spec fn dist_count(d: Seq<(String, u32)>, url: Seq<char>) -> nat
    decreases d.len(),
{
    if d.len() == 0 {
        0
    } else {
        dist_count(d.drop_last(), url) + if d.last().0@ == url {
            d.last().1 as nat
        } else {
            0nat
        }
    }
}

/// Sum of all counts recorded in `d`.
pub open spec fn dist_total(d: Seq<(String, u32)>) -> nat
    decreases d.len(),
{
    if d.len() == 0 {
        0
    } else {
        dist_total(d.drop_last()) + d.last().1 as nat
    }
}

// Lemmas about count_conns.

proof fn lemma_count_conns_push(s: Seq<ActiveConnection>, c: ActiveConnection, url: Seq<char>)
    ensures
        count_conns(s.push(c), url) == count_conns(s, url) + if c.endpoint@ == url {
            1nat
        } else {
            0nat
        },
{
    assert(s.push(c).drop_last() =~= s);
    assert(s.push(c).last() == c);
}

proof fn lemma_count_conns_prepend(s: Seq<ActiveConnection>, url: Seq<char>)
    requires
        s.len() > 0,
    ensures
        count_conns(s, url) == count_conns(s.skip(1), url) + if s[0].endpoint@ == url {
            1nat
        } else {
            0nat
        },
    decreases s.len(),
{
    if s.len() == 1 {
        assert(s.skip(1) =~= Seq::<ActiveConnection>::empty());
        assert(s.drop_last() =~= Seq::<ActiveConnection>::empty());
    } else {
        lemma_count_conns_prepend(s.drop_last(), url);
        assert(s.drop_last().skip(1) =~= s.skip(1).drop_last());
        assert(s.skip(1).last() == s.last());
    }
}

proof fn lemma_count_conns_le_len(s: Seq<ActiveConnection>, url: Seq<char>)
    ensures
        count_conns(s, url) <= s.len(),
    decreases s.len(),
{
    if s.len() > 0 {
        lemma_count_conns_le_len(s.drop_last(), url);
    }
}

proof fn lemma_count_conns_member(s: Seq<ActiveConnection>, i: int)
    requires
        0 <= i < s.len(),
    ensures
        count_conns(s, s[i].endpoint@) >= 1,
    decreases s.len(),
{
    if i == s.len() - 1 {
    } else {
        lemma_count_conns_member(s.drop_last(), i);
    }
}

proof fn lemma_count_conns_update(
    s: Seq<ActiveConnection>,
    i: int,
    c: ActiveConnection,
    url: Seq<char>,
)
    requires
        0 <= i < s.len(),
        s[i].endpoint@ == c.endpoint@,
    ensures
        count_conns(s.update(i, c), url) == count_conns(s, url),
    decreases s.len(),
{
    if i == s.len() - 1 {
        assert(s.update(i, c).drop_last() =~= s.drop_last());
        assert(s.update(i, c).last() == c);
    } else {
        lemma_count_conns_update(s.drop_last(), i, c, url);
        assert(s.update(i, c).drop_last() =~= s.drop_last().update(i, c));
        assert(s.update(i, c).last() == s.last());
    }
}

// Lemmas about dist_count and dist_total.

proof fn lemma_dist_push(d: Seq<(String, u32)>, p: (String, u32), url: Seq<char>)
    ensures
        dist_count(d.push(p), url) == dist_count(d, url) + if p.0@ == url {
            p.1 as nat
        } else {
            0nat
        },
        dist_total(d.push(p)) == dist_total(d) + p.1,
{
    assert(d.push(p).drop_last() =~= d);
    assert(d.push(p).last() == p);
}

proof fn lemma_dist_update(d: Seq<(String, u32)>, i: int, p: (String, u32), url: Seq<char>)
    requires
        0 <= i < d.len(),
    ensures
        dist_count(d.update(i, p), url) == dist_count(d, url) - (if d[i].0@ == url {
            d[i].1 as int
        } else {
            0
        }) + (if p.0@ == url {
            p.1 as int
        } else {
            0
        }),
        dist_total(d.update(i, p)) == dist_total(d) - d[i].1 + p.1,
    decreases d.len(),
{
    if i == d.len() - 1 {
        assert(d.update(i, p).drop_last() =~= d.drop_last());
        assert(d.update(i, p).last() == p);
    } else {
        lemma_dist_update(d.drop_last(), i, p, url);
        assert(d.update(i, p).drop_last() =~= d.drop_last().update(i, p));
        assert(d.update(i, p).last() == d.last());
    }
}

proof fn lemma_dist_remove(d: Seq<(String, u32)>, i: int, url: Seq<char>)
    requires
        0 <= i < d.len(),
    ensures
        dist_count(d.remove(i), url) == dist_count(d, url) - (if d[i].0@ == url {
            d[i].1 as int
        } else {
            0
        }),
        dist_total(d.remove(i)) == dist_total(d) - d[i].1,
    decreases d.len(),
{
    if i == d.len() - 1 {
        assert(d.remove(i) =~= d.drop_last());
    } else {
        lemma_dist_remove(d.drop_last(), i, url);
        assert(d.remove(i).drop_last() =~= d.drop_last().remove(i));
        assert(d.remove(i).last() == d.last());
    }
}

proof fn lemma_dist_count_absent(d: Seq<(String, u32)>, url: Seq<char>)
    requires
        forall|i: int| 0 <= i < d.len() ==> d[i].0@ != url,
    ensures
        dist_count(d, url) == 0,
    decreases d.len(),
{
    if d.len() > 0 {
        lemma_dist_count_absent(d.drop_last(), url);
    }
}

proof fn lemma_dist_entry(d: Seq<(String, u32)>, i: int)
    requires
        unique_keys(d),
        0 <= i < d.len(),
    ensures
        dist_count(d, d[i].0@) == d[i].1,
    decreases d.len(),
{
    if i == d.len() - 1 {
        lemma_dist_count_absent(d.drop_last(), d[i].0@);
    } else {
        assert(unique_keys(d.drop_last()));
        lemma_dist_entry(d.drop_last(), i);
    }
}

proof fn lemma_dist_count_witness(d: Seq<(String, u32)>, url: Seq<char>)
    requires
        dist_count(d, url) > 0,
    ensures
        exists|i: int| 0 <= i < d.len() && d[i].0@ == url,
    decreases d.len(),
{
    if d.last().0@ == url {
        assert(d[d.len() - 1].0@ == url);
    } else {
        lemma_dist_count_witness(d.drop_last(), url);
        let i = choose|i: int| 0 <= i < d.drop_last().len() && d.drop_last()[i].0@ == url;
        assert(d[i].0@ == url);
    }
}

// Exec helpers on the distribution vector.

fn dist_find(d: &Vec<(String, u32)>, url: &String) -> (r: Option<usize>)
    ensures
        match r {
            Some(i) => 0 <= i < d@.len() && d@[i as int].0@ == url@,
            None => forall|i: int| 0 <= i < d@.len() ==> d@[i].0@ != url@,
        },
{
    let mut i: usize = 0;
    while i < d.len()
        invariant
            0 <= i <= d@.len(),
            forall|j: int| 0 <= j < i ==> d@[j].0@ != url@,
        decreases d@.len() - i,
    {
        if d[i].0.eq(url) {
            return Some(i);
        }
        i += 1;
    }
    None
}

/// Raises the count recorded for `url` by one, adding an entry when there is
/// none. Counts for every other url are untouched.
fn dist_increment(d: &mut Vec<(String, u32)>, url: &String)
    requires
        unique_keys(old(d)@),
        forall|i: int| 0 <= i < old(d)@.len() ==> (#[trigger] old(d)@[i]).1 >= 1,
        dist_count(old(d)@, url@) < u32::MAX,
    ensures
        unique_keys(final(d)@),
        forall|i: int| 0 <= i < final(d)@.len() ==> (#[trigger] final(d)@[i]).1 >= 1,
        dist_count(final(d)@, url@) == dist_count(old(d)@, url@) + 1,
        forall|u: Seq<char>|
            u != url@ ==> #[trigger] dist_count(final(d)@, u) == dist_count(old(d)@, u),
        dist_total(final(d)@) == dist_total(old(d)@) + 1,
{
    let found = dist_find(d, url);
    match found {
        Some(i) => {
            proof {
                lemma_dist_entry(old(d)@, i as int);
            }
            let count = d[i].1;
            let entry = (url.clone(), count + 1);
            d.set(i, entry);
            proof {
                assert forall|u: Seq<char>| true implies #[trigger] dist_count(d@, u)
                    == dist_count(old(d)@, u) + if u == url@ {
                    1int
                } else {
                    0
                } by {
                    lemma_dist_update(old(d)@, i as int, entry, u);
                    assert(d@ == old(d)@.update(i as int, entry));
                }
                lemma_dist_update(old(d)@, i as int, entry, url@);
            }
        },
        None => {
            let entry = (url.clone(), 1u32);
            proof {
                lemma_dist_count_absent(old(d)@, url@);
            }
            d.push(entry);
            proof {
                assert forall|u: Seq<char>| true implies #[trigger] dist_count(d@, u)
                    == dist_count(old(d)@, u) + if u == url@ {
                    1int
                } else {
                    0
                } by {
                    lemma_dist_push(old(d)@, entry, u);
                }
                lemma_dist_push(old(d)@, entry, url@);
            }
        },
    }
}

/// Lowers the count recorded for `url` by one, dropping the entry when it
/// reaches zero. Counts for every other url are untouched.
fn dist_decrement(d: &mut Vec<(String, u32)>, url: &String)
    requires
        unique_keys(old(d)@),
        forall|i: int| 0 <= i < old(d)@.len() ==> (#[trigger] old(d)@[i]).1 >= 1,
        dist_count(old(d)@, url@) >= 1,
    ensures
        unique_keys(final(d)@),
        forall|i: int| 0 <= i < final(d)@.len() ==> (#[trigger] final(d)@[i]).1 >= 1,
        dist_count(final(d)@, url@) == dist_count(old(d)@, url@) - 1,
        forall|u: Seq<char>|
            u != url@ ==> #[trigger] dist_count(final(d)@, u) == dist_count(old(d)@, u),
        dist_total(final(d)@) == dist_total(old(d)@) - 1,
{
    proof {
        lemma_dist_count_witness(old(d)@, url@);
    }
    let found = dist_find(d, url);
    match found {
        Some(i) => {
            proof {
                lemma_dist_entry(old(d)@, i as int);
            }
            let count = d[i].1;
            if count <= 1 {
                let _ = d.remove(i);
                proof {
                    assert forall|u: Seq<char>| true implies #[trigger] dist_count(d@, u)
                        == dist_count(old(d)@, u) - if u == url@ {
                        1int
                    } else {
                        0
                    } by {
                        lemma_dist_remove(old(d)@, i as int, u);
                    }
                    lemma_dist_remove(old(d)@, i as int, url@);
                    assert forall|a: int, b: int| 0 <= a < b < d@.len() implies d@[a].0@
                        != d@[b].0@ by {
                        if b < i as int {
                            assert(old(d)@[a].0@ != old(d)@[b].0@);
                        } else if a < i as int {
                            assert(old(d)@[a].0@ != old(d)@[b + 1].0@);
                        } else {
                            assert(old(d)@[a + 1].0@ != old(d)@[b + 1].0@);
                        }
                    }
                }
            } else {
                let entry = (url.clone(), count - 1);
                d.set(i, entry);
                proof {
                    assert forall|u: Seq<char>| true implies #[trigger] dist_count(d@, u)
                        == dist_count(old(d)@, u) - if u == url@ {
                        1int
                    } else {
                        0
                    } by {
                        lemma_dist_update(old(d)@, i as int, entry, u);
                        assert(d@ == old(d)@.update(i as int, entry));
                    }
                    lemma_dist_update(old(d)@, i as int, entry, url@);
                }
            }
        },
        None => {
            proof {
                assert(false);
            }
        },
    }
}

/// Looks a connection up by id.
fn find_conn(active: &Vec<ActiveConnection>, id: &String) -> (r: Option<usize>)
    ensures
        match r {
            Some(i) => 0 <= i < active@.len() && active@[i as int].id@ == id@,
            None => forall|i: int| 0 <= i < active@.len() ==> active@[i].id@ != id@,
        },
{
    let mut i: usize = 0;
    while i < active.len()
        invariant
            0 <= i <= active@.len(),
            forall|j: int| 0 <= j < i ==> active@[j].id@ != id@,
        decreases active@.len() - i,
    {
        if active[i].id.eq(id) {
            return Some(i);
        }
        i += 1;
    }
    None
}

/// The stage a connection ends in after a requested transition: the request
/// applies only when it does not move backward in the
/// `Connecting -> Processing -> Finishing` chain.
pub open spec fn apply_status(c: ActiveConnection, status: ConnectionStatus) -> ActiveConnection {
    if status_rank(status) >= status_rank(c.status) {
        ActiveConnection { status, ..c }
    } else {
        c
    }
}

/// Running statistics over completed and failed connections.
#[derive(Debug, Clone, Copy, PartialEq, Eq)]
pub struct ConnectionStats {
    pub total_completed: u64,
    pub total_failed: u64,
    pub average_duration_ms: u64,
    pub peak_concurrent: u32,
    pub last_activity_ms: Option<u64>,
}

/// The exact streaming mean: the mean after the `n`-th sample `dur`, given
/// the mean of the first `n - 1` samples.
pub open spec fn mean_update(prev_avg: u64, n: int, dur: u64) -> int
    recommends
        n >= 1,
{
    if n == 1 {
        dur as int
    } else {
        (prev_avg * (n - 1) + dur) / n
    }
}

/// Tracks active connections, their per-endpoint distribution, and completion
/// statistics.
#[derive(Debug)]
pub struct ConnectionTracker {
    active: Vec<ActiveConnection>,
    completed_count: u64,
    total_failed: u64,
    peak_concurrent: u32,
    endpoint_distribution: Vec<(String, u32)>,
    average_duration_ms: u64,
    last_activity_ms: Option<u64>,
}

impl ConnectionTracker {
    /// The active connections, in insertion order.
    pub closed spec fn connections(&self) -> Seq<ActiveConnection> {
        self.active@
    }

    /// The per-endpoint distribution entries.
    pub closed spec fn distribution(&self) -> Seq<(String, u32)> {
        self.endpoint_distribution@
    }

    /// Connections completed so far.
    pub closed spec fn completed(&self) -> u64 {
        self.completed_count
    }

    /// Connections discarded as stale so far.
    pub closed spec fn failed(&self) -> u64 {
        self.total_failed
    }

    /// Highest number of simultaneously active connections seen.
    pub closed spec fn peak(&self) -> u32 {
        self.peak_concurrent
    }

    /// Running mean duration of completed connections, in milliseconds.
    pub closed spec fn mean_ms(&self) -> u64 {
        self.average_duration_ms
    }

    /// Instant of the last start or completion.
    pub closed spec fn last_activity(&self) -> Option<u64> {
        self.last_activity_ms
    }

    /// The tracker's invariant: ids unique, distribution keys unique with
    /// positive counts, every recorded count equal to the grouped count of
    /// the active set, and the counts summing to the number of active
    /// connections.
    pub open spec fn wf(&self) -> bool {
        &&& unique_ids(self.connections())
        &&& unique_keys(self.distribution())
        &&& forall|u: Seq<char>| #[trigger]
            dist_count(self.distribution(), u) == count_conns(self.connections(), u)
        &&& forall|i: int|
            0 <= i < self.distribution().len() ==> (#[trigger] self.distribution()[i]).1 >= 1
        &&& dist_total(self.distribution()) == self.connections().len()
        &&& self.connections().len() <= u32::MAX
    }

    /// An empty tracker.
    pub fn new() -> (r: Self)
        ensures
            r.connections() == Seq::<ActiveConnection>::empty(),
            r.distribution() == Seq::<(String, u32)>::empty(),
            r.completed() == 0,
            r.failed() == 0,
            r.peak() == 0,
            r.mean_ms() == 0,
            r.last_activity() is None,
            r.wf(),
    {
        let r = ConnectionTracker {
            active: Vec::new(),
            completed_count: 0,
            total_failed: 0,
            peak_concurrent: 0,
            endpoint_distribution: Vec::new(),
            average_duration_ms: 0,
            last_activity_ms: None,
        };
        proof {
            assert forall|u: Seq<char>| true implies #[trigger] dist_count(r.distribution(), u)
                == count_conns(r.connections(), u) by {
                assert(dist_count(r.distribution(), u) == 0);
                assert(count_conns(r.connections(), u) == 0);
            }
        }
        r
    }

    /// Starts tracking a connection: inserts it in the `Connecting` stage,
    /// raises its endpoint's distribution count, and updates the peak.
    /// Returns a copy of the new record.
    pub fn start_connection(&mut self, id: String, endpoint: String, now_ms: u64) -> (r:
        ActiveConnection)
        requires
            old(self).wf(),
            old(self).connections().len() < u32::MAX,
            forall|j: int|
                0 <= j < old(self).connections().len() ==> old(self).connections()[j].id@ != id@,
        ensures
            r == ActiveConnection::spec_new(id, endpoint, now_ms),
            final(self).connections() == old(self).connections().push(r),
            final(self).completed() == old(self).completed(),
            final(self).failed() == old(self).failed(),
            final(self).mean_ms() == old(self).mean_ms(),
            final(self).peak() == if old(self).connections().len() + 1 > old(self).peak() {
                (old(self).connections().len() + 1) as u32
            } else {
                old(self).peak()
            },
            final(self).last_activity() == Some(now_ms),
            final(self).wf(),
    {
        let connection = ActiveConnection::new(id, endpoint, now_ms);
        let r = connection.clone();
        proof {
            lemma_count_conns_le_len(self.active@, connection.endpoint@);
        }
        dist_increment(&mut self.endpoint_distribution, &connection.endpoint);
        let ghost active_before = self.active@;
        self.active.push(connection);
        proof {
            assert forall|u: Seq<char>| true implies #[trigger] dist_count(
                self.endpoint_distribution@,
                u,
            ) == count_conns(self.active@, u) by {
                lemma_count_conns_push(active_before, self.active@.last(), u);
            }
        }
        if self.active.len() as u32 > self.peak_concurrent {
            self.peak_concurrent = self.active.len() as u32;
        }
        self.last_activity_ms = Some(now_ms);
        r
    }

    /// Requests a stage transition for the connection with the given id.
    /// Backward transitions are ignored, so the stage never moves backward;
    /// unknown ids are ignored. Returns a copy of the resulting record.
    pub fn update_connection_status(&mut self, id: &String, status: ConnectionStatus) -> (r: Option<
        ActiveConnection,
    >)
        requires
            old(self).wf(),
        ensures
            final(self).distribution() == old(self).distribution(),
            final(self).completed() == old(self).completed(),
            final(self).failed() == old(self).failed(),
            final(self).peak() == old(self).peak(),
            final(self).mean_ms() == old(self).mean_ms(),
            final(self).last_activity() == old(self).last_activity(),
            r is None ==> final(self).connections() == old(self).connections() && (forall|j: int|
                0 <= j < old(self).connections().len() ==> old(self).connections()[j].id@ != id@),
            r matches Some(c) ==> exists|i: int|
                0 <= i < old(self).connections().len() && old(self).connections()[i].id@ == id@ && c
                    == apply_status(old(self).connections()[i], status) && final(self).connections()
                    == old(self).connections().update(i, c),
            final(self).wf(),
    {
        let found = find_conn(&self.active, id);
        match found {
            Some(i) => {
                let updated = if status_rank_exec(status) >= status_rank_exec(
                    self.active[i].status,
                ) {
                    let mut c = self.active[i].clone();
                    c.update_status(status);
                    c
                } else {
                    self.active[i].clone()
                };
                let r = updated.clone();
                let ghost active_before = self.active@;
                self.active.set(i, updated);
                proof {
                    assert(r == apply_status(active_before[i as int], status));
                    assert forall|u: Seq<char>| true implies #[trigger] dist_count(
                        self.endpoint_distribution@,
                        u,
                    ) == count_conns(self.active@, u) by {
                        lemma_count_conns_update(active_before, i as int, r, u);
                    }
                    assert(exists|k: int|
                        0 <= k < active_before.len() && active_before[k].id@ == id@ && r
                            == apply_status(active_before[k], status) && self.active@
                            == active_before.update(k, r)) by {
                        assert(active_before[i as int].id@ == id@ && r == apply_status(
                            active_before[i as int],
                            status,
                        ) && self.active@ == active_before.update(i as int, r));
                    }
                }
                Some(r)
            },
            None => None,
        }
    }

    /// Completes the connection with the given id: removes it, lowers its
    /// endpoint's distribution count, counts the completion, and folds its
    /// duration into the running mean. Unknown ids are ignored.
    pub fn complete_connection(&mut self, id: &String, now_ms: u64) -> (r: Option<ActiveConnection>)
        requires
            old(self).wf(),
            old(self).completed() < u64::MAX,
        ensures
            final(self).peak() == old(self).peak(),
            final(self).failed() == old(self).failed(),
            r is None ==> *final(self) == *old(self) && (forall|j: int|
                0 <= j < old(self).connections().len() ==> old(self).connections()[j].id@ != id@),
            r matches Some(c) ==> exists|i: int|
                0 <= i < old(self).connections().len() && old(self).connections()[i].id@ == id@ && c
                    == old(self).connections()[i] && final(self).connections() == old(
                    self,
                ).connections().remove(i) && final(self).completed() == old(self).completed() + 1
                    && final(self).mean_ms() == mean_update(
                    old(self).mean_ms(),
                    old(self).completed() + 1,
                    conn_duration_ms(c, now_ms),
                ) && final(self).last_activity() == Some(now_ms),
            final(self).wf(),
    {
        let found = find_conn(&self.active, id);
        match found {
            Some(i) => {
                let ghost active_before = self.active@;
                let conn = self.active.remove(i);
                proof {
                    lemma_count_conns_member(active_before, i as int);
                }
                dist_decrement(&mut self.endpoint_distribution, &conn.endpoint);
                proof {
                    assert forall|u: Seq<char>| true implies #[trigger] dist_count(
                        self.endpoint_distribution@,
                        u,
                    ) == count_conns(self.active@, u) by {
                        lemma_count_conns_remove(active_before, i as int, u);
                    }
                    assert forall|a: int, b: int|
                        0 <= a < b < self.active@.len() implies self.active@[a].id@
                        != self.active@[b].id@ by {
                        if b < i as int {
                            assert(active_before[a].id@ != active_before[b].id@);
                        } else if a < i as int {
                            assert(active_before[a].id@ != active_before[b + 1].id@);
                        } else {
                            assert(active_before[a + 1].id@ != active_before[b + 1].id@);
                        }
                    }
                }
                self.completed_count = self.completed_count + 1;
                let duration = conn.duration(now_ms);
                let n = self.completed_count;
                if n == 1 {
                    self.average_duration_ms = duration;
                } else {
                    proof {
                        assert((self.average_duration_ms as int) * ((n - 1) as int) <= (
                        u64::MAX as int) * (u64::MAX as int)) by (nonlinear_arith)
                            requires
                                0 <= self.average_duration_ms <= u64::MAX,
                                0 <= n - 1 <= u64::MAX,
                        ;
                    }
                    let numerator: u128 = (self.average_duration_ms as u128) * ((n - 1) as u128)
                        + duration as u128;
                    let mean: u128 = numerator / (n as u128);
                    proof {
                        let p = self.average_duration_ms as int;
                        let dd = duration as int;
                        let nn = n as int;
                        let m: int = if p >= dd {
                            p
                        } else {
                            dd
                        };
                        assert((p * (nn - 1) + dd) / nn <= m) by (nonlinear_arith)
                            requires
                                nn >= 2,
                                0 <= p,
                                0 <= dd,
                                m == if p >= dd {
                                    p
                                } else {
                                    dd
                                },
                        ;
                    }
                    self.average_duration_ms = mean as u64;
                }
                self.last_activity_ms = Some(now_ms);
                Some(conn)
            },
            None => None,
        }
    }

    /// The active connections, copied.
    pub fn get_active_connections(&self) -> (r: Vec<ActiveConnection>)
        ensures
            r@ == self.connections(),
    {
        clone_connections(&self.active)
    }

    /// Number of active connections.
    pub fn get_active_count(&self) -> (r: u32)
        requires
            self.wf(),
        ensures
            r == self.connections().len(),
    {
        self.active.len() as u32
    }

    /// Connections completed so far.
    pub fn get_completed_count(&self) -> (r: u64)
        ensures
            r == self.completed(),
    {
        self.completed_count
    }

    /// Highest number of simultaneously active connections seen.
    pub fn get_peak_concurrent(&self) -> (r: u32)
        ensures
            r == self.peak(),
    {
        self.peak_concurrent
    }

    /// The per-endpoint distribution, copied.
    pub fn get_endpoint_distribution(&self) -> (r: Vec<(String, u32)>)
        ensures
            r@ == self.distribution(),
    {
        clone_distribution(&self.endpoint_distribution)
    }

    /// The active connections to one endpoint, copied, in insertion order.
    pub fn get_connections_for_endpoint(&self, endpoint: &String) -> (r: Vec<ActiveConnection>)
        ensures
            r@ == conns_to(self.connections(), endpoint@),
    {
        let mut r: Vec<ActiveConnection> = Vec::new();
        let mut i: usize = 0;
        while i < self.active.len()
            invariant
                0 <= i <= self.active@.len(),
                r@ == conns_to(self.active@.subrange(0, i as int), endpoint@),
            decreases self.active@.len() - i,
        {
            proof {
                assert(self.active@.subrange(0, i + 1).drop_last() =~= self.active@.subrange(
                    0,
                    i as int,
                ));
            }
            if self.active[i].endpoint.eq(endpoint) {
                r.push(self.active[i].clone());
            }
            i += 1;
        }
        proof {
            assert(self.active@.subrange(0, self.active@.len() as int) =~= self.active@);
        }
        r
    }

    /// Running statistics.
    pub fn get_stats(&self) -> (r: ConnectionStats)
        ensures
            r == (ConnectionStats {
                total_completed: self.completed(),
                total_failed: self.failed(),
                average_duration_ms: self.mean_ms(),
                peak_concurrent: self.peak(),
                last_activity_ms: self.last_activity(),
            }),
    {
        ConnectionStats {
            total_completed: self.completed_count,
            total_failed: self.total_failed,
            average_duration_ms: self.average_duration_ms,
            peak_concurrent: self.peak_concurrent,
            last_activity_ms: self.last_activity_ms,
        }
    }
}

/// A rule selecting connections to discard in one sweep.
#[derive(Debug, PartialEq, Eq)]
pub enum PruneRule {
    /// Connections alive for more than `max_seconds` at `now_ms`.
    OlderThan { max_seconds: u64, now_ms: u64 },
    /// Connections to any endpoint other than `endpoint`.
    NotRoutedTo { endpoint: String },
}

/// Whether `rule` discards the connection `c`.
pub open spec fn prune_matches(rule: PruneRule, c: ActiveConnection) -> bool {
    match rule {
        PruneRule::OlderThan { max_seconds, now_ms } => conn_age_secs(c, now_ms)
            > max_seconds as int,
        PruneRule::NotRoutedTo { endpoint } => c.endpoint@ != endpoint@,
    }
}

/// The connections of `s` that `rule` keeps, in order.
pub open spec fn pruned_kept(s: Seq<ActiveConnection>, rule: PruneRule) -> Seq<ActiveConnection>
    decreases s.len(),
{
    if s.len() == 0 {
        Seq::empty()
    } else if prune_matches(rule, s.last()) {
        pruned_kept(s.drop_last(), rule)
    } else {
        pruned_kept(s.drop_last(), rule).push(s.last())
    }
}

/// The ids of the connections of `s` that `rule` discards, in order.
pub open spec fn pruned_ids(s: Seq<ActiveConnection>, rule: PruneRule) -> Seq<String>
    decreases s.len(),
{
    if s.len() == 0 {
        Seq::empty()
    } else if prune_matches(rule, s.last()) {
        pruned_ids(s.drop_last(), rule).push(s.last().id)
    } else {
        pruned_ids(s.drop_last(), rule)
    }
}

/// The ids of all connections of `s`, in order.
pub open spec fn ids_of(s: Seq<ActiveConnection>) -> Seq<String>
    decreases s.len(),
{
    if s.len() == 0 {
        Seq::empty()
    } else {
        ids_of(s.drop_last()).push(s.last().id)
    }
}

proof fn lemma_pruned_lens(s: Seq<ActiveConnection>, rule: PruneRule)
    ensures
        pruned_kept(s, rule).len() + pruned_ids(s, rule).len() == s.len(),
    decreases s.len(),
{
    if s.len() > 0 {
        lemma_pruned_lens(s.drop_last(), rule);
    }
}

proof fn lemma_pruned_kept_unique(s: Seq<ActiveConnection>, rule: PruneRule)
    requires
        unique_ids(s),
    ensures
        unique_ids(pruned_kept(s, rule)),
        forall|i: int|
            0 <= i < pruned_kept(s, rule).len() ==> exists|j: int|
                0 <= j < s.len() && #[trigger] pruned_kept(s, rule)[i] == s[j],
    decreases s.len(),
{
    if s.len() > 0 {
        assert(unique_ids(s.drop_last()));
        lemma_pruned_kept_unique(s.drop_last(), rule);
        let kept = pruned_kept(s, rule);
        let kept_prev = pruned_kept(s.drop_last(), rule);
        assert forall|i: int| 0 <= i < kept.len() implies exists|j: int|
            0 <= j < s.len() && #[trigger] kept[i] == s[j] by {
            if i < kept_prev.len() {
                let j = choose|j: int| 0 <= j < s.drop_last().len() && kept_prev[i] == s.drop_last()[j];
                assert(kept[i] == s[j]);
            } else {
                assert(kept[i] == s[s.len() - 1]);
            }
        }
        if !prune_matches(rule, s.last()) {
            assert forall|a: int, b: int| 0 <= a < b < kept.len() implies kept[a].id@
                != kept[b].id@ by {
                if b == kept.len() - 1 {
                    let j = choose|j: int|
                        0 <= j < s.drop_last().len() && kept_prev[a] == s.drop_last()[j];
                    assert(kept[a] == s[j]);
                    assert(kept[b] == s[s.len() - 1]);
                }
            }
        }
    }
}

impl ConnectionTracker {
    /// Discards the connections selected by `rule`, keeping the distribution
    /// in step; returns the discarded ids in order. When `count_failed` is
    /// set, each discarded connection counts as failed.
    #[verifier::loop_isolation(false)]
    fn prune_connections(&mut self, rule: &PruneRule, count_failed: bool) -> (r: Vec<String>)
        requires
            old(self).wf(),
            count_failed ==> old(self).failed() + old(self).connections().len() <= u64::MAX,
        ensures
            final(self).connections() == pruned_kept(old(self).connections(), *rule),
            r@ == pruned_ids(old(self).connections(), *rule),
            final(self).failed() == old(self).failed() + if count_failed {
                pruned_ids(old(self).connections(), *rule).len() as int
            } else {
                0
            },
            final(self).completed() == old(self).completed(),
            final(self).peak() == old(self).peak(),
            final(self).mean_ms() == old(self).mean_ms(),
            final(self).last_activity() == old(self).last_activity(),
            final(self).wf(),
    {
        let ghost all = old(self).connections();
        let mut kept: Vec<ActiveConnection> = Vec::new();
        let mut removed: Vec<String> = Vec::new();
        proof {
            assert(all.skip(0) =~= all);
            assert forall|u: Seq<char>| true implies #[trigger] dist_count(
                self.endpoint_distribution@,
                u,
            ) == count_conns(kept@, u) + count_conns(all.skip(0), u) by {
                assert(count_conns(kept@, u) == 0);
            }
        }
        let mut j: usize = 0;
        while j < self.active.len()
            invariant
                0 <= j <= all.len(),
                self.active@ == all,
                kept@ == pruned_kept(all.subrange(0, j as int), *rule),
                removed@ == pruned_ids(all.subrange(0, j as int), *rule),
                kept@.len() + removed@.len() == j,
                unique_keys(self.endpoint_distribution@),
                forall|i: int|
                    0 <= i < self.endpoint_distribution@.len() ==> (
                    #[trigger] self.endpoint_distribution@[i]).1 >= 1,
                forall|u: Seq<char>| #[trigger]
                    dist_count(self.endpoint_distribution@, u) == count_conns(kept@, u)
                        + count_conns(all.skip(j as int), u),
                dist_total(self.endpoint_distribution@) == kept@.len() + (all.len() - j),
                self.total_failed == old(self).failed() + if count_failed {
                    removed@.len() as int
                } else {
                    0
                },
                self.completed_count == old(self).completed(),
                self.peak_concurrent == old(self).peak(),
                self.average_duration_ms == old(self).mean_ms(),
                self.last_activity_ms == old(self).last_activity(),
            decreases all.len() - j,
        {
            proof {
                assert(all.subrange(0, j + 1).drop_last() =~= all.subrange(0, j as int));
                assert(all.subrange(0, j + 1).last() == all[j as int]);
                assert(all.skip(j as int)[0] == all[j as int]);
            }
            let matched = rule_matches(rule, &self.active[j]);
            if matched {
                proof {
                    lemma_count_conns_prepend(all.skip(j as int), all[j as int].endpoint@);
                    assert(count_conns(all.skip(j as int), all[j as int].endpoint@) >= 1);
                }
                if count_failed {
                    self.total_failed = self.total_failed + 1;
                }
                let url = self.active[j].endpoint.clone();
                dist_decrement(&mut self.endpoint_distribution, &url);
                removed.push(self.active[j].id.clone());
                proof {
                    assert forall|u: Seq<char>| true implies #[trigger] dist_count(
                        self.endpoint_distribution@,
                        u,
                    ) == count_conns(kept@, u) + count_conns(all.skip(j + 1), u) by {
                        lemma_count_conns_prepend(all.skip(j as int), u);
                        assert(all.skip(j as int).skip(1) =~= all.skip(j + 1));
                    }
                }
            } else {
                kept.push(self.active[j].clone());
                proof {
                    assert forall|u: Seq<char>| true implies #[trigger] dist_count(
                        self.endpoint_distribution@,
                        u,
                    ) == count_conns(kept@, u) + count_conns(all.skip(j + 1), u) by {
                        lemma_count_conns_push(kept@.drop_last(), all[j as int], u);
                        assert(kept@.drop_last() =~= pruned_kept(all.subrange(0, j as int), *rule));
                        lemma_count_conns_prepend(all.skip(j as int), u);
                        assert(all.skip(j as int).skip(1) =~= all.skip(j + 1));
                    }
                }
            }
            j += 1;
        }
        proof {
            assert(all.subrange(0, all.len() as int) =~= all);
            assert(all.skip(all.len() as int) =~= Seq::<ActiveConnection>::empty());
            assert forall|u: Seq<char>| true implies count_conns(
                all.skip(all.len() as int),
                u,
            ) == 0 by {
                assert(count_conns(Seq::<ActiveConnection>::empty(), u) == 0);
            }
            lemma_pruned_kept_unique(all, *rule);
        }
        self.active = kept;
        removed
    }

    /// Discards connections alive for more than `max_duration_seconds` at
    /// `now_ms`, counting each as failed; returns their ids.
    pub fn cleanup_stale_connections(&mut self, max_duration_seconds: u64, now_ms: u64) -> (r: Vec<
        String,
    >)
        requires
            old(self).wf(),
            old(self).failed() + old(self).connections().len() <= u64::MAX,
        ensures
            final(self).connections() == pruned_kept(
                old(self).connections(),
                PruneRule::OlderThan { max_seconds: max_duration_seconds, now_ms },
            ),
            r@ == pruned_ids(
                old(self).connections(),
                PruneRule::OlderThan { max_seconds: max_duration_seconds, now_ms },
            ),
            final(self).failed() == old(self).failed() + r@.len(),
            final(self).completed() == old(self).completed(),
            final(self).peak() == old(self).peak(),
            final(self).mean_ms() == old(self).mean_ms(),
            final(self).wf(),
    {
        let rule = PruneRule::OlderThan { max_seconds: max_duration_seconds, now_ms };
        self.prune_connections(&rule, true)
    }

    /// Discards connections idle for more than `max_idle_seconds` at
    /// `now_ms`; returns their ids. Unlike the stale sweep this counts no
    /// failures.
    pub fn cleanup_abandoned_connections(&mut self, max_idle_seconds: u64, now_ms: u64) -> (r: Vec<
        String,
    >)
        requires
            old(self).wf(),
        ensures
            final(self).connections() == pruned_kept(
                old(self).connections(),
                PruneRule::OlderThan { max_seconds: max_idle_seconds, now_ms },
            ),
            r@ == pruned_ids(
                old(self).connections(),
                PruneRule::OlderThan { max_seconds: max_idle_seconds, now_ms },
            ),
            final(self).failed() == old(self).failed(),
            final(self).completed() == old(self).completed(),
            final(self).peak() == old(self).peak(),
            final(self).mean_ms() == old(self).mean_ms(),
            final(self).wf(),
    {
        let rule = PruneRule::OlderThan { max_seconds: max_idle_seconds, now_ms };
        self.prune_connections(&rule, false)
    }

    /// Discards connections to any endpoint other than
    /// `current_active_endpoint`; returns their ids.
    pub fn cleanup_orphaned_connections(&mut self, current_active_endpoint: &String) -> (r: Vec<
        String,
    >)
        requires
            old(self).wf(),
        ensures
            final(self).connections() == pruned_kept(
                old(self).connections(),
                PruneRule::NotRoutedTo { endpoint: *current_active_endpoint },
            ),
            r@ == pruned_ids(
                old(self).connections(),
                PruneRule::NotRoutedTo { endpoint: *current_active_endpoint },
            ),
            final(self).failed() == old(self).failed(),
            final(self).completed() == old(self).completed(),
            final(self).peak() == old(self).peak(),
            final(self).mean_ms() == old(self).mean_ms(),
            final(self).wf(),
    {
        let rule = PruneRule::NotRoutedTo { endpoint: current_active_endpoint.clone() };
        let r = self.prune_connections(&rule, false);
        proof {
            assert(rule == (PruneRule::NotRoutedTo { endpoint: *current_active_endpoint }));
        }
        r
    }

    /// Discards every active connection, for shutdown; returns all ids in
    /// order.
    pub fn force_cleanup_all_connections(&mut self) -> (r: Vec<String>)
        requires
            old(self).wf(),
        ensures
            r@ == ids_of(old(self).connections()),
            final(self).connections() == Seq::<ActiveConnection>::empty(),
            final(self).distribution() == Seq::<(String, u32)>::empty(),
            final(self).failed() == old(self).failed(),
            final(self).completed() == old(self).completed(),
            final(self).peak() == old(self).peak(),
            final(self).mean_ms() == old(self).mean_ms(),
            final(self).wf(),
    {
        let mut ids: Vec<String> = Vec::new();
        let mut j: usize = 0;
        while j < self.active.len()
            invariant
                0 <= j <= self.active@.len(),
                self.active@ == old(self).connections(),
                ids@ == ids_of(self.active@.subrange(0, j as int)),
                self.completed_count == old(self).completed(),
                self.total_failed == old(self).failed(),
                self.peak_concurrent == old(self).peak(),
                self.average_duration_ms == old(self).mean_ms(),
            decreases self.active@.len() - j,
        {
            proof {
                assert(self.active@.subrange(0, j + 1).drop_last() =~= self.active@.subrange(
                    0,
                    j as int,
                ));
            }
            ids.push(self.active[j].id.clone());
            j += 1;
        }
        proof {
            assert(self.active@.subrange(0, self.active@.len() as int) =~= self.active@);
        }
        self.active = Vec::new();
        self.endpoint_distribution = Vec::new();
        proof {
            assert forall|u: Seq<char>| true implies #[trigger] dist_count(
                self.endpoint_distribution@,
                u,
            ) == count_conns(self.active@, u) by {
                assert(dist_count(self.endpoint_distribution@, u) == 0);
                assert(count_conns(self.active@, u) == 0);
            }
        }
        ids
    }

    /// A snapshot for the diagnostics surface: active count, the
    /// distribution, per-connection ages in seconds, completions, and peak.
    pub fn get_connection_diagnostics(&self, now_ms: u64) -> (r: ConnectionDiagnostics)
        requires
            self.wf(),
        ensures
            r.total_active == self.connections().len(),
            r.endpoint_counts@ == self.distribution(),
            r.duration_stats@ == ages_of(self.connections(), now_ms),
            r.completed_count == self.completed(),
            r.peak_concurrent == self.peak(),
    {
        let mut duration_stats: Vec<u64> = Vec::new();
        let mut j: usize = 0;
        while j < self.active.len()
            invariant
                0 <= j <= self.active@.len(),
                duration_stats@ == ages_of(self.active@.subrange(0, j as int), now_ms),
            decreases self.active@.len() - j,
        {
            proof {
                assert(self.active@.subrange(0, j + 1).drop_last() =~= self.active@.subrange(
                    0,
                    j as int,
                ));
            }
            let c = &self.active[j];
            let age_secs: u64 = if now_ms >= c.start_time_ms {
                (now_ms - c.start_time_ms) / 1000
            } else {
                0
            };
            duration_stats.push(age_secs);
            j += 1;
        }
        proof {
            assert(self.active@.subrange(0, self.active@.len() as int) =~= self.active@);
        }
        ConnectionDiagnostics {
            total_active: self.active.len() as u32,
            endpoint_counts: clone_distribution(&self.endpoint_distribution),
            duration_stats,
            completed_count: self.completed_count,
            peak_concurrent: self.peak_concurrent,
        }
    }
}

/// The ages, in whole seconds at `now_ms`, of the connections of `s`.
pub open spec fn ages_of(s: Seq<ActiveConnection>, now_ms: u64) -> Seq<u64>
    decreases s.len(),
{
    if s.len() == 0 {
        Seq::empty()
    } else {
        ages_of(s.drop_last(), now_ms).push(conn_age_secs(s.last(), now_ms) as u64)
    }
}

/// Largest element of `s`, zero when empty.
pub open spec fn seq_max_u64(s: Seq<u64>) -> u64
    decreases s.len(),
{
    if s.len() == 0 {
        0
    } else if s.last() >= seq_max_u64(s.drop_last()) {
        s.last()
    } else {
        seq_max_u64(s.drop_last())
    }
}

/// Sum of the elements of `s`.
pub open spec fn seq_sum_u64(s: Seq<u64>) -> int
    decreases s.len(),
{
    if s.len() == 0 {
        0
    } else {
        seq_sum_u64(s.drop_last()) + s.last()
    }
}

/// Snapshot of the tracker for the diagnostics surface.
#[derive(Debug, PartialEq, Eq)]
pub struct ConnectionDiagnostics {
    pub total_active: u32,
    pub endpoint_counts: Vec<(String, u32)>,
    pub duration_stats: Vec<u64>,
    pub completed_count: u64,
    pub peak_concurrent: u32,
}

impl ConnectionDiagnostics {
    /// The longest recorded connection age, zero when none is active.
    pub fn longest_connection_seconds(&self) -> (r: u64)
        ensures
            r == seq_max_u64(self.duration_stats@),
    {
        let mut m: u64 = 0;
        let mut j: usize = 0;
        while j < self.duration_stats.len()
            invariant
                0 <= j <= self.duration_stats@.len(),
                m == seq_max_u64(self.duration_stats@.subrange(0, j as int)),
            decreases self.duration_stats@.len() - j,
        {
            proof {
                assert(self.duration_stats@.subrange(0, j + 1).drop_last() =~= self
                    .duration_stats@
                    .subrange(0, j as int));
            }
            if self.duration_stats[j] >= m {
                m = self.duration_stats[j];
            }
            j += 1;
        }
        proof {
            assert(self.duration_stats@.subrange(0, self.duration_stats@.len() as int) =~= self
                .duration_stats@);
        }
        m
    }

    /// Mean recorded connection age, zero when none is active.
    pub fn average_duration_seconds(&self) -> (r: u64)
        requires
            self.duration_stats@.len() <= u32::MAX,
        ensures
            r == if self.duration_stats@.len() == 0 {
                0int
            } else {
                seq_sum_u64(self.duration_stats@) / self.duration_stats@.len() as int
            },
    {
        if self.duration_stats.len() == 0 {
            return 0;
        }
        let mut sum: u128 = 0;
        let mut j: usize = 0;
        while j < self.duration_stats.len()
            invariant
                0 <= j <= self.duration_stats@.len(),
                sum == seq_sum_u64(self.duration_stats@.subrange(0, j as int)),
                sum <= j * (u64::MAX as int),
            decreases self.duration_stats@.len() - j,
        {
            proof {
                assert(self.duration_stats@.subrange(0, j + 1).drop_last() =~= self
                    .duration_stats@
                    .subrange(0, j as int));
            }
            sum = sum + self.duration_stats[j] as u128;
            j += 1;
        }
        proof {
            assert(self.duration_stats@.subrange(0, self.duration_stats@.len() as int) =~= self
                .duration_stats@);
        }
        let n: u128 = self.duration_stats.len() as u128;
        let avg: u128 = sum / n;
        proof {
            let s = sum as int;
            let nn = n as int;
            assert(s / nn <= u64::MAX as int) by (nonlinear_arith)
                requires
                    nn >= 1,
                    0 <= s,
                    s <= nn * (u64::MAX as int),
            ;
        }
        avg as u64
    }
}

/// Whether `rule` discards the connection `c`, as an executable test.
fn rule_matches(rule: &PruneRule, c: &ActiveConnection) -> (r: bool)
    ensures
        r == prune_matches(*rule, *c),
{
    match rule {
        PruneRule::OlderThan { max_seconds, now_ms } => {
            let age_secs: u64 = if *now_ms >= c.start_time_ms {
                (*now_ms - c.start_time_ms) / 1000
            } else {
                0
            };
            age_secs > *max_seconds
        },
        PruneRule::NotRoutedTo { endpoint } => !c.endpoint.eq(endpoint),
    }
}

/// Law: at every moment, for every endpoint url, the tracked distribution
/// records exactly the number of active connections to that url, and the
/// recorded counts sum to the number of active connections.
pub proof fn lemma_distribution_matches_active(t: ConnectionTracker, url: Seq<char>)
    requires
        t.wf(),
    ensures
        dist_count(t.distribution(), url) == count_conns(t.connections(), url),
        dist_total(t.distribution()) == t.connections().len(),
{
}

/// Law: a requested stage change never moves a connection backward in the
/// `Connecting -> Processing -> Finishing` chain, and changes nothing else.
pub proof fn lemma_status_monotone(c: ActiveConnection, s: ConnectionStatus)
    ensures
        status_rank(apply_status(c, s).status) >= status_rank(c.status),
        apply_status(c, s).id == c.id,
        apply_status(c, s).endpoint == c.endpoint,
        apply_status(c, s).start_time_ms == c.start_time_ms,
        apply_status(c, s).request_info == c.request_info,
{
}

/// The milliseconds a connection has been alive at `now_ms`.
pub open spec fn conn_duration_ms(c: ActiveConnection, now_ms: u64) -> u64 {
    if now_ms >= c.start_time_ms {
        (now_ms - c.start_time_ms) as u64
    } else {
        0
    }
}

/// The connections in `s` to the endpoint `url`, in order.
pub open spec fn conns_to(s: Seq<ActiveConnection>, url: Seq<char>) -> Seq<ActiveConnection>
    decreases s.len(),
{
    if s.len() == 0 {
        Seq::empty()
    } else if s.last().endpoint@ == url {
        conns_to(s.drop_last(), url).push(s.last())
    } else {
        conns_to(s.drop_last(), url)
    }
}

proof fn lemma_count_conns_remove(s: Seq<ActiveConnection>, i: int, url: Seq<char>)
    requires
        0 <= i < s.len(),
    ensures
        count_conns(s.remove(i), url) == count_conns(s, url) - (if s[i].endpoint@ == url {
            1int
        } else {
            0
        }),
    decreases s.len(),
{
    if i == s.len() - 1 {
        assert(s.remove(i) =~= s.drop_last());
    } else {
        lemma_count_conns_remove(s.drop_last(), i, url);
        assert(s.remove(i).drop_last() =~= s.drop_last().remove(i));
        assert(s.remove(i).last() == s.last());
    }
}

/// Copies a connection vector entry for entry.
fn clone_connections(v: &Vec<ActiveConnection>) -> (r: Vec<ActiveConnection>)
    ensures
        r@ == v@,
{
    let mut r: Vec<ActiveConnection> = Vec::new();
    let mut i: usize = 0;
    while i < v.len()
        invariant
            0 <= i <= v@.len(),
            r@ == v@.subrange(0, i as int),
        decreases v@.len() - i,
    {
        r.push(v[i].clone());
        proof {
            assert(r@ =~= v@.subrange(0, i + 1));
        }
        i += 1;
    }
    proof {
        assert(v@.subrange(0, v@.len() as int) =~= v@);
    }
    r
}

/// Copies a distribution vector entry for entry.
fn clone_distribution(v: &Vec<(String, u32)>) -> (r: Vec<(String, u32)>)
    ensures
        r@ == v@,
{
    let mut r: Vec<(String, u32)> = Vec::new();
    let mut i: usize = 0;
    while i < v.len()
        invariant
            0 <= i <= v@.len(),
            r@ == v@.subrange(0, i as int),
        decreases v@.len() - i,
    {
        let entry = (v[i].0.clone(), v[i].1);
        r.push(entry);
        proof {
            assert(r@ =~= v@.subrange(0, i + 1));
        }
        i += 1;
    }
    proof {
        assert(v@.subrange(0, v@.len() as int) =~= v@);
    }
    r
}

/// The rank of a stage, as an executable value.
fn status_rank_exec(s: ConnectionStatus) -> (r: u8)
    ensures
        r == status_rank(s),
{
    match s {
        ConnectionStatus::Connecting => 0,
        ConnectionStatus::Processing => 1,
        ConnectionStatus::Finishing => 2,
    }
}

/// A fresh connection id of the shape `conn_<nanos>_<counter>`.
pub fn generate_connection_id(timestamp_nanos: u64, counter: u64) -> (r: String)
    ensures
        r@ == "conn_"@ + spec_decimal(timestamp_nanos as nat) + "_"@ + spec_decimal(
            counter as nat,
        ),
{
    let mut s = String::from_str("conn_");
    s.append(u64_to_string(timestamp_nanos).as_str());
    s.append("_");
    s.append(u64_to_string(counter).as_str());
    s
}

} // verus!
