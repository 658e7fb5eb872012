//! Formatting of the proxy's log lines, and the filtering of secrets out of
//! logged headers and bodies.
//!
//! Each function builds the exact text of one log line (or the lines of one
//! announcement); emitting the lines to a sink is the caller's business.

use vstd::prelude::*;
use crate::config::DetailLevel;
use crate::strutil::{
    chars_contain, chars_of, contains_seq, lower_chars, lower_seq, spec_decimal,
    string_from_chars, u16_to_string, u32_to_string, u64_to_string, usize_to_string,
};

verus! {

/// One line: a health check began for the endpoint.
pub fn log_health_start(endpoint: &String) -> (r: String)
    ensures
        r@ == "🏥 Health check starting: "@ + endpoint@,
{
    let mut s = String::from_str("🏥 Health check starting: ");
    s.append(endpoint.as_str());
    s
}

/// One line: the endpoint answered its probe.
pub fn log_health_success(endpoint: &String, latency: u64) -> (r: String)
    ensures
        r@ == "🏥 ✅ Endpoint healthy: "@ + endpoint@ + " ("@ + spec_decimal(latency as nat)
            + "ms)"@,
{
    let mut s = String::from_str("🏥 ✅ Endpoint healthy: ");
    s.append(endpoint.as_str());
    s.append(" (");
    s.append(u64_to_string(latency).as_str());
    s.append("ms)");
    s
}

/// One line: the endpoint failed its probe.
pub fn log_health_failed(endpoint: &String, error: &String) -> (r: String)
    ensures
        r@ == "🏥 ❌ Endpoint failed: "@ + endpoint@ + " - "@ + error@,
{
    let mut s = String::from_str("🏥 ❌ Endpoint failed: ");
    s.append(endpoint.as_str());
    s.append(" - ");
    s.append(error.as_str());
    s
}

/// One line: a request is being forwarded to the endpoint.
pub fn log_proxy_request(endpoint: &String) -> (r: String)
    ensures
        r@ == "🔄 Request → "@ + endpoint@,
{
    let mut s = String::from_str("🔄 Request → ");
    s.append(endpoint.as_str());
    s
}

/// One line: forwarding to the endpoint failed.
pub fn log_proxy_error(endpoint: &String, error: &String) -> (r: String)
    ensures
        r@ == "🔄 ❌ Request failed: "@ + endpoint@ + " - "@ + error@,
{
    let mut s = String::from_str("🔄 ❌ Request failed: ");
    s.append(endpoint.as_str());
    s.append(" - ");
    s.append(error.as_str());
    s
}

/// The announcement of an endpoint switch: a banner, the endpoints with their
/// latencies, and the improvement (a saturating difference).
pub fn log_endpoint_switch(from: &String, to: &String, from_latency: u64, to_latency: u64) -> (r:
    Vec<String>)
    ensures
        r@.len() == 3,
        r@[0]@ == "🔀 ⚡ SWITCHING ENDPOINT ⚡"@,
        r@[1]@ == "🔀 From: "@ + from@ + " ("@ + spec_decimal(from_latency as nat) + "ms) → To: "@
            + to@ + " ("@ + spec_decimal(to_latency as nat) + "ms)"@,
        r@[2]@ == "🔀 ╰─ Performance improvement: "@ + spec_decimal(
            crate::orchestrator::sat_sub(from_latency, to_latency) as nat,
        ) + "ms"@,
{
    let mut lines: Vec<String> = Vec::new();
    lines.push(String::from_str("🔀 ⚡ SWITCHING ENDPOINT ⚡"));
    let mut second = String::from_str("🔀 From: ");
    second.append(from.as_str());
    second.append(" (");
    second.append(u64_to_string(from_latency).as_str());
    second.append("ms) → To: ");
    second.append(to.as_str());
    second.append(" (");
    second.append(u64_to_string(to_latency).as_str());
    second.append("ms)");
    lines.push(second);
    let improvement: u64 = if from_latency >= to_latency {
        from_latency - to_latency
    } else {
        0
    };
    let mut third = String::from_str("🔀 ╰─ Performance improvement: ");
    third.append(u64_to_string(improvement).as_str());
    third.append("ms");
    lines.push(third);
    lines
}

/// The server banner: the title and the local addresses of the proxy, its
/// status page, and its health page.
pub fn log_server_start(port: u16) -> (r: Vec<String>)
    ensures
        r@.len() == 6,
        r@[0]@ == "🚀 ══════════════════════════════════"@,
        r@[1]@ == "🚀 🎯 Zephyr"@,
        r@[2]@ == "🚀 ⚡ Server: http://localhost:"@ + spec_decimal(port as nat),
        r@[3]@ == "🚀 📊 Status: http://localhost:"@ + spec_decimal(port as nat) + "/status"@,
        r@[4]@ == "🚀 🔍 Health: http://localhost:"@ + spec_decimal(port as nat) + "/health"@,
        r@[5]@ == "🚀 ══════════════════════════════════"@,
{
    let mut lines: Vec<String> = Vec::new();
    lines.push(String::from_str("🚀 ══════════════════════════════════"));
    lines.push(String::from_str("🚀 🎯 Zephyr"));
    let mut server = String::from_str("🚀 ⚡ Server: http://localhost:");
    server.append(u16_to_string(port).as_str());
    lines.push(server);
    let mut status = String::from_str("🚀 📊 Status: http://localhost:");
    status.append(u16_to_string(port).as_str());
    status.append("/status");
    lines.push(status);
    let mut health = String::from_str("🚀 🔍 Health: http://localhost:");
    health.append(u16_to_string(port).as_str());
    health.append("/health");
    lines.push(health);
    lines.push(String::from_str("🚀 ══════════════════════════════════"));
    lines
}

/// One line: the server failed.
pub fn log_server_error(error: &String) -> (r: String)
    ensures
        r@ == "🚀 ❌ Server error: "@ + error@,
{
    let mut s = String::from_str("🚀 ❌ Server error: ");
    s.append(error.as_str());
    s
}

/// One line: the configuration was loaded with this many endpoints.
pub fn log_config_loaded(endpoint_count: usize) -> (r: String)
    ensures
        r@ == "⚙️ Configuration loaded: "@ + spec_decimal(endpoint_count as nat) + " endpoints"@,
{
    let mut s = String::from_str("⚙️ Configuration loaded: ");
    s.append(usize_to_string(endpoint_count).as_str());
    s.append(" endpoints");
    s
}

/// One line: loading the configuration failed.
pub fn log_config_error(error: &String) -> (r: String)
    ensures
        r@ == "⚙️ ❌ Configuration error: "@ + error@,
{
    let mut s = String::from_str("⚙️ ❌ Configuration error: ");
    s.append(error.as_str());
    s
}

/// One line: a retry is about to run, and why.
pub fn log_retry_attempt(endpoint: &String, attempt: u32, max_attempts: u32, reason: &String) -> (r:
    String)
    ensures
        r@ == "🔁 Retry attempt "@ + spec_decimal(attempt as nat) + "/"@ + spec_decimal(
            max_attempts as nat,
        ) + " for "@ + endpoint@ + ": "@ + reason@,
{
    let mut s = String::from_str("🔁 Retry attempt ");
    s.append(u32_to_string(attempt).as_str());
    s.append("/");
    s.append(u32_to_string(max_attempts).as_str());
    s.append(" for ");
    s.append(endpoint.as_str());
    s.append(": ");
    s.append(reason.as_str());
    s
}

/// One line: a retry finally succeeded.
pub fn log_retry_success(endpoint: &String, attempt: u32, total_delay_ms: u64) -> (r: String)
    ensures
        r@ == "🔁 ✅ Retry succeeded for "@ + endpoint@ + " on attempt "@ + spec_decimal(
            attempt as nat,
        ) + " (total delay: "@ + spec_decimal(total_delay_ms as nat) + "ms)"@,
{
    let mut s = String::from_str("🔁 ✅ Retry succeeded for ");
    s.append(endpoint.as_str());
    s.append(" on attempt ");
    s.append(u32_to_string(attempt).as_str());
    s.append(" (total delay: ");
    s.append(u64_to_string(total_delay_ms).as_str());
    s.append("ms)");
    s
}

/// One line: every retry failed.
pub fn log_retry_exhausted(endpoint: &String, max_attempts: u32, final_error: &String) -> (r:
    String)
    ensures
        r@ == "🔁 ❌ All "@ + spec_decimal(max_attempts as nat)
            + " retry attempts exhausted for "@ + endpoint@ + ": "@ + final_error@,
{
    let mut s = String::from_str("🔁 ❌ All ");
    s.append(u32_to_string(max_attempts).as_str());
    s.append(" retry attempts exhausted for ");
    s.append(endpoint.as_str());
    s.append(": ");
    s.append(final_error.as_str());
    s
}

/// One line: waiting out the backoff before the next retry.
pub fn log_retry_delay(endpoint: &String, attempt: u32, delay_ms: u64) -> (r: String)
    ensures
        r@ == "🔁 Waiting "@ + spec_decimal(delay_ms as nat) + "ms before retry attempt "@
            + spec_decimal(attempt as nat) + " for "@ + endpoint@,
{
    let mut s = String::from_str("🔁 Waiting ");
    s.append(u64_to_string(delay_ms).as_str());
    s.append("ms before retry attempt ");
    s.append(u32_to_string(attempt).as_str());
    s.append(" for ");
    s.append(endpoint.as_str());
    s
}

/// One line: a tracked request started.
pub fn log_request_start(endpoint: &String, connection_id: &String) -> (r: String)
    ensures
        r@ == "📊 Request started: "@ + endpoint@ + " (connection: "@ + connection_id@ + ")"@,
{
    let mut s = String::from_str("📊 Request started: ");
    s.append(endpoint.as_str());
    s.append(" (connection: ");
    s.append(connection_id.as_str());
    s.append(")");
    s
}

/// One line: a tracked request completed.
pub fn log_request_completed(
    endpoint: &String,
    connection_id: &String,
    duration_ms: u64,
    status: u16,
) -> (r: String)
    ensures
        r@ == "📊 Request completed: "@ + endpoint@ + " (connection: "@ + connection_id@ + ", "@
            + spec_decimal(duration_ms as nat) + "ms, status: "@ + spec_decimal(status as nat)
            + ")"@,
{
    let mut s = String::from_str("📊 Request completed: ");
    s.append(endpoint.as_str());
    s.append(" (connection: ");
    s.append(connection_id.as_str());
    s.append(", ");
    s.append(u64_to_string(duration_ms).as_str());
    s.append("ms, status: ");
    s.append(u16_to_string(status).as_str());
    s.append(")");
    s
}

/// One line: a tracked request failed.
pub fn log_request_failed(
    endpoint: &String,
    connection_id: &String,
    duration_ms: u64,
    error: &String,
) -> (r: String)
    ensures
        r@ == "📊 Request failed: "@ + endpoint@ + " (connection: "@ + connection_id@ + ", "@
            + spec_decimal(duration_ms as nat) + "ms, error: "@ + error@ + ")"@,
{
    let mut s = String::from_str("📊 Request failed: ");
    s.append(endpoint.as_str());
    s.append(" (connection: ");
    s.append(connection_id.as_str());
    s.append(", ");
    s.append(u64_to_string(duration_ms).as_str());
    s.append("ms, error: ");
    s.append(error.as_str());
    s.append(")");
    s
}

/// The `name=value` text of one header.
pub open spec fn header_pair_text(h: (String, String)) -> Seq<char> {
    h.0@ + "="@ + h.1@
}

/// The headers joined as `name=value` pairs separated by commas.
pub open spec fn join_headers(hs: Seq<(String, String)>) -> Seq<char>
    decreases hs.len(),
{
    if hs.len() == 0 {
        Seq::empty()
    } else if hs.len() == 1 {
        header_pair_text(hs[0])
    } else {
        join_headers(hs.drop_last()) + ", "@ + header_pair_text(hs.last())
    }
}

/// Builds the joined `name=value` text of the given headers.
fn join_headers_text(hs: &Vec<(String, String)>) -> (r: String)
    ensures
        r@ == join_headers(hs@),
{
    let mut s = String::new();
    let mut i: usize = 0;
    #[verifier::loop_isolation(false)]
    while i < hs.len()
        invariant
            0 <= i <= hs@.len(),
            s@ == join_headers(hs@.subrange(0, i as int)),
        decreases hs@.len() - i,
    {
        proof {
            assert(hs@.subrange(0, i + 1).drop_last() =~= hs@.subrange(0, i as int));
            assert(hs@.subrange(0, i + 1).last() == hs@[i as int]);
        }
        if i > 0 {
            s.append(", ");
        }
        s.append(hs[i].0.as_str());
        s.append("=");
        s.append(hs[i].1.as_str());
        i += 1;
    }
    proof {
        assert(hs@.subrange(0, hs@.len() as int) =~= hs@);
    }
    s
}

/// The first line of a detailed request log.
pub open spec fn request_line(
    endpoint: Seq<char>,
    method: Seq<char>,
    path: Seq<char>,
    connection_id: Seq<char>,
) -> Seq<char> {
    "🔄 Request → "@ + method + " "@ + path + " "@ + endpoint + " (conn: "@ + connection_id
        + ")"@
}

/// The first line of a detailed response log.
pub open spec fn response_line(
    endpoint: Seq<char>,
    status_code: u16,
    connection_id: Seq<char>,
    duration_ms: u64,
) -> Seq<char> {
    "🔄 Response ← "@ + spec_decimal(status_code as nat) + " "@ + endpoint + " ("@ + spec_decimal(
        duration_ms as nat,
    ) + "ms, conn: "@ + connection_id + ")"@
}

/// The headers line of a detailed log, over the already filtered headers.
pub open spec fn headers_line(filtered: Seq<(String, String)>) -> Seq<char> {
    "🔄   Headers: "@ + join_headers(filtered)
}

fn build_request_line(
    endpoint: &String,
    method: &String,
    path: &String,
    connection_id: &String,
) -> (r: String)
    ensures
        r@ == request_line(endpoint@, method@, path@, connection_id@),
{
    let mut s = String::from_str("🔄 Request → ");
    s.append(method.as_str());
    s.append(" ");
    s.append(path.as_str());
    s.append(" ");
    s.append(endpoint.as_str());
    s.append(" (conn: ");
    s.append(connection_id.as_str());
    s.append(")");
    s
}

fn build_headers_line(headers: &Vec<(String, String)>) -> (r: String)
    ensures
        r@ == headers_line(headers@),
{
    let mut s = String::from_str("🔄   Headers: ");
    s.append(join_headers_text(headers).as_str());
    s
}

/// The lines of one proxied request's log at the given detail level: the
/// endpoint alone at the basic level; method, path, endpoint and connection
/// at the standard level; filtered headers when detailed; and the filtered
/// body when debugging. Header and body lines appear only when there is
/// something to show.
pub fn log_proxy_request_detailed(
    endpoint: &String,
    method: &String,
    path: &String,
    connection_id: &String,
    headers: Option<&Vec<(String, String)>>,
    body: Option<&Vec<u8>>,
    detail_level: &DetailLevel,
) -> (r: Vec<String>)
    ensures
        *detail_level == DetailLevel::Basic ==> r@.len() == 1 && r@[0]@ == "🔄 Request → "@
            + endpoint@,
        *detail_level == DetailLevel::Standard ==> r@.len() == 1 && r@[0]@ == request_line(
            endpoint@,
            method@,
            path@,
            connection_id@,
        ),
        (*detail_level == DetailLevel::Detailed || *detail_level == DetailLevel::Debug) ==> r@.len()
            >= 1 && r@[0]@ == request_line(endpoint@, method@, path@, connection_id@),
{
    let mut lines: Vec<String> = Vec::new();
    match detail_level {
        DetailLevel::Basic => {
            lines.push(log_proxy_request(endpoint));
        },
        DetailLevel::Standard => {
            lines.push(build_request_line(endpoint, method, path, connection_id));
        },
        DetailLevel::Detailed => {
            lines.push(build_request_line(endpoint, method, path, connection_id));
            match headers {
                Some(hs) => {
                    if hs.len() > 0 {
                        let filtered = filter_sensitive_headers(hs);
                        lines.push(build_headers_line(&filtered));
                    }
                },
                None => {},
            }
        },
        DetailLevel::Debug => {
            lines.push(build_request_line(endpoint, method, path, connection_id));
            match headers {
                Some(hs) => {
                    if hs.len() > 0 {
                        let filtered = filter_sensitive_headers(hs);
                        lines.push(build_headers_line(&filtered));
                    }
                },
                None => {},
            }
            match body {
                Some(b) => {
                    let filtered = filter_sensitive_body(b, 4096);
                    if !filtered.as_str().is_empty() {
                        let mut line = String::from_str("🔄   Body: ");
                        line.append(filtered.as_str());
                        lines.push(line);
                    }
                },
                None => {},
            }
        },
    }
    lines
}

/// The lines of one proxied response's log at the given detail level: nothing
/// at the basic level; status, endpoint, timing and connection from the
/// standard level on; filtered headers when detailed; and the filtered body
/// when debugging.
pub fn log_proxy_response_detailed(
    endpoint: &String,
    status_code: u16,
    connection_id: &String,
    duration_ms: u64,
    headers: Option<&Vec<(String, String)>>,
    body: Option<&Vec<u8>>,
    detail_level: &DetailLevel,
) -> (r: Vec<String>)
    ensures
        *detail_level == DetailLevel::Basic ==> r@.len() == 0,
        *detail_level == DetailLevel::Standard ==> r@.len() == 1 && r@[0]@ == response_line(
            endpoint@,
            status_code,
            connection_id@,
            duration_ms,
        ),
        (*detail_level == DetailLevel::Detailed || *detail_level == DetailLevel::Debug) ==> r@.len()
            >= 1 && r@[0]@ == response_line(endpoint@, status_code, connection_id@, duration_ms),
{
    let mut lines: Vec<String> = Vec::new();
    match detail_level {
        DetailLevel::Basic => {},
        DetailLevel::Standard => {
            lines.push(build_response_line(endpoint, status_code, connection_id, duration_ms));
        },
        DetailLevel::Detailed => {
            lines.push(build_response_line(endpoint, status_code, connection_id, duration_ms));
            match headers {
                Some(hs) => {
                    if hs.len() > 0 {
                        let filtered = filter_sensitive_headers(hs);
                        lines.push(build_headers_line(&filtered));
                    }
                },
                None => {},
            }
        },
        DetailLevel::Debug => {
            lines.push(build_response_line(endpoint, status_code, connection_id, duration_ms));
            match headers {
                Some(hs) => {
                    if hs.len() > 0 {
                        let filtered = filter_sensitive_headers(hs);
                        lines.push(build_headers_line(&filtered));
                    }
                },
                None => {},
            }
            match body {
                Some(b) => {
                    let filtered = filter_sensitive_body(b, 4096);
                    if !filtered.as_str().is_empty() {
                        let mut line = String::from_str("🔄   Body: ");
                        line.append(filtered.as_str());
                        lines.push(line);
                    }
                },
                None => {},
            }
        },
    }
    lines
}

fn build_response_line(
    endpoint: &String,
    status_code: u16,
    connection_id: &String,
    duration_ms: u64,
) -> (r: String)
    ensures
        r@ == response_line(endpoint@, status_code, connection_id@, duration_ms),
{
    let mut s = String::from_str("🔄 Response ← ");
    s.append(u16_to_string(status_code).as_str());
    s.append(" ");
    s.append(endpoint.as_str());
    s.append(" (");
    s.append(u64_to_string(duration_ms).as_str());
    s.append("ms, conn: ");
    s.append(connection_id.as_str());
    s.append(")");
    s
}

/// Header names whose values never reach a log.
pub open spec fn is_sensitive_header(name: Seq<char>) -> bool {
    ||| lower_seq(name) == "authorization"@
    ||| lower_seq(name) == "anthropic-api-key"@
    ||| lower_seq(name) == "x-api-key"@
    ||| lower_seq(name) == "cookie"@
    ||| lower_seq(name) == "set-cookie"@
    ||| lower_seq(name) == "x-auth-token"@
    ||| lower_seq(name) == "bearer"@
    ||| lower_seq(name) == "x-anthropic-api-key"@
}

/// The headers with every sensitive value replaced by a marker; names and
/// order are kept.
pub fn filter_sensitive_headers(headers: &Vec<(String, String)>) -> (r: Vec<(String, String)>)
    ensures
        r@.len() == headers@.len(),
        forall|i: int|
            0 <= i < headers@.len() ==> (#[trigger] r@[i]).0 == headers@[i].0 && r@[i].1@ == if
                is_sensitive_header(headers@[i].0@) {
                "[FILTERED]"@
            } else {
                headers@[i].1@
            },
{
    let mut r: Vec<(String, String)> = Vec::new();
    let mut i: usize = 0;
    #[verifier::loop_isolation(false)]
    while i < headers.len()
        invariant
            0 <= i <= headers@.len(),
            r@.len() == i,
            forall|j: int|
                0 <= j < i ==> (#[trigger] r@[j]).0 == headers@[j].0 && r@[j].1@ == if
                    is_sensitive_header(headers@[j].0@) {
                    "[FILTERED]"@
                } else {
                    headers@[j].1@
                },
        decreases headers@.len() - i,
    {
        let lowered = lower_chars(&chars_of(headers[i].0.as_str()));
        let sensitive = chars_eq_lit(&lowered, "authorization") || chars_eq_lit(
            &lowered,
            "anthropic-api-key",
        ) || chars_eq_lit(&lowered, "x-api-key") || chars_eq_lit(&lowered, "cookie")
            || chars_eq_lit(&lowered, "set-cookie") || chars_eq_lit(&lowered, "x-auth-token")
            || chars_eq_lit(&lowered, "bearer") || chars_eq_lit(&lowered, "x-anthropic-api-key");
        let value = if sensitive {
            String::from_str("[FILTERED]")
        } else {
            headers[i].1.clone()
        };
        let entry = (headers[i].0.clone(), value);
        r.push(entry);
        i += 1;
    }
    r
}

/// Whether the characters equal the literal.
fn chars_eq_lit(chars: &Vec<char>, lit: &str) -> (r: bool)
    ensures
        r == (chars@ == lit@),
{
    let lit_chars = chars_of(lit);
    crate::strutil::chars_equal(chars, &lit_chars)
}

/// A control character other than newline and tab, which the body filter
/// strips.
pub open spec fn is_stripped_ctrl(c: char) -> bool {
    (c as u32) < 32 && c != '\n' && c != '\t' || (c as u32) == 127
}

/// The body text with stripped control characters removed.
pub open spec fn strip_ctrl(s: Seq<char>) -> Seq<char>
    decreases s.len(),
{
    if s.len() == 0 {
        Seq::empty()
    } else if is_stripped_ctrl(s.last()) {
        strip_ctrl(s.drop_last())
    } else {
        strip_ctrl(s.drop_last()).push(s.last())
    }
}

/// A line is censored when it carries a key prefix, a vendor name, or the
/// word token.
pub open spec fn line_is_sensitive(line: Seq<char>) -> bool {
    contains_seq(line, "sk-"@) || contains_seq(line, "anthropic"@) || contains_seq(
        line,
        "token"@,
    )
}

/// The filtered form of one body line.
pub open spec fn filtered_line(line: Seq<char>) -> Seq<char> {
    if line_is_sensitive(line) {
        "[SENSITIVE_DATA_FILTERED]"@
    } else {
        line
    }
}

/// The views of a vector of character vectors.
pub open spec fn views_of(ls: Seq<Vec<char>>) -> Seq<Seq<char>> {
    ls.map_values(|l: Vec<char>| l@)
}

/// The text split at newlines; a trailing newline yields a final empty line,
/// and the empty text is one empty line.
pub open spec fn split_lines(s: Seq<char>) -> Seq<Seq<char>>
    decreases s.len(),
{
    if s.len() == 0 {
        seq![Seq::<char>::empty()]
    } else if s.last() == '\n' {
        split_lines(s.drop_last()).push(Seq::empty())
    } else {
        let prev = split_lines(s.drop_last());
        prev.update(prev.len() - 1, prev.last().push(s.last()))
    }
}

proof fn lemma_filtered_lines_len(ls: Seq<Seq<char>>)
    ensures
        filtered_lines(ls).len() == ls.len(),
    decreases ls.len(),
{
    if ls.len() > 0 {
        lemma_filtered_lines_len(ls.drop_last());
    }
}

/// Each line filtered.
pub open spec fn filtered_lines(ls: Seq<Seq<char>>) -> Seq<Seq<char>>
    decreases ls.len(),
{
    if ls.len() == 0 {
        Seq::empty()
    } else {
        filtered_lines(ls.drop_last()).push(filtered_line(ls.last()))
    }
}

/// The lines joined back with newlines.
pub open spec fn join_lines(ls: Seq<Seq<char>>) -> Seq<char>
    decreases ls.len(),
{
    if ls.len() == 0 {
        Seq::empty()
    } else if ls.len() == 1 {
        ls[0]
    } else {
        join_lines(ls.drop_last()) + seq!['\n'] + ls.last()
    }
}

/// The whole line filter: the text split at newlines, each sensitive line
/// replaced by the marker, and the lines joined back.
pub open spec fn filter_body_text(s: Seq<char>) -> Seq<char> {
    join_lines(filtered_lines(split_lines(s)))
}

/// Relies on core::str::from_utf8 and str::chars: decodes the bytes when they
/// are valid UTF-8 and yields the decoded characters, refusing anything else.
#[verifier::external_body]
fn decode_utf8_chars(bytes: &[u8]) -> (r: Option<Vec<char>>)
    ensures
        r is Some <==> vstd::utf8::valid_utf8(bytes@),
        r matches Some(chars) ==> chars@ == vstd::utf8::decode_utf8(bytes@),
{
    core::str::from_utf8(bytes).ok().map(|s| s.chars().collect())
}

/// A body for the debug log, with secrets filtered out: a body over
/// `max_size` bytes is summarized; binary data is named as such; text has its
/// stray control characters removed and every line holding a key prefix, a
/// vendor name, or the word token replaced by a marker; an overlong result is
/// cut down with a truncation mark.
pub fn filter_sensitive_body(body: &Vec<u8>, max_size: usize) -> (r: String)
    ensures
        body@.len() > max_size ==> r@ == "[TRUNCATED "@ + spec_decimal(body@.len() as nat)
            + " bytes]"@,
        body@.len() <= max_size && !vstd::utf8::valid_utf8(body@) ==> r@ == "[BINARY_DATA]"@,
        body@.len() <= max_size && vstd::utf8::valid_utf8(body@) ==> {
            let filtered = filter_body_text(strip_ctrl(vstd::utf8::decode_utf8(body@)));
            r@ == if filtered.len() > max_size {
                filtered.take(max_size as int) + "...[TRUNCATED]"@
            } else {
                filtered
            }
        },
{
    if body.len() > max_size {
        let mut s = String::from_str("[TRUNCATED ");
        s.append(usize_to_string(body.len()).as_str());
        s.append(" bytes]");
        return s;
    }
    let decoded = match decode_utf8_chars(body.as_slice()) {
        Some(chars) => chars,
        None => {
            return String::from_str("[BINARY_DATA]");
        },
    };
    // Strip control characters other than newline and tab.
    let mut kept: Vec<char> = Vec::new();
    let mut i: usize = 0;
    #[verifier::loop_isolation(false)]
    while i < decoded.len()
        invariant
            0 <= i <= decoded@.len(),
            kept@ == strip_ctrl(decoded@.subrange(0, i as int)),
        decreases decoded@.len() - i,
    {
        proof {
            assert(decoded@.subrange(0, i + 1).drop_last() =~= decoded@.subrange(0, i as int));
        }
        let c = decoded[i];
        let code = c as u32;
        if !((code < 32 && c != '\n' && c != '\t') || code == 127) {
            kept.push(c);
        }
        i += 1;
    }
    proof {
        assert(decoded@.subrange(0, decoded@.len() as int) =~= decoded@);
    }
    // Split at newlines.
    let mut lines: Vec<Vec<char>> = Vec::new();
    let mut current: Vec<char> = Vec::new();
    let mut k: usize = 0;
    #[verifier::loop_isolation(false)]
    while k < kept.len()
        invariant
            0 <= k <= kept@.len(),
            split_lines(kept@.subrange(0, k as int)) == views_of(lines@).push(current@),
        decreases kept@.len() - k,
    {
        proof {
            assert(kept@.subrange(0, k + 1).drop_last() =~= kept@.subrange(0, k as int));
        }
        let c = kept[k];
        if c == '\n' {
            lines.push(current);
            current = Vec::new();
            proof {
                assert(views_of(lines@) =~= views_of(lines@.drop_last()).push(lines@.last()@));
            }
        } else {
            current.push(c);
            proof {
                let prev = split_lines(kept@.subrange(0, k as int));
                assert(views_of(lines@).push(current@) =~= prev.update(
                    prev.len() - 1,
                    prev.last().push(c),
                ));
            }
        }
        k += 1;
    }
    lines.push(current);
    proof {
        assert(kept@.subrange(0, kept@.len() as int) =~= kept@);
        assert(views_of(lines@) =~= views_of(lines@.drop_last()).push(lines@.last()@));
    }
    // Filter each line and join them back.
    let sk = chars_of("sk-");
    let anthropic = chars_of("anthropic");
    let token = chars_of("token");
    let marker = chars_of("[SENSITIVE_DATA_FILTERED]");
    let mut out: Vec<char> = Vec::new();
    let mut m: usize = 0;
    let ghost line_views = views_of(lines@);
    #[verifier::loop_isolation(false)]
    while m < lines.len()
        invariant
            0 <= m <= lines@.len(),
            line_views == views_of(lines@),
            line_views.len() == lines@.len(),
            m > 0 ==> out@ == join_lines(filtered_lines(line_views.subrange(0, m as int))),
            m == 0 ==> out@ == Seq::<char>::empty(),
            marker@ == "[SENSITIVE_DATA_FILTERED]"@,
            sk@ == "sk-"@,
            anthropic@ == "anthropic"@,
            token@ == "token"@,
        decreases lines@.len() - m,
    {
        if m > 0 {
            out.push('\n');
        }
        let sensitive = chars_contain(&lines[m], &sk) || chars_contain(&lines[m], &anthropic)
            || chars_contain(&lines[m], &token);
        let ghost out_before = out@;
        if sensitive {
            let mut w: usize = 0;
            #[verifier::loop_isolation(false)]
            while w < marker.len()
                invariant
                    0 <= w <= marker@.len(),
                    out@ == out_before + marker@.subrange(0, w as int),
                decreases marker@.len() - w,
            {
                out.push(marker[w]);
                proof {
                    assert(out@ =~= out_before + marker@.subrange(0, w + 1));
                }
                w += 1;
            }
            proof {
                assert(marker@.subrange(0, marker@.len() as int) =~= marker@);
            }
        } else {
            let line = &lines[m];
            let mut w: usize = 0;
            #[verifier::loop_isolation(false)]
            while w < line.len()
                invariant
                    0 <= w <= line@.len(),
                    out@ == out_before + line@.subrange(0, w as int),
                decreases line@.len() - w,
            {
                out.push(line[w]);
                proof {
                    assert(out@ =~= out_before + line@.subrange(0, w + 1));
                }
                w += 1;
            }
            proof {
                assert(line@.subrange(0, line@.len() as int) =~= line@);
            }
        }
        proof {
            lemma_filtered_lines_len(line_views.subrange(0, m as int));
            lemma_filtered_lines_len(line_views.subrange(0, m + 1));
            assert(line_views[m as int] == lines@[m as int]@);
            assert(out@ == out_before + filtered_line(line_views[m as int]));
            assert(filtered_lines(line_views.subrange(0, m + 1)).drop_last()
                =~= filtered_lines(line_views.subrange(0, m as int))) by {
                assert(line_views.subrange(0, m + 1).drop_last() =~= line_views.subrange(
                    0,
                    m as int,
                ));
            }
            assert(filtered_lines(line_views.subrange(0, m + 1)).last() == filtered_line(
                line_views[m as int],
            )) by {
                assert(line_views.subrange(0, m + 1).last() == line_views[m as int]);
            }
            if m == 0 {
                assert(out@ =~= join_lines(filtered_lines(line_views.subrange(0, 1))));
            } else {
                assert(out@ =~= join_lines(filtered_lines(line_views.subrange(0, m + 1))));
            }
        }
        m += 1;
    }
    proof {
        assert(lines@.len() >= 1);
        lemma_filtered_lines_len(line_views);
        assert(line_views.subrange(0, line_views.len() as int) =~= line_views);
        assert(split_lines(kept@) == line_views);
        assert(out@ == join_lines(filtered_lines(line_views)));
        assert(out@ == filter_body_text(kept@));
    }
    // Cut an overlong result down.
    if out.len() > max_size {
        let mut truncated: Vec<char> = Vec::new();
        let mut w: usize = 0;
        #[verifier::loop_isolation(false)]
        while w < max_size
            invariant
                0 <= w <= max_size <= out@.len(),
                truncated@ == out@.subrange(0, w as int),
            decreases max_size - w,
        {
            truncated.push(out[w]);
            proof {
                assert(truncated@ =~= out@.subrange(0, w + 1));
            }
            w += 1;
        }
        let mut r = string_from_chars(&truncated);
        r.append("...[TRUNCATED]");
        proof {
            assert(out@.subrange(0, max_size as int) =~= out@.take(max_size as int));
        }
        r
    } else {
        string_from_chars(&out)
    }
}

} // verus!
