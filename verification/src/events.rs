//! Events flowing from the proxy and the health orchestrator to observers,
//! and the record of one in-flight proxied connection.
//!
//! Instants are carried as milliseconds (`u64`), durations as milliseconds or
//! seconds as each field names them.

use vstd::prelude::*;
use crate::health::EndpointStatus;
use crate::load::LoadLevel;

verus! {

/// How the current endpoint is chosen: automatically by the health
/// orchestrator, or pinned by the operator.
#[derive(Debug, Clone, Copy, PartialEq, Eq, Structural)]
pub enum SelectionMode {
    Auto,
    Manual,
}

impl Default for SelectionMode {
    fn default() -> (r: Self)
        ensures
            r == SelectionMode::Auto,
    {
        SelectionMode::Auto
    }
}

impl SelectionMode {
    /// Short upper-case label used by the status line.
    pub fn label(&self) -> (r: &'static str)
        ensures
            *self == SelectionMode::Auto ==> r@ == "AUTO"@,
            *self == SelectionMode::Manual ==> r@ == "MANUAL"@,
    {
        match self {
            SelectionMode::Auto => "AUTO",
            SelectionMode::Manual => "MANUAL",
        }
    }
}

/// Lifecycle stage of a proxied connection. Transitions only ever move
/// forward: `Connecting` to `Processing` to `Finishing`.
#[derive(Debug, Clone, Copy, PartialEq, Eq, Structural)]
pub enum ConnectionStatus {
    Connecting,
    Processing,
    Finishing,
}

/// Position of a stage in the forward-only chain.
pub open spec fn status_rank(s: ConnectionStatus) -> int {
    match s {
        ConnectionStatus::Connecting => 0,
        ConnectionStatus::Processing => 1,
        ConnectionStatus::Finishing => 2,
    }
}

impl ConnectionStatus {
    /// Text shown for this stage.
    pub fn label(&self) -> (r: &'static str)
        ensures
            *self == ConnectionStatus::Connecting ==> r@ == "Connecting..."@,
            *self == ConnectionStatus::Processing ==> r@ == "Processing"@,
            *self == ConnectionStatus::Finishing ==> r@ == "Finishing"@,
    {
        match self {
            ConnectionStatus::Connecting => "Connecting...",
            ConnectionStatus::Processing => "Processing",
            ConnectionStatus::Finishing => "Finishing",
        }
    }
}

/// Optional request details attached to a connection.
#[derive(Debug, PartialEq, Eq)]
pub struct RequestInfo {
    pub method: String,
    pub path: String,
    pub user_agent: Option<String>,
}

impl Clone for RequestInfo {
    fn clone(&self) -> (r: Self)
        ensures
            r == *self,
    {
        RequestInfo {
            method: self.method.clone(),
            path: self.path.clone(),
            user_agent: crate::strutil::clone_opt_string(&self.user_agent),
        }
    }
}

/// One in-flight proxied request.
#[derive(Debug, PartialEq, Eq)]
pub struct ActiveConnection {
    pub id: String,
    pub endpoint: String,
    pub start_time_ms: u64,
    pub status: ConnectionStatus,
    pub request_info: Option<RequestInfo>,
}

impl Clone for ActiveConnection {
    fn clone(&self) -> (r: Self)
        ensures
            r == *self,
    {
        ActiveConnection {
            id: self.id.clone(),
            endpoint: self.endpoint.clone(),
            start_time_ms: self.start_time_ms,
            status: self.status,
            request_info: match &self.request_info {
                Some(info) => Some(info.clone()),
                None => None,
            },
        }
    }
}

impl ActiveConnection {
    /// The record a fresh connection starts from.
    pub open spec fn spec_new(id: String, endpoint: String, now_ms: u64) -> ActiveConnection {
        ActiveConnection {
            id,
            endpoint,
            start_time_ms: now_ms,
            status: ConnectionStatus::Connecting,
            request_info: None,
        }
    }

    /// A fresh connection in the `Connecting` stage.
    pub fn new(id: String, endpoint: String, now_ms: u64) -> (r: Self)
        ensures
            r == ActiveConnection::spec_new(id, endpoint, now_ms),
    {
        ActiveConnection {
            id,
            endpoint,
            start_time_ms: now_ms,
            status: ConnectionStatus::Connecting,
            request_info: None,
        }
    }

    /// Milliseconds this connection has been alive at `now_ms` (zero when the
    /// clock reads earlier than the start).
    pub fn duration(&self, now_ms: u64) -> (r: u64)
        ensures
            r == if now_ms >= self.start_time_ms {
                (now_ms - self.start_time_ms) as int
            } else {
                0
            },
    {
        if now_ms >= self.start_time_ms {
            now_ms - self.start_time_ms
        } else {
            0
        }
    }

    /// Replaces the lifecycle stage.
    pub fn update_status(&mut self, status: ConnectionStatus)
        ensures
            *final(self) == (ActiveConnection { status, ..*old(self) }),
    {
        self.status = status;
    }
}

/// Everything the proxy and the orchestrator report, in the order produced.
#[derive(Debug, PartialEq, Eq)]
pub enum ProxyEvent {
    /// A new connection has started.
    ConnectionStarted(ActiveConnection),
    /// A connection has completed; carries the connection id.
    ConnectionCompleted(String),
    /// A request arrived, for load tracking.
    RequestReceived { endpoint: String, timestamp_ms: u64 },
    /// A health-check cycle began.
    HealthCheckStarted {
        interval_secs: u64,
        next_check_time_ms: u64,
        load_level: LoadLevel,
        active_connections: u32,
    },
    /// The probes of a cycle are in flight.
    HealthCheckRunning { started_at_ms: u64, estimated_duration_secs: u64 },
    /// A health-check cycle finished.
    HealthCheckCompleted { duration_ms: u64 },
    /// One endpoint's status changed.
    HealthUpdate(EndpointStatus),
    /// Traffic switched from one endpoint to another.
    EndpointSwitch { from: String, to: String, from_latency: u64, to_latency: u64 },
    /// The selection mode changed.
    SelectionModeChanged { mode: SelectionMode },
    /// The operator picked an endpoint by hand.
    ManualEndpointSelected { endpoint: String, endpoint_index: usize },
    /// The proxy server is listening.
    ServerStarted { port: u16 },
    /// The configuration was loaded.
    ConfigLoaded { endpoint_count: usize },
    /// Health monitoring paused.
    SystemPaused,
    /// Health monitoring resumed.
    SystemResumed,
    /// A manual refresh was requested.
    ManualRefreshTriggered,
}

} // verus!
