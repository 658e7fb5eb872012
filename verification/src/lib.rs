//! Core logic of a local reverse proxy that fronts a set of equivalent
//! upstream API endpoints, continuously measures each upstream's health and
//! latency, keeps a single "current" upstream, and switches traffic to a
//! better upstream when one appears or the current one fails.
//!
//! This crate holds the decision logic: endpoint registry and configuration
//! validation, the bounded latency history, the connection tracker with its
//! distribution invariant, the load classifier and dynamic interval
//! scheduler, the health-cycle state machine with race-winner switching, the
//! retry and cross-endpoint fallback policies, and the log-line and dashboard
//! text formatting. All I/O (HTTP serving and forwarding, the probe
//! subprocess, configuration files, terminals, clocks) lives outside, hands
//! the library plain values, and takes plain values back.

pub mod config;
pub mod events;
pub mod health;
pub mod history;
pub mod i18n;
pub mod load;
pub mod logging;
pub mod monitor;
pub mod orchestrator;
pub mod pipeline;
pub mod retry;
pub mod state;
pub mod state_manager;
pub mod strutil;
pub mod timing;
pub mod tracker;
