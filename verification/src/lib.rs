//! Core logic of a multi-user scraping orchestrator.
//!
//! Each registered user owns a long-lived instance that runs a portal
//! session on a randomized per-user schedule, tracks sign-in health, and
//! mirrors its fleet into an external uptime monitor.  This crate holds the
//! verified decision logic: execution-time planning, the per-user request
//! state machine, the sign-in failure journal, account lifecycle policy,
//! fleet reconciliation, and the monitor directory.  All I/O (database,
//! SMTP, browser, HTTP) lives outside and communicates through plain values.

pub mod api;
pub mod deletion;
pub mod email;
pub mod errors;
pub mod health;
pub mod journal;
pub mod kuma;
pub mod secret;
pub mod shift;
pub mod timer;
pub mod variables;
pub mod watchdog;
pub mod webcom;
