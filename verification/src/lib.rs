//! A quota-aware multi-account router for a hosted completions API.
//!
//! The library holds the verified logic of the router: normalizing quota
//! snapshots reported by the upstream, keeping credentials fresh through an
//! explicit per-account refresh state machine, selecting which accounts are
//! eligible to serve a request and in what order, and translating inbound
//! chat requests into the upstream's request shape.  All I/O (HTTP, the
//! filesystem, the process environment) lives outside the library and hands
//! it plain values.

pub mod app_state;
pub mod auth;
pub mod codex_types;
pub mod config;
pub mod coordinator;
pub mod credfile;
pub mod jsonval;
pub mod login_output;
pub mod profile;
pub mod quota;
pub mod refresh;
pub mod router;
pub mod select;
pub mod shared;
pub mod state;
pub mod strutil;
pub mod tray;
pub mod version;
