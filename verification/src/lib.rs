//! Bao: the verified core of a coding-session supervisor — the session
//! model and lifecycle, the alert signal, the value types, the wire
//! vocabulary and framing, and the daemon's pure decisions.
pub mod text;
pub mod search;
pub mod order;
pub mod decimal;
pub mod error;
pub mod sandbox;
pub mod types;
pub mod lifecycle;
pub mod event;
pub mod alert;
pub mod registry_entry;
pub mod protocol;
pub mod client;
pub mod frame;
pub mod path;
pub mod daemon;
