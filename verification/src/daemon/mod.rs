//! The daemon's decisions: everything the supervisor decides, separated from
//! the processes, sockets and files it drives.
pub mod home;
pub mod harness;
pub mod hostname;
pub mod error;
pub mod registry;
pub mod workspace;
pub mod session_log;
pub mod session;
pub mod manager;
pub mod server;
pub mod backends;
pub mod confine;
pub mod pid;
