//! shell-proxy: run local commands on a remote Linux host with persistent
//! shell state, as if typed into an interactive bash there.
//!
//! This crate is the verified core: wire framing, stream filters, script and
//! request building, configuration rules, and the decision machines that drive
//! the client, the resident daemon and the remote server. Everything that
//! touches a socket, a process or the clock lives in the application around it
//! and exchanges plain values with the functions here.

pub mod child;
pub mod cli;
pub mod client;
pub mod config;
pub mod console;
pub mod daemon;
pub mod embed;
pub mod error;
pub mod exec;
pub mod frame;
pub mod ipc;
pub mod laws;
pub mod marker;
pub mod mcp;
pub mod path;
pub mod proto;
pub mod remote;
pub mod script;
pub mod serve;
pub mod session;
pub mod shell;
pub mod ssh;
pub mod ssh_config;
pub mod text;
pub mod transport;
pub mod wrapper;

pub use error::Error;
