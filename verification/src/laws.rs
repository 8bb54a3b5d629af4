//! What the operations are for, stated over their calls.
//!
//! Each law speaks of whatever a call may return for given arguments, in terms of
//! those arguments and that result alone.

pub mod answers;
pub mod commands;
pub mod deployment;
pub mod endings;
pub mod forwarding;
pub mod hosts;
pub mod paths;
pub mod persistence;
pub mod service;
pub mod setup;
pub mod wire;
