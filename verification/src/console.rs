//! Terminal signal capture: Ctrl+C (and Unix SIGTERM) is forwarded to the daemon
//! instead of ending the client, so the exit code of the interrupted remote
//! command is still reported.

use vstd::prelude::*;

use crate::proto::Signal;

verus! {

/// The signal to forward for one that was caught; only SIGINT and SIGTERM are.
pub fn caught(number: i32) -> (r: Signal)
    ensures
        r == if number == Signal::Term.number() {
            Signal::Term
        } else {
            Signal::Int
        },
{
    if number == Signal::Term.as_raw() {
        Signal::Term
    } else {
        Signal::Int
    }
}

/// The signal to forward for a Windows console event: Ctrl+C and Ctrl+Break
/// count, the default handling of the others ends the process anyway.
pub fn console_event(ctrl_type: u32) -> (r: Option<Signal>)
    ensures
        r == if ctrl_type == 0 || ctrl_type == 1 {
            Some(Signal::Int)
        } else {
            None
        },
{
    if ctrl_type <= 1 {
        Some(Signal::Int)
    } else {
        None
    }
}

} // verus!
