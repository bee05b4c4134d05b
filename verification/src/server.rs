//! The server's state: rooms of peers, the turn order of a game and what a peer holds.
pub mod details;
pub mod peer;
pub mod states;

use vstd::prelude::*;

verus! {

/// Number of messages that a channel between the server's tasks holds.
pub const MPSC_CHANNEL_CAPACITY: usize = 32;

/// The longest wait, in seconds, before the listener gives up accepting connections.
pub const MAX_ACCEPT_BACKOFF: u64 = 64;

/// What the listener does after accepting a connection failed.
#[derive(Debug, Clone, Copy, PartialEq, Eq, Structural)]
pub enum AcceptStep {
    /// Wait this many seconds and try again, with the next wait doubled.
    Retry { wait_secs: u64, next_backoff: u64 },
    /// Stop listening.
    GiveUp,
}

/// After a failed accept with the current wait `backoff`: retry after waiting `backoff`
/// seconds with the wait doubled, or give up once the wait is over `MAX_ACCEPT_BACKOFF`.
pub fn on_accept_error(backoff: u64) -> (r: AcceptStep)
    ensures
        backoff > MAX_ACCEPT_BACKOFF ==> r == AcceptStep::GiveUp,
        backoff <= MAX_ACCEPT_BACKOFF ==> r == (AcceptStep::Retry {
            wait_secs: backoff,
            next_backoff: (2 * backoff) as u64,
        }),
{
    if backoff > MAX_ACCEPT_BACKOFF {
        AcceptStep::GiveUp
    } else {
        AcceptStep::Retry { wait_secs: backoff, next_backoff: 2 * backoff }
    }
}

} // verus!
