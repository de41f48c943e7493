//! The decisions of the loop that turns bursts of change notifications from
//! the project directory into single ones. The loop itself, which waits for
//! notifications and reads the clock, is the caller's.

use vstd::prelude::*;

verus! {

/// What the watcher of the project directory reports.
#[derive(Debug, Clone)]
pub enum ProjectEvent {
    /// Something in the directory changed.
    Changed,
    /// Watching failed, with the reason.
    Error(String),
}

/// What one wait for the watcher brought.
#[derive(Debug)]
pub enum Arrival {
    /// The watcher reported something.
    Event(ProjectEvent),
    /// Nothing came within the time waited.
    Timeout,
    /// The watcher is gone.
    Disconnected,
}

/// What the loop does with what a wait brought.
#[derive(Debug)]
pub struct Reaction {
    /// The error to pass on at once, if one arrived.
    pub forward: Option<ProjectEvent>,
    /// Whether a change arrived, so that the quiet time starts anew.
    pub restart: bool,
    /// Whether the loop ends.
    pub stop: bool,
}

/// What the loop does with `arrival`: a change starts the quiet time anew,
/// an error is passed on at once, and the loop ends when the watcher is
/// gone.
pub fn react(arrival: Arrival) -> (reaction: Reaction)
    ensures
        reaction.restart == (arrival matches Arrival::Event(ProjectEvent::Changed)),
        reaction.stop == (arrival is Disconnected),
        match arrival {
            Arrival::Event(ProjectEvent::Error(reason)) => reaction.forward == Some(
                ProjectEvent::Error(reason),
            ),
            _ => reaction.forward is None,
        },
{
    match arrival {
        Arrival::Event(ProjectEvent::Changed) => Reaction {
            forward: None,
            restart: true,
            stop: false,
        },
        Arrival::Event(ProjectEvent::Error(reason)) => Reaction {
            forward: Some(ProjectEvent::Error(reason)),
            restart: false,
            stop: false,
        },
        Arrival::Timeout => Reaction { forward: None, restart: false, stop: false },
        Arrival::Disconnected => Reaction { forward: None, restart: false, stop: true },
    }
}

/// Whether a burst of changes is over, so that one change is passed on: a
/// change waits, and `quiet`, the time since the last change arrived, has
/// reached `delay`, both counted in nanoseconds.
pub fn burst_is_over(quiet: Option<u128>, delay: u128) -> (over: bool)
    ensures
        over == (quiet matches Some(time) && time >= delay),
{
    match quiet {
        Some(time) => time >= delay,
        None => false,
    }
}

} // verus!
