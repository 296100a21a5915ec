use vstd::prelude::*;

verus! {

/// What the accept loop observed in one bounded wait.
#[derive(Clone, Copy, Debug, PartialEq, Eq, Structural)]
pub enum AcceptEvent {
    /// A connection arrived.
    Incoming,
    /// Accepting failed transiently.
    AcceptFailed,
    /// The bounded wait ran out with nothing to accept.
    PollTimeout,
}

/// What the acceptor does next.
#[derive(Clone, Copy, Debug, PartialEq, Eq, Structural)]
pub enum AcceptorAction {
    /// Hand the connection to an independent handler and keep accepting.
    Dispatch,
    /// Pause briefly before accepting again, to avoid a hot error loop.
    Backoff,
    /// Check the shutdown flag again and wait for the next connection.
    Poll,
    /// Stop accepting and let in-flight connections drain.
    Drain,
}

/// Decide the accept loop's next step from the shutdown flag and what
/// the bounded wait observed: once shutdown is flagged the loop
/// drains; otherwise an arrived connection is dispatched, a failed
/// accept backs off briefly, and an idle wait polls the flag again.
pub fn acceptor_step(running: bool, event: AcceptEvent) -> (a: AcceptorAction)
    ensures
        !running ==> a is Drain,
        running && event is Incoming ==> a is Dispatch,
        running && event is AcceptFailed ==> a is Backoff,
        running && event is PollTimeout ==> a is Poll,
{
    if !running {
        AcceptorAction::Drain
    } else {
        match event {
            AcceptEvent::Incoming => AcceptorAction::Dispatch,
            AcceptEvent::AcceptFailed => AcceptorAction::Backoff,
            AcceptEvent::PollTimeout => AcceptorAction::Poll,
        }
    }
}

/// The next connection number for diagnostics: one more than the
/// last, saturating at the top so that it never wraps.
pub fn next_connection_id(counter: u64) -> (r: u64)
    ensures
        counter < u64::MAX ==> r == counter + 1,
        counter == u64::MAX ==> r == u64::MAX,
{
    if counter < u64::MAX {
        counter + 1
    } else {
        counter
    }
}

} // verus!
