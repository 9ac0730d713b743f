//! The acceptor: it binds the listening address once, then takes in
//! connections for as long as the process lives and starts a handler for
//! each.

use vstd::prelude::*;

verus! {

/// Where the acceptor stands.
#[derive(Clone, Copy, Debug, PartialEq, Eq, Structural)]
pub enum AcceptorPhase {
    /// The listening address is not bound yet.
    Binding,
    /// The address is bound; connections are taken in.
    Accepting,
    /// The address could not be bound; no connection is ever taken in.
    Failed,
}

/// What happened at the listener.
#[derive(Clone, Copy, Debug, PartialEq, Eq, Structural)]
pub enum AcceptorEvent {
    /// The server was started.
    Started,
    /// The listening address was bound.
    Bound,
    /// The listening address could not be bound.
    BindFailed,
    /// A connection came in.
    Accepted,
    /// An attempt to connect failed.
    AcceptFailed,
}

/// What the listener is to do next.
#[derive(Clone, Copy, Debug, PartialEq, Eq, Structural)]
pub enum AcceptorAction {
    /// Bind the listening address, then report `Bound` or `BindFailed`.
    Bind,
    /// Wait for the next connection, then report `Accepted` or
    /// `AcceptFailed`.
    Accept,
    /// Start a handler for the connection that came in, and without waiting
    /// for it wait for the next connection.
    Serve,
    /// Report to the caller that the address could not be bound, and stop.
    Fail,
    /// Stop; the failure has been reported.
    Stop,
}

/// The acceptor of a server.
#[derive(Clone, Copy, Debug, PartialEq, Eq, Structural)]
pub struct Acceptor {
    pub phase: AcceptorPhase,
}

/// The transition of the acceptor: where it stands after `event`, and what
/// the listener is to do next.
///
/// Binding leads to accepting, or fails for good, which is reported once;
/// until one of the two is known, binding is what remains to be done. While
/// accepting, each connection that comes in is served and each failed
/// attempt is passed over; either way the next connection is awaited.
pub open spec fn acceptor_next(phase: AcceptorPhase, event: AcceptorEvent) -> (
    AcceptorPhase,
    AcceptorAction,
) {
    match phase {
        AcceptorPhase::Binding => match event {
            AcceptorEvent::Bound => (AcceptorPhase::Accepting, AcceptorAction::Accept),
            AcceptorEvent::BindFailed => (AcceptorPhase::Failed, AcceptorAction::Fail),
            _ => (AcceptorPhase::Binding, AcceptorAction::Bind),
        },
        AcceptorPhase::Accepting => match event {
            AcceptorEvent::Accepted => (AcceptorPhase::Accepting, AcceptorAction::Serve),
            _ => (AcceptorPhase::Accepting, AcceptorAction::Accept),
        },
        AcceptorPhase::Failed => (AcceptorPhase::Failed, AcceptorAction::Stop),
    }
}

impl Acceptor {
    /// An acceptor that has not bound its address yet.
    pub fn new() -> (acceptor: Acceptor)
        ensures
            acceptor.phase is Binding,
    {
        Acceptor { phase: AcceptorPhase::Binding }
    }

    /// Takes `event` in and says what the listener is to do next.
    pub fn step(&mut self, event: AcceptorEvent) -> (action: AcceptorAction)
        ensures
            (final(self).phase, action) == acceptor_next(old(self).phase, event),
    {
        match self.phase {
            AcceptorPhase::Binding => match event {
                AcceptorEvent::Bound => {
                    self.phase = AcceptorPhase::Accepting;
                    AcceptorAction::Accept
                },
                AcceptorEvent::BindFailed => {
                    self.phase = AcceptorPhase::Failed;
                    AcceptorAction::Fail
                },
                _ => AcceptorAction::Bind,
            },
            AcceptorPhase::Accepting => match event {
                AcceptorEvent::Accepted => AcceptorAction::Serve,
                _ => AcceptorAction::Accept,
            },
            AcceptorPhase::Failed => AcceptorAction::Stop,
        }
    }
}

/// Once it accepts, the acceptor accepts for good: whatever happens at the
/// listener, it goes on to await the next connection, and it starts a
/// handler exactly for the connections that came in.
pub proof fn lemma_accepting_never_ends(event: AcceptorEvent)
    ensures
        acceptor_next(AcceptorPhase::Accepting, event).0 is Accepting,
        acceptor_next(AcceptorPhase::Accepting, event).1 is Serve <==> event is Accepted,
        acceptor_next(AcceptorPhase::Accepting, event).1 is Accept <==> !(event is Accepted),
{
}

/// A failure to bind is reported once, on the event that brings it, and no
/// connection is served before the address is bound or after binding failed.
pub proof fn lemma_bind_failure_is_final(phase: AcceptorPhase, event: AcceptorEvent)
    ensures
        acceptor_next(phase, event).1 is Fail <==> phase is Binding && event is BindFailed,
        acceptor_next(phase, event).1 is Serve ==> phase is Accepting,
        phase is Failed ==> acceptor_next(phase, event) == (
            AcceptorPhase::Failed,
            AcceptorAction::Stop,
        ),
{
}

} // verus!
