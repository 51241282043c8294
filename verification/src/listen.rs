//! The decisions of a TCP listener: when to accept after an error pause,
//! and the queue of connection events it reports, first in, first out.

use std::collections::VecDeque;
use vstd::prelude::*;

verus! {

/// What polling the pause timer gave.
#[derive(Debug, Clone, Copy, PartialEq, Eq, Structural)]
pub enum TimerPoll {
    /// The pause is still running.
    Pending,
    /// The pause is over.
    Fired,
    /// The timer failed.
    Failed,
}

/// What the listener does before accepting.
#[derive(Debug, Clone, Copy, PartialEq, Eq, Structural)]
pub enum Gate {
    /// Still paused after an error: report that nothing is ready.
    Wait,
    /// The pause has ended (or its timer failed): drop it, then accept.
    ClearAndAccept,
    /// No pause: accept.
    Accept,
}

/// The pause gate in front of `accept`: `timer` is what polling the pause
/// gave, or `None` when no pause is set.
pub fn pause_gate(timer: Option<TimerPoll>) -> (g: Gate)
    ensures
        g == match timer {
            None => Gate::Accept,
            Some(TimerPoll::Pending) => Gate::Wait,
            Some(_) => Gate::ClearAndAccept,
        },
{
    match timer {
        Some(TimerPoll::Pending) => Gate::Wait,
        Some(_) => Gate::ClearAndAccept,
        None => Gate::Accept,
    }
}

/// What the listener does after asking for a connection.
#[derive(Debug, Clone, Copy, PartialEq, Eq, Structural)]
pub enum AcceptStep {
    /// Pass on what was accepted (a connection, the end, or not ready).
    Deliver,
    /// Start a pause, which `pause_gate` then waits out, and report the
    /// error.
    PauseAndFail,
}

/// The step after asking for a connection: an accept error starts a pause
/// and is reported; anything else is passed on.
pub fn after_accept(failed: bool) -> (s: AcceptStep)
    ensures
        s == (if failed {
            AcceptStep::PauseAndFail
        } else {
            AcceptStep::Deliver
        }),
{
    if failed {
        AcceptStep::PauseAndFail
    } else {
        AcceptStep::Deliver
    }
}

/// What polling the listener for a connection gave.
#[derive(Debug, Clone, Copy, PartialEq, Eq, Structural)]
pub enum ListenerPoll {
    /// A connection was accepted.
    Connection,
    /// The listener has ended.
    Ended,
    /// No connection is ready yet.
    Pending,
    /// The listener failed (it pauses before accepting again).
    Failed,
}

/// What the listening stream does with a poll of its listener.
#[derive(Debug, Clone, Copy, PartialEq, Eq, Structural)]
pub enum ListenStep {
    /// Take the connection and queue its peer's event.
    Accept,
    /// Report that the stream has ended.
    End,
    /// Report that nothing is ready; a failure of the listener is reported
    /// this way too, since the listener pauses and tries again.
    Wait,
}

/// The step the listening stream takes for what its listener gave: it
/// accepts a connection, ends with the listener, and otherwise waits, so
/// it never reports an error of its own.
pub open spec fn listen_step_for(poll: ListenerPoll) -> ListenStep {
    match poll {
        ListenerPoll::Connection => ListenStep::Accept,
        ListenerPoll::Ended => ListenStep::End,
        _ => ListenStep::Wait,
    }
}

/// The step the listening stream takes for what its listener gave.
pub fn listener_step(poll: ListenerPoll) -> (s: ListenStep)
    ensures
        s == listen_step_for(poll),
{
    match poll {
        ListenerPoll::Connection => ListenStep::Accept,
        ListenerPoll::Ended => ListenStep::End,
        ListenerPoll::Pending => ListenStep::Wait,
        ListenerPoll::Failed => ListenStep::Wait,
    }
}

/// The events of a listening socket: the peer address of each accepted
/// connection, reported in the order the connections came.
pub struct TcpListenStream {
    /// The port which is used as the listen port in listener events.
    port: u16,
    /// Events not yet reported.
    pending: VecDeque<String>,
}

impl TcpListenStream {
    /// The events not yet reported, oldest first.
    pub closed spec fn events(&self) -> Seq<String> {
        self.pending@
    }

    pub closed spec fn listen_port(&self) -> u16 {
        self.port
    }

    /// A stream for a listener on `port` with nothing to report.
    pub fn new(port: u16) -> (s: TcpListenStream)
        ensures
            s.events() == Seq::<String>::empty(),
            s.listen_port() == port,
    {
        TcpListenStream { port, pending: VecDeque::new() }
    }

    /// The listen port.
    pub fn port(&self) -> (p: u16)
        ensures
            p == self.listen_port(),
    {
        self.port
    }

    /// The oldest event not yet reported, which leaves the queue; `None`
    /// when there is none.
    pub fn next_event(&mut self) -> (e: Option<String>)
        ensures
            final(self).listen_port() == old(self).listen_port(),
            old(self).events().len() > 0 ==> {
                &&& e == Some(old(self).events()[0])
                &&& final(self).events() == old(self).events().drop_first()
            },
            old(self).events().len() == 0 ==> {
                &&& e is None
                &&& final(self).events() == old(self).events()
            },
    {
        self.pending.pop_front()
    }

    /// What the stream does with a poll of its listener, which it makes
    /// once it has no event left to report: `listener_step` of the poll.
    /// When a connection was accepted and its peer's address is known, the
    /// event for it is queued behind all others, to be reported before the
    /// listener is polled again; otherwise the queue is left as it was.
    pub fn on_listener(&mut self, poll: ListenerPoll, peer: Option<String>) -> (s: ListenStep)
        ensures
            s == listen_step_for(poll),
            final(self).listen_port() == old(self).listen_port(),
            s == ListenStep::Accept && peer is Some ==> final(self).events() == old(
                self,
            ).events().push(peer.unwrap()),
            !(s == ListenStep::Accept && peer is Some) ==> final(self).events() == old(
                self,
            ).events(),
    {
        let s = listener_step(poll);
        match (s, peer) {
            (ListenStep::Accept, Some(addr)) => {
                self.pending.push_back(addr);
            },
            _ => {},
        }
        s
    }

    /// Queues the event for a connection from `peer`, behind all others.
    pub fn record_peer(&mut self, peer: String)
        ensures
            final(self).listen_port() == old(self).listen_port(),
            final(self).events() == old(self).events().push(peer),
    {
        self.pending.push_back(peer);
    }
}

} // verus!
