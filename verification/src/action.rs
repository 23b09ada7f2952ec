use vstd::prelude::*;

use crate::errors::RmcsError;
use crate::json::JsonVal;

verus! {

// ---------------------------------------------------------------------------
// The session-side state of one running action, and the four session shapes
// as state machines. The running task itself lives with the task runtime in
// the surrounding application; what is modelled and checked here is each
// shape's lifecycle: what may happen in each state, what is terminal, and
// when the completion hook fires.
// ---------------------------------------------------------------------------

/// One session's action: its id, whether its task still runs, and whether it
/// finished of its own accord (as opposed to being aborted).
pub struct Action {
    pub session_id: Vec<u8>,
    pub live: bool,
    pub completed: bool,
}

impl Action {
    /// A freshly spawned action.
    pub fn new(session_id: Vec<u8>) -> (a: Action)
        ensures
            a.session_id == session_id,
            a.live,
            !a.completed,
    {
        Action { session_id, live: true, completed: false }
    }

    /// Feeds one value to the task's inbound channel. Fails exactly when the
    /// task no longer runs; the value is otherwise handed over unchanged.
    pub fn resume(&self, msg: JsonVal) -> (r: Result<JsonVal, RmcsError>)
        ensures
            self.live ==> (r matches Ok(v) && v == msg),
            !self.live ==> r == Err::<JsonVal, RmcsError>(RmcsError::ChannelClosed),
    {
        if self.live {
            Ok(msg)
        } else {
            Err(RmcsError::ChannelClosed)
        }
    }

    /// Ends the task without waiting. Safe to call more than once and after
    /// the task has finished; it never marks the action as completed.
    pub fn abort(&mut self)
        ensures
            !final(self).live,
            final(self).completed == old(self).completed,
            final(self).session_id == old(self).session_id,
    {
        self.live = false;
    }

    /// The task returned of its own accord: exactly here the completion hook
    /// fires, exactly once.
    pub fn finish(&mut self) -> (fire_hook: bool)
        requires
            old(self).live,
        ensures
            !final(self).live,
            final(self).completed,
            final(self).session_id == old(self).session_id,
            fire_hook,
    {
        self.live = false;
        self.completed = true;
        true
    }
}

// ---------------------------------------------------------------------------
// Once-shot: one outbound message, then done. Nothing inbound is consumed.
// ---------------------------------------------------------------------------

pub struct OnceShot {
    pub session_id: Vec<u8>,
    pub fired: bool,
}

impl OnceShot {
    pub fn new(session_id: Vec<u8>) -> (s: OnceShot)
        ensures
            s.session_id == session_id,
            !s.fired,
    {
        OnceShot { session_id, fired: false }
    }

    /// Emits the single output; the shape is spent afterwards.
    pub fn fire(&mut self)
        requires
            !old(self).fired,
        ensures
            final(self).fired,
            final(self).session_id == old(self).session_id,
    {
        self.fired = true;
    }
}

// ---------------------------------------------------------------------------
// Responsive: one output per input, until the inbound side closes.
// ---------------------------------------------------------------------------

pub struct Responsive {
    pub session_id: Vec<u8>,
    pub ended: bool,
}

impl Responsive {
    pub fn new(session_id: Vec<u8>) -> (s: Responsive)
        ensures
            s.session_id == session_id,
            !s.ended,
    {
        Responsive { session_id, ended: false }
    }

    /// Takes one input; each input is answered while the shape runs.
    pub fn on_input(&mut self, input: JsonVal) -> (out: JsonVal)
        requires
            !old(self).ended,
        ensures
            !final(self).ended,
            final(self).session_id == old(self).session_id,
            out == input,
    {
        input
    }

    /// The inbound channel closed: the loop ends.
    pub fn end(&mut self)
        ensures
            final(self).ended,
            final(self).session_id == old(self).session_id,
    {
        self.ended = true;
    }
}

// ---------------------------------------------------------------------------
// Streaming: the user task owns both channels until the close signal fires.
// ---------------------------------------------------------------------------

pub struct Streaming {
    pub session_id: Vec<u8>,
    pub closed: bool,
}

impl Streaming {
    pub fn new(session_id: Vec<u8>) -> (s: Streaming)
        ensures
            s.session_id == session_id,
            !s.closed,
    {
        Streaming { session_id, closed: false }
    }

    /// The close signal fired; no further step happens.
    pub fn close(&mut self)
        ensures
            final(self).closed,
            final(self).session_id == old(self).session_id,
    {
        self.closed = true;
    }
}

// ---------------------------------------------------------------------------
// Ping-pong: one request out, then exactly one of a reply or the close
// signal ends the wait. Both outcomes are terminal, so the two paths
// exclude each other by construction.
// ---------------------------------------------------------------------------

pub struct PingPong {
    pub session_id: Vec<u8>,
    pub state: PingPongState,
}

#[derive(Debug, Clone, Copy, PartialEq, Eq, Structural)]
pub enum PingPongState {
    Sent,
    Done,
    Closed,
}

pub open spec fn ping_pong_terminal(s: PingPongState) -> bool {
    s is Done || s is Closed
}

impl PingPong {
    /// The request has been written to the link; the wait begins.
    pub fn new(session_id: Vec<u8>) -> (s: PingPong)
        ensures
            s.session_id == session_id,
            s.state is Sent,
    {
        PingPong { session_id, state: PingPongState::Sent }
    }

    /// The one reply arrives while still waiting; it is handed through
    /// unchanged, and the wait is over.
    pub fn on_response(&mut self, v: JsonVal) -> (out: JsonVal)
        requires
            old(self).state is Sent,
        ensures
            final(self).state is Done,
            final(self).session_id == old(self).session_id,
            out == v,
    {
        self.state = PingPongState::Done;
        v
    }

    /// The close signal fires while still waiting; the wait is over with no
    /// reply delivered.
    pub fn on_close(&mut self)
        requires
            old(self).state is Sent,
        ensures
            final(self).state is Closed,
            final(self).session_id == old(self).session_id,
    {
        self.state = PingPongState::Closed;
    }
}

/// Law: from the waiting state, a reply and the close signal exclude each
/// other — each leads to a distinct terminal state, and no step leaves a
/// terminal state.
pub proof fn lemma_ping_pong_exclusive(a: PingPong, b: PingPong, c: PingPong)
    requires
        a.state is Sent,
        b.state is Done,
        c.state is Closed,
    ensures
        !ping_pong_terminal(a.state),
        ping_pong_terminal(b.state),
        ping_pong_terminal(c.state),
        b.state != c.state,
{
}

} // verus!
