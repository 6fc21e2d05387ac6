//! The connection lifecycle as seen by the client facade and the heartbeat.
use vstd::prelude::*;

verus! {

/// Time between two checks for activity while a send waits, in milliseconds.
pub const SEND_POLL_INTERVAL_MS: u64 = 1;

/// How long a send waits for the connection to become active, in milliseconds.
pub const SEND_WAIT_TIMEOUT_MS: u64 = 2000;

/// How long `close` waits for the controller to reach the closed state, in milliseconds.
pub const CLOSE_TIMEOUT_MS: u64 = 5000;

/// Time between two checks for the closed state while closing, in milliseconds.
pub const CLOSE_POLL_INTERVAL_MS: u64 = 10;

/// The three states of a connection; `Closed` is terminal.
#[derive(Clone, Copy, Debug, PartialEq, Eq, Structural)]
pub enum ConnectionState {
    Active,
    Reconnecting,
    Closed,
}

/// The code of each state in the shared atomic cell.
pub open spec fn state_code(s: ConnectionState) -> u8 {
    match s {
        ConnectionState::Active => 0,
        ConnectionState::Reconnecting => 1,
        ConnectionState::Closed => 2,
    }
}

/// The transitions a connection may take; staying in a state is always allowed.
pub open spec fn valid_transition(from: ConnectionState, to: ConnectionState) -> bool {
    from == to || (from == ConnectionState::Active && to == ConnectionState::Reconnecting) || (
    from == ConnectionState::Reconnecting && to == ConnectionState::Active) || (from
        != ConnectionState::Closed && to == ConnectionState::Closed)
}

impl ConnectionState {
    /// The code stored in the shared atomic cell.
    pub fn to_u8(self) -> (r: u8)
        ensures
            r == state_code(self),
    {
        match self {
            ConnectionState::Active => 0,
            ConnectionState::Reconnecting => 1,
            ConnectionState::Closed => 2,
        }
    }

    /// The state for a code read from the shared atomic cell; `None` for an unknown code.
    pub fn from_u8(code: u8) -> (r: Option<ConnectionState>)
        ensures
            r is None <==> code > 2,
            r matches Some(s) ==> state_code(s) == code,
    {
        if code == 0 {
            Some(ConnectionState::Active)
        } else if code == 1 {
            Some(ConnectionState::Reconnecting)
        } else if code == 2 {
            Some(ConnectionState::Closed)
        } else {
            None
        }
    }
}

/// What a send does first, given the client's status.
#[derive(Clone, Copy, Debug, PartialEq, Eq, Structural)]
pub enum SendGate {
    /// The client is closed: fail without any I/O.
    NotConnected,
    /// The connection is being replaced or a close is pending: wait for it to become active.
    WaitForActive,
    /// Write the payload and the suffix now.
    Ready,
}

/// What a waiting send does after one more poll.
#[derive(Clone, Copy, Debug, PartialEq, Eq, Structural)]
pub enum WaitStep {
    /// The connection became active: write now.
    Ready,
    /// Sleep one poll interval and look again.
    Poll,
    /// The wait budget is spent: fail with a timeout.
    TimedOut,
}

/// What a closing client does after one more look at its status.
#[derive(Clone, Copy, Debug, PartialEq, Eq, Structural)]
pub enum CloseStep {
    /// Not closed yet and time is left: sleep one poll interval and look again.
    Poll,
    /// Closed, or the wait budget is spent, and the controller still runs: abort it.
    AbortController,
    /// Closed, or the wait budget is spent, and the controller has finished.
    Done,
}

/// How the last read from the stream ended.
#[derive(Clone, Copy, Debug, PartialEq, Eq, Structural)]
pub enum ReadOutcome {
    /// The peer closed the stream: the read gave no bytes.
    Eof,
    /// The read failed.
    Failed,
    /// Some bytes arrived.
    Data,
}

/// What the reader does next.
#[derive(Clone, Copy, Debug, PartialEq, Eq, Structural)]
pub enum ReaderStep {
    /// Hand the next complete frame, if any, to the handler.
    Deliver,
    /// Read more bytes; the frames still buffered wait for the next read.
    ReadMore,
    /// The connection is dead: end the reader task.
    Exit,
}

/// What the reader does after a read: deliver frames after data, end the task otherwise.
pub fn reader_after_read(outcome: ReadOutcome) -> (r: ReaderStep)
    ensures
        r == ReaderStep::Deliver <==> outcome == ReadOutcome::Data,
        r == ReaderStep::Exit <==> outcome != ReadOutcome::Data,
{
    match outcome {
        ReadOutcome::Data => ReaderStep::Deliver,
        _ => ReaderStep::Exit,
    }
}

/// What the reader does after handing one frame to the handler: go on with the next frame
/// when the handler succeeded; after a handler error stop this batch and read again, so
/// the error never ends the reader.
pub fn reader_after_handler(handler_ok: bool) -> (r: ReaderStep)
    ensures
        r == ReaderStep::Deliver <==> handler_ok,
        r == ReaderStep::ReadMore <==> !handler_ok,
{
    if handler_ok {
        ReaderStep::Deliver
    } else {
        ReaderStep::ReadMore
    }
}

/// What the heartbeat task does when its period elapses.
#[derive(Clone, Copy, Debug, PartialEq, Eq, Structural)]
pub enum HeartbeatAction {
    /// Write the heartbeat message.
    Send,
    /// The connection is being replaced: sleep again.
    Skip,
    /// The client is closed: end the task.
    Stop,
}

/// Why a send failed before writing anything.
#[derive(Clone, Copy, Debug, PartialEq, Eq, Structural)]
pub enum SendError {
    /// The client is closed.
    NotConnected,
    /// The connection did not become active in time.
    TimedOut,
}

impl SendError {
    /// A short human-readable description.
    pub fn message(&self) -> (r: &'static str)
        ensures
            *self == SendError::NotConnected ==> r@ == "Not connected"@,
            *self == SendError::TimedOut ==> r@ == "Client did not become active within timeout"@,
    {
        match self {
            SendError::NotConnected => "Not connected",
            SendError::TimedOut => "Client did not become active within timeout",
        }
    }
}

/// A snapshot of the shared connection state and the disconnect flag.
#[derive(Clone, Copy, Debug, PartialEq, Eq, Structural)]
pub struct ClientStatus {
    pub state: ConnectionState,
    pub disconnect: bool,
}

impl ClientStatus {
    /// Connected, and no close has been asked for.
    pub open spec fn active(&self) -> bool {
        self.state == ConnectionState::Active && !self.disconnect
    }

    /// Connected, and no close has been asked for.
    pub fn is_active(&self) -> (r: bool)
        ensures
            r == self.active(),
    {
        self.state == ConnectionState::Active && !self.disconnect
    }

    /// The connection is being replaced.
    pub fn is_reconnecting(&self) -> (r: bool)
        ensures
            r == (self.state == ConnectionState::Reconnecting),
    {
        self.state == ConnectionState::Reconnecting
    }

    /// A close has been asked for.
    pub fn is_disconnecting(&self) -> (r: bool)
        ensures
            r == self.disconnect,
    {
        self.disconnect
    }

    /// The client is closed for good.
    pub fn is_closed(&self) -> (r: bool)
        ensures
            r == (self.state == ConnectionState::Closed),
    {
        self.state == ConnectionState::Closed
    }

    /// What a send does first: fail at once when closed, write when active, else wait.
    pub fn send_gate(&self) -> (r: SendGate)
        ensures
            self.state == ConnectionState::Closed <==> r == SendGate::NotConnected,
            r == SendGate::Ready <==> self.active(),
            r == SendGate::WaitForActive <==> (self.state != ConnectionState::Closed
                && !self.active()),
    {
        if self.is_closed() {
            SendGate::NotConnected
        } else if self.is_active() {
            SendGate::Ready
        } else {
            SendGate::WaitForActive
        }
    }

    /// What `close` does once `waited_ms` milliseconds have passed since it set the
    /// disconnect flag: poll until closed or out of time, then abort the controller if it
    /// still runs.
    pub fn close_step(&self, waited_ms: u64, controller_finished: bool) -> (r: CloseStep)
        ensures
            r == CloseStep::Poll <==> (self.state != ConnectionState::Closed && waited_ms
                < CLOSE_TIMEOUT_MS),
            r == CloseStep::AbortController <==> (!controller_finished && (self.state
                == ConnectionState::Closed || waited_ms >= CLOSE_TIMEOUT_MS)),
            r == CloseStep::Done <==> (controller_finished && (self.state
                == ConnectionState::Closed || waited_ms >= CLOSE_TIMEOUT_MS)),
    {
        if !self.is_closed() && waited_ms < CLOSE_TIMEOUT_MS {
            CloseStep::Poll
        } else if controller_finished {
            CloseStep::Done
        } else {
            CloseStep::AbortController
        }
    }

    /// What a waiting send does once `waited_ms` milliseconds have passed.
    pub fn wait_step(&self, waited_ms: u64) -> (r: WaitStep)
        ensures
            r == WaitStep::Ready <==> self.active(),
            r == WaitStep::TimedOut <==> (!self.active() && waited_ms >= SEND_WAIT_TIMEOUT_MS),
            r == WaitStep::Poll <==> (!self.active() && waited_ms < SEND_WAIT_TIMEOUT_MS),
    {
        if self.is_active() {
            WaitStep::Ready
        } else if waited_ms >= SEND_WAIT_TIMEOUT_MS {
            WaitStep::TimedOut
        } else {
            WaitStep::Poll
        }
    }
}

/// What the heartbeat does in `state`: send while active, skip while reconnecting,
/// stop once closed.
pub fn heartbeat_action(state: ConnectionState) -> (r: HeartbeatAction)
    ensures
        r == HeartbeatAction::Send <==> state == ConnectionState::Active,
        r == HeartbeatAction::Skip <==> state == ConnectionState::Reconnecting,
        r == HeartbeatAction::Stop <==> state == ConnectionState::Closed,
{
    match state {
        ConnectionState::Active => HeartbeatAction::Send,
        ConnectionState::Reconnecting => HeartbeatAction::Skip,
        ConnectionState::Closed => HeartbeatAction::Stop,
    }
}

} // verus!
