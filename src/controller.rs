//! The supervising controller: from what it observes to what it does next.
use vstd::prelude::*;
use crate::state::{valid_transition, ConnectionState};

verus! {

/// Time between two checks of the session, in milliseconds.
pub const CHECK_INTERVAL_MS: u64 = 10;

/// Pause after a failed reconnect before the next check, in milliseconds.
pub const RETRY_INTERVAL_MS: u64 = 1000;

/// Deadline of one shutdown of the session, in milliseconds.
pub const SHUTDOWN_TIMEOUT_MS: u64 = 5000;

/// Grace given to the reader to see the end of the stream during a shutdown, in milliseconds.
pub const SHUTDOWN_GRACE_MS: u64 = 100;

/// What the controller learns.
#[derive(Clone, Copy, Debug, PartialEq, Eq, Structural)]
pub enum ControllerEvent {
    /// A periodic check: whether a close was asked for, and whether the reader still runs.
    Tick { disconnect: bool, alive: bool },
    /// The last reconnect attempt installed a fresh connection.
    ReconnectSucceeded,
    /// The last reconnect attempt failed or timed out.
    ReconnectFailed,
}

/// What the controller does next.
#[derive(Clone, Copy, Debug, PartialEq, Eq, Structural)]
pub enum ControllerAction {
    /// Nothing to do until the next check.
    Idle,
    /// Mark the state reconnecting and replace the dead connection.
    Reconnect,
    /// A close was asked for while the reader was already dead: shut the session down to
    /// clean up its tasks, then stop.
    Cleanup,
    /// Shut the session down, call the post-disconnection callback, then stop.
    ShutdownAndExit,
    /// Call the post-reconnection callback.
    NotifyReconnected,
    /// Sleep the retry interval, then keep checking.
    RetryLater,
    /// The retry budget is spent: stop.
    GiveUp,
    /// The controller has already stopped.
    Stopped,
}

/// The controller's state: the published connection state and the retry budget.
#[derive(Clone, Copy, Debug, PartialEq, Eq, Structural)]
pub struct Controller {
    pub state: ConnectionState,
    /// Failed reconnect attempts since the last success.
    pub retries: u64,
    /// Failed attempts in a row after which the controller gives up; `None` retries forever.
    pub max_tries: Option<u64>,
}

/// The controller after `e` arrives in `c`, and the action it takes.
pub open spec fn next(c: Controller, e: ControllerEvent) -> (Controller, ControllerAction) {
    if c.state == ConnectionState::Closed {
        (c, ControllerAction::Stopped)
    } else {
        match e {
            ControllerEvent::Tick { disconnect, alive } => if !disconnect && alive {
                (c, ControllerAction::Idle)
            } else if !disconnect {
                (Controller { state: ConnectionState::Reconnecting, ..c }, ControllerAction::Reconnect)
            } else if alive {
                (Controller { state: ConnectionState::Closed, ..c }, ControllerAction::ShutdownAndExit)
            } else {
                (Controller { state: ConnectionState::Closed, ..c }, ControllerAction::Cleanup)
            },
            ControllerEvent::ReconnectSucceeded => (
                Controller { state: ConnectionState::Active, retries: 0, ..c },
                ControllerAction::NotifyReconnected,
            ),
            ControllerEvent::ReconnectFailed => {
                let n: u64 = if c.retries == u64::MAX { c.retries } else { (c.retries + 1) as u64 };
                match c.max_tries {
                    Some(m) => if n >= m {
                        (Controller { state: ConnectionState::Closed, retries: n, ..c }, ControllerAction::GiveUp)
                    } else {
                        (Controller { retries: n, ..c }, ControllerAction::RetryLater)
                    },
                    None => (Controller { retries: n, ..c }, ControllerAction::RetryLater),
                }
            },
        }
    }
}

/// The controller after a sequence of events, taken in order.
pub open spec fn run(c: Controller, events: Seq<ControllerEvent>) -> Controller
    decreases events.len(),
{
    if events.len() == 0 {
        c
    } else {
        run(next(c, events[0]).0, events.drop_first())
    }
}

/// The actions the controller takes over a sequence of events, in order.
pub open spec fn trace(c: Controller, events: Seq<ControllerEvent>) -> Seq<ControllerAction>
    decreases events.len(),
{
    if events.len() == 0 {
        Seq::empty()
    } else {
        seq![next(c, events[0]).1] + trace(next(c, events[0]).0, events.drop_first())
    }
}

/// The longest time the runtime spends on `a`, in milliseconds, including the check
/// interval slept before the tick that chose it; a reconnect attempt runs under a deadline
/// of `timeout_secs` seconds.
pub open spec fn action_budget_ms(a: ControllerAction, timeout_secs: nat) -> nat {
    match a {
        ControllerAction::Idle => CHECK_INTERVAL_MS as nat,
        ControllerAction::Reconnect => (CHECK_INTERVAL_MS + timeout_secs * 1000) as nat,
        ControllerAction::Cleanup => (CHECK_INTERVAL_MS + SHUTDOWN_TIMEOUT_MS) as nat,
        ControllerAction::ShutdownAndExit => (CHECK_INTERVAL_MS + SHUTDOWN_TIMEOUT_MS) as nat,
        ControllerAction::RetryLater => RETRY_INTERVAL_MS as nat,
        ControllerAction::NotifyReconnected => 0,
        ControllerAction::GiveUp => 0,
        ControllerAction::Stopped => 0,
    }
}

/// The longest time the runtime spends on a sequence of actions, in milliseconds.
pub open spec fn budget_ms(actions: Seq<ControllerAction>, timeout_secs: nat) -> nat
    decreases actions.len(),
{
    if actions.len() == 0 {
        0
    } else {
        action_budget_ms(actions[0], timeout_secs) + budget_ms(actions.drop_first(), timeout_secs)
    }
}

/// `k` rounds of a dead reader seen by a check, then a failed reconnect attempt.
pub open spec fn failed_rounds(k: nat) -> Seq<ControllerEvent>
    decreases k,
{
    if k == 0 {
        Seq::empty()
    } else {
        seq![ControllerEvent::Tick { disconnect: false, alive: false }, ControllerEvent::ReconnectFailed]
            + failed_rounds((k - 1) as nat)
    }
}

/// The time of one failed round: a check, an attempt under its deadline, and the retry pause.
pub open spec fn round_budget_ms(timeout_secs: nat) -> nat {
    (CHECK_INTERVAL_MS + timeout_secs * 1000 + RETRY_INTERVAL_MS) as nat
}

impl Controller {
    /// A controller for a freshly opened session.
    pub fn new(max_tries: Option<u64>) -> (r: Self)
        ensures
            r.state == ConnectionState::Active,
            r.retries == 0,
            r.max_tries == max_tries,
    {
        Controller { state: ConnectionState::Active, retries: 0, max_tries }
    }

    /// Takes in one event. The caller publishes the new state and performs the returned
    /// action; a new `Closed` state is published once that action is done.
    pub fn step(&mut self, e: ControllerEvent) -> (r: ControllerAction)
        ensures
            (*final(self), r) == next(*old(self), e),
            valid_transition(old(self).state, final(self).state),
    {
        if self.state == ConnectionState::Closed {
            return ControllerAction::Stopped;
        }
        match e {
            ControllerEvent::Tick { disconnect, alive } => {
                if !disconnect && alive {
                    ControllerAction::Idle
                } else if !disconnect {
                    self.state = ConnectionState::Reconnecting;
                    ControllerAction::Reconnect
                } else if alive {
                    self.state = ConnectionState::Closed;
                    ControllerAction::ShutdownAndExit
                } else {
                    self.state = ConnectionState::Closed;
                    ControllerAction::Cleanup
                }
            },
            ControllerEvent::ReconnectSucceeded => {
                self.state = ConnectionState::Active;
                self.retries = 0;
                ControllerAction::NotifyReconnected
            },
            ControllerEvent::ReconnectFailed => {
                self.retries = self.retries.saturating_add(1);
                match self.max_tries {
                    Some(m) => {
                        if self.retries >= m {
                            self.state = ConnectionState::Closed;
                            ControllerAction::GiveUp
                        } else {
                            ControllerAction::RetryLater
                        }
                    },
                    None => ControllerAction::RetryLater,
                }
            },
        }
    }
}

/// State monotonicity: once closed, the controller stays closed whatever happens next.
pub proof fn lemma_closed_is_terminal(c: Controller, events: Seq<ControllerEvent>)
    requires
        c.state == ConnectionState::Closed,
    ensures
        run(c, events) == c,
    decreases events.len(),
{
    if events.len() > 0 {
        lemma_closed_is_terminal(next(c, events[0]).0, events.drop_first());
    }
}

/// Unfolds `run` and `trace` over the first round of `failed_rounds(k)`.
proof fn lemma_round_step(c: Controller, k: nat)
    requires
        k > 0,
    ensures
        ({
            let c1 = next(c, ControllerEvent::Tick { disconnect: false, alive: false });
            let c2 = next(c1.0, ControllerEvent::ReconnectFailed);
            run(c, failed_rounds(k)) == run(c2.0, failed_rounds((k - 1) as nat)) && trace(
                c,
                failed_rounds(k),
            ) == seq![c1.1, c2.1] + trace(c2.0, failed_rounds((k - 1) as nat))
        }),
{
    let e = failed_rounds(k);
    let rest = failed_rounds((k - 1) as nat);
    assert(e[0] == ControllerEvent::Tick { disconnect: false, alive: false });
    assert(e.drop_first() =~= seq![ControllerEvent::ReconnectFailed] + rest);
    assert(e.drop_first()[0] == ControllerEvent::ReconnectFailed);
    assert(e.drop_first().drop_first() =~= rest);
    let c1 = next(c, e[0]);
    let c2 = next(c1.0, ControllerEvent::ReconnectFailed);
    let t = trace(c2.0, rest);
    assert(run(c1.0, e.drop_first()) == run(c2.0, rest));
    assert(run(c, e) == run(c2.0, rest));
    assert(trace(c1.0, e.drop_first()) == seq![c2.1] + t);
    assert(trace(c, e) == seq![c1.1] + (seq![c2.1] + t));
    assert(seq![c1.1] + (seq![c2.1] + t) =~= seq![c1.1, c2.1] + t);
}

/// Each failed round counts one more failure; the round that reaches the cap closes the
/// controller and skips the retry pause.
proof fn lemma_failed_rounds(c: Controller, m: u64, k: nat, timeout_secs: nat)
    requires
        c.state != ConnectionState::Closed,
        c.max_tries == Some(m),
        c.retries < m,
        0 < k <= m - c.retries,
    ensures
        run(c, failed_rounds(k)).retries == c.retries + k,
        run(c, failed_rounds(k)).state == (if c.retries + k == m {
            ConnectionState::Closed
        } else {
            ConnectionState::Reconnecting
        }),
        budget_ms(trace(c, failed_rounds(k)), timeout_secs) + (if c.retries + k == m {
            RETRY_INTERVAL_MS as nat
        } else {
            0
        }) == k * round_budget_ms(timeout_secs),
    decreases k,
{
    lemma_round_step(c, k);
    let c1 = next(c, ControllerEvent::Tick { disconnect: false, alive: false });
    let c2 = next(c1.0, ControllerEvent::ReconnectFailed);
    let rest = trace(c2.0, failed_rounds((k - 1) as nat));
    let t = seq![c1.1, c2.1] + rest;
    assert(t[0] == ControllerAction::Reconnect);
    assert(t.drop_first()[0] == c2.1);
    assert(t.drop_first().drop_first() =~= rest);
    let p = round_budget_ms(timeout_secs);
    assert(budget_ms(t.drop_first(), timeout_secs) == action_budget_ms(c2.1, timeout_secs)
        + budget_ms(rest, timeout_secs));
    assert(budget_ms(t, timeout_secs) == action_budget_ms(ControllerAction::Reconnect, timeout_secs)
        + action_budget_ms(c2.1, timeout_secs) + budget_ms(rest, timeout_secs));
    if k == 1 {
        assert(failed_rounds(0) =~= Seq::<ControllerEvent>::empty());
        assert(rest =~= Seq::<ControllerAction>::empty());
        assert(1 * p == p);
    } else {
        lemma_failed_rounds(c2.0, m, (k - 1) as nat, timeout_secs);
        assert((k - 1) * p + p == k * p) by (nonlinear_arith);
    }
}

/// Bounded retries: with a cap of `n`, a controller with a fresh budget whose reader is
/// dead and whose every reconnect attempt fails is closed after `n` rounds of a check and a
/// failed attempt, and not before; the runtime spends at most `n` rounds of check interval,
/// attempt deadline and retry pause on them.
pub proof fn lemma_bounded_retries(c: Controller, n: u64, timeout_secs: nat)
    requires
        c.state != ConnectionState::Closed,
        c.retries == 0,
        c.max_tries == Some(n),
        n > 0,
    ensures
        run(c, failed_rounds(n as nat)).state == ConnectionState::Closed,
        forall|k: nat| k < n ==> (#[trigger] run(c, failed_rounds(k))).state != ConnectionState::Closed,
        budget_ms(trace(c, failed_rounds(n as nat)), timeout_secs) <= n * round_budget_ms(timeout_secs),
{
    lemma_failed_rounds(c, n, n as nat, timeout_secs);
    assert forall|k: nat| k < n implies (#[trigger] run(c, failed_rounds(k))).state
        != ConnectionState::Closed by {
        if k == 0 {
            assert(failed_rounds(0) =~= Seq::<ControllerEvent>::empty());
        } else {
            lemma_failed_rounds(c, n, k, timeout_secs);
        }
    }
}

/// Termination of a close: whatever the reader's state, the first check after the
/// disconnect flag is set closes the controller, after at most one check interval and one
/// shutdown deadline.
pub proof fn lemma_disconnect_closes(c: Controller, alive: bool, timeout_secs: nat)
    ensures
        next(c, ControllerEvent::Tick { disconnect: true, alive }).0.state == ConnectionState::Closed,
        action_budget_ms(next(c, ControllerEvent::Tick { disconnect: true, alive }).1, timeout_secs)
            <= CHECK_INTERVAL_MS + SHUTDOWN_TIMEOUT_MS,
{
}

/// A dead reader is acted on at the next check: within one check interval the controller
/// is reconnecting and starts an attempt.
pub proof fn lemma_dead_reader_reconnects(c: Controller)
    requires
        c.state != ConnectionState::Closed,
    ensures
        next(c, ControllerEvent::Tick { disconnect: false, alive: false }) == (
            Controller { state: ConnectionState::Reconnecting, ..c },
            ControllerAction::Reconnect,
        ),
{
}

} // verus!
