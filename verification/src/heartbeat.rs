//! The heartbeat of a pool: a keepalive request sent over every connection
//! at a fixed interval, for as long as the node is up.

use crate::node::NodeState;
use vstd::prelude::*;

verus! {

/// What the heartbeat does at one tick of its timer.
#[derive(Clone, Copy, Debug, PartialEq, Eq, Structural)]
pub enum HeartbeatAction {
    /// End the heartbeat.
    Stop,
    /// Do nothing until the next tick.
    Skip,
    /// Send a keepalive request over every connection of the pool, one
    /// after the other.
    Probe,
}

/// What one tick finds: the node's state if the node is still there, and
/// whether the pool is still there.
pub struct Tick {
    pub node: Option<NodeState>,
    pub pool_present: bool,
}

/// What the heartbeat does at a tick. A heartbeat that has stopped stays
/// stopped. A running one stops when the node is gone or forced down, and
/// when the node is up but the pool is gone; it probes a pool whose node
/// is up, and skips the tick while the node is down.
pub open spec fn heartbeat_action(stopped: bool, tick: Tick) -> HeartbeatAction {
    if stopped || tick.node is None || tick.node == Some(NodeState::ForcedDown) {
        HeartbeatAction::Stop
    } else if tick.node == Some(NodeState::Down) {
        HeartbeatAction::Skip
    } else if tick.pool_present {
        HeartbeatAction::Probe
    } else {
        HeartbeatAction::Stop
    }
}

/// Whether a heartbeat that was `stopped` or not is stopped after the
/// ticks given.
pub open spec fn stopped_after(stopped: bool, ticks: Seq<Tick>) -> bool
    decreases ticks.len(),
{
    if ticks.len() == 0 {
        stopped
    } else {
        heartbeat_action(stopped_after(stopped, ticks.drop_last()), ticks.last())
            == HeartbeatAction::Stop
    }
}

/// The heartbeat of one pool.
#[derive(Debug)]
pub struct Heartbeat {
    stopped: bool,
}

impl View for Heartbeat {
    type V = bool;

    /// Whether the heartbeat has stopped.
    closed spec fn view(&self) -> bool {
        self.stopped
    }
}

impl Heartbeat {
    /// A heartbeat that runs.
    pub fn new() -> (heartbeat: Self)
        ensures
            !heartbeat@,
    {
        Heartbeat { stopped: false }
    }

    /// Whether the heartbeat has stopped.
    pub fn is_stopped(&self) -> (stopped: bool)
        ensures
            stopped == self@,
    {
        self.stopped
    }

    /// Decides what the heartbeat does at a tick of its timer. `node` is
    /// the node's state if the node is still there; `pool_present` says
    /// whether the pool is.
    pub fn start_heartbeat(&mut self, node: Option<NodeState>, pool_present: bool) -> (action:
        HeartbeatAction)
        ensures
            action == heartbeat_action(old(self)@, Tick { node, pool_present }),
            final(self)@ == (action == HeartbeatAction::Stop),
    {
        let action = if self.stopped {
            HeartbeatAction::Stop
        } else {
            match node {
                Some(NodeState::Up) => {
                    if pool_present {
                        HeartbeatAction::Probe
                    } else {
                        HeartbeatAction::Stop
                    }
                },
                Some(NodeState::Down) => HeartbeatAction::Skip,
                Some(NodeState::ForcedDown) => HeartbeatAction::Stop,
                None => HeartbeatAction::Stop,
            }
        };
        self.stopped = match action {
            HeartbeatAction::Stop => true,
            _ => false,
        };
        action
    }
}

/// A heartbeat that has stopped never starts again.
pub proof fn lemma_stopped_stays_stopped(ticks: Seq<Tick>)
    ensures
        stopped_after(true, ticks),
    decreases ticks.len(),
{
    if ticks.len() > 0 {
        lemma_stopped_stays_stopped(ticks.drop_last());
    }
}

/// Once a tick has found the node forced down, the heartbeat has stopped
/// for good: at that tick and at every later one the action is to stop,
/// whatever the later ticks find.
pub proof fn lemma_forced_down_ends_heartbeat(stopped: bool, ticks: Seq<Tick>, at: int, later: int)
    requires
        0 <= at <= later < ticks.len(),
        ticks[at].node == Some(NodeState::ForcedDown),
    ensures
        heartbeat_action(stopped_after(stopped, ticks.take(later)), ticks[later])
            == HeartbeatAction::Stop,
        stopped_after(stopped, ticks.take(later + 1)),
    decreases later - at,
{
    assert(ticks.take(later + 1).drop_last() == ticks.take(later));
    assert(ticks.take(later + 1).last() == ticks[later]);
    if at < later {
        lemma_forced_down_ends_heartbeat(stopped, ticks, at, later - 1);
    }
}

} // verus!
