//! The repair of a pool: when it starts, how its loop proceeds, and what
//! becomes of the node when it ends.
//!
//! A pool has one flag of type [`ReconnectionState`], shared by the failure
//! monitor and the repair loop it starts. The functions here are the
//! decisions of both; the tasks themselves wait for signals, sleep and dial.

use crate::error::Error;
use crate::node::{NodeAction, NodeState};
use std::time::Duration;
use vstd::prelude::*;

verus! {

/// Whether a repair of the pool is under way.
#[derive(Clone, Copy, Debug, PartialEq, Eq, Structural)]
pub enum ReconnectionState {
    /// No repair is active; a failure signal starts one.
    NotRunning,
    /// A repair is active; further failure signals are absorbed.
    InProgress,
    /// The pool was given up. Nothing leaves this state.
    Disabled,
}

/// What the failure monitor does after a signal.
#[derive(Clone, Copy, Debug, PartialEq, Eq, Structural)]
pub enum MonitorNext {
    /// End the monitor.
    Stop,
    /// Wait for the next signal.
    Wait,
    /// Start a repair loop, then wait for the next signal.
    StartRepair,
}

/// The monitor's answer to one failure signal.
#[derive(Clone, Copy, Debug, PartialEq, Eq, Structural)]
pub struct MonitorDecision {
    /// What to ask of the node first: to be marked down, or nothing.
    pub node_action: Option<NodeAction>,
    /// How the monitor goes on.
    pub next: MonitorNext,
    /// The value of the flag from now on.
    pub flag: ReconnectionState,
}

/// Whether the monitor looks at the pool at all: node and pool are both
/// still there, and the node was not given up.
pub open spec fn monitor_attends(node: Option<NodeState>, all_down: Option<bool>) -> bool {
    &&& node is Some
    &&& node != Some(NodeState::ForcedDown)
    &&& all_down is Some
}

/// The monitor's answer to a failure signal. `node` is the node's state if
/// the node is still there; `all_down` says, if the pool is still there,
/// whether every connection in it is broken; `flag` is the flag's value.
pub open spec fn monitor_decision(
    node: Option<NodeState>,
    all_down: Option<bool>,
    flag: ReconnectionState,
) -> MonitorDecision {
    let attends = monitor_attends(node, all_down);
    MonitorDecision {
        node_action: if attends && all_down == Some(true) {
            Some(NodeAction::MarkDown)
        } else {
            None
        },
        next: if !attends || flag == ReconnectionState::Disabled {
            MonitorNext::Stop
        } else if flag == ReconnectionState::NotRunning {
            MonitorNext::StartRepair
        } else {
            MonitorNext::Wait
        },
        flag: if attends && flag == ReconnectionState::NotRunning {
            ReconnectionState::InProgress
        } else {
            flag
        },
    }
}

/// Decides what the failure monitor does with one failure signal.
///
/// The monitor ends when the node is gone or forced down, when the pool is
/// gone, or when the flag reads `Disabled`. A pool whose connections are
/// all broken has its node marked down, whatever the flag reads. A repair
/// starts only from `NotRunning`, and the flag is `InProgress` from then on.
pub fn monitor_connections(
    node: Option<NodeState>,
    all_down: Option<bool>,
    flag: ReconnectionState,
) -> (decision: MonitorDecision)
    ensures
        decision == monitor_decision(node, all_down, flag),
{
    let state = match node {
        Some(state) => state,
        None => {
            return MonitorDecision { node_action: None, next: MonitorNext::Stop, flag };
        },
    };
    if state == NodeState::ForcedDown {
        return MonitorDecision { node_action: None, next: MonitorNext::Stop, flag };
    }
    let node_action = match all_down {
        Some(true) => Some(NodeAction::MarkDown),
        Some(false) => None,
        None => {
            return MonitorDecision { node_action: None, next: MonitorNext::Stop, flag };
        },
    };
    if flag != ReconnectionState::NotRunning {
        if flag == ReconnectionState::Disabled {
            return MonitorDecision { node_action, next: MonitorNext::Stop, flag };
        }
        return MonitorDecision { node_action, next: MonitorNext::Wait, flag };
    }
    MonitorDecision {
        node_action,
        next: MonitorNext::StartRepair,
        flag: ReconnectionState::InProgress,
    }
}

/// A repair starts exactly when the monitor attends to the pool and the
/// flag reads `NotRunning`; exactly then the flag changes, to `InProgress`.
pub proof fn lemma_repair_starts_once(
    node: Option<NodeState>,
    all_down: Option<bool>,
    flag: ReconnectionState,
)
    ensures
        monitor_decision(node, all_down, flag).next == MonitorNext::StartRepair <==> (
        monitor_attends(node, all_down) && flag == ReconnectionState::NotRunning),
        monitor_decision(node, all_down, flag).next == MonitorNext::StartRepair <==> (
        monitor_decision(node, all_down, flag).flag != flag),
        monitor_decision(node, all_down, flag).flag != flag ==> monitor_decision(
            node,
            all_down,
            flag,
        ).flag == ReconnectionState::InProgress,
{
}

/// While a repair is in progress, the next signal starts no second one:
/// whatever the monitor sees, the decision it takes on the flag it has
/// just set is not to start a repair.
pub proof fn lemma_signals_coalesce(
    node: Option<NodeState>,
    all_down: Option<bool>,
    later_node: Option<NodeState>,
    later_all_down: Option<bool>,
)
    requires
        monitor_decision(node, all_down, ReconnectionState::NotRunning).next
            == MonitorNext::StartRepair,
    ensures
        monitor_decision(
            later_node,
            later_all_down,
            monitor_decision(node, all_down, ReconnectionState::NotRunning).flag,
        ).next != MonitorNext::StartRepair,
{
}

/// `Disabled` is final: the monitor never changes it, and stops on it.
pub proof fn lemma_disabled_is_final(node: Option<NodeState>, all_down: Option<bool>)
    ensures
        monitor_decision(node, all_down, ReconnectionState::Disabled).flag
            == ReconnectionState::Disabled,
        monitor_decision(node, all_down, ReconnectionState::Disabled).next == MonitorNext::Stop,
{
}

/// What the repair loop has just seen.
pub enum RepairEvent {
    /// The backoff schedule was asked for the next delay.
    Delay(Option<Duration>),
    /// The delay is over; the field says whether the pool is still there.
    Woke(bool),
    /// A repair of the pool ended: `Ok(true)` when every slot was filled,
    /// `Ok(false)` when the connection manager was gone, or the dial error.
    Attempted(Result<bool, Error>),
}

/// What the repair loop does next.
#[derive(Clone, Copy, Debug)]
pub enum RepairLoopStep {
    /// Sleep for the given time.
    Sleep(Duration),
    /// Run one repair of the pool.
    Attempt,
    /// Ask the backoff schedule for the next delay.
    AskSchedule,
    /// End the loop with the given state.
    Finish(ReconnectionState),
}

/// The step of the repair loop after `event`.
pub open spec fn reconnection_step(event: RepairEvent) -> RepairLoopStep {
    match event {
        RepairEvent::Delay(Some(delay)) => RepairLoopStep::Sleep(delay),
        RepairEvent::Delay(None) => RepairLoopStep::Finish(ReconnectionState::Disabled),
        RepairEvent::Woke(pool_present) => if pool_present {
            RepairLoopStep::Attempt
        } else {
            RepairLoopStep::Finish(ReconnectionState::Disabled)
        },
        RepairEvent::Attempted(outcome) => if outcome == Ok::<bool, Error>(true) {
            RepairLoopStep::Finish(ReconnectionState::NotRunning)
        } else if outcome is Err && outcome->Err_0 is ProtocolIncompatible {
            RepairLoopStep::Finish(ReconnectionState::Disabled)
        } else {
            RepairLoopStep::AskSchedule
        },
    }
}

/// Decides how the repair loop goes on after `event`.
///
/// The loop starts by asking the schedule. A schedule that has no further
/// delay ends the loop with `Disabled`, and so do a pool that is gone after
/// the sleep and a dial refused as protocol-incompatible. A repair that
/// filled every slot ends it with `NotRunning`. After anything else the
/// schedule is asked again.
pub fn run_reconnection_loop(event: RepairEvent) -> (step: RepairLoopStep)
    ensures
        step == reconnection_step(event),
{
    match event {
        RepairEvent::Delay(delay) => match delay {
            Some(delay) => RepairLoopStep::Sleep(delay),
            None => RepairLoopStep::Finish(ReconnectionState::Disabled),
        },
        RepairEvent::Woke(pool_present) => {
            if pool_present {
                RepairLoopStep::Attempt
            } else {
                RepairLoopStep::Finish(ReconnectionState::Disabled)
            }
        },
        RepairEvent::Attempted(outcome) => match outcome {
            Ok(all_reconnected) => {
                if all_reconnected {
                    RepairLoopStep::Finish(ReconnectionState::NotRunning)
                } else {
                    RepairLoopStep::AskSchedule
                }
            },
            Err(error) => {
                if error.is_fatal() {
                    RepairLoopStep::Finish(ReconnectionState::Disabled)
                } else {
                    RepairLoopStep::AskSchedule
                }
            },
        },
    }
}

/// The repair loop never ends with `InProgress`.
pub proof fn lemma_loop_ends_settled(event: RepairEvent)
    ensures
        reconnection_step(event) matches RepairLoopStep::Finish(state) ==> state
            != ReconnectionState::InProgress,
{
}

/// What becomes of the node when the repair loop has ended with `state`.
/// `node_present` says whether the node is still there; `any_up` says, if
/// the pool is still there, whether one of its connections works.
pub open spec fn node_after_repair(
    state: ReconnectionState,
    node_present: bool,
    any_up: Option<bool>,
) -> Option<NodeAction> {
    if !node_present {
        None
    } else if state == ReconnectionState::NotRunning {
        Some(NodeAction::MarkUp)
    } else if state == ReconnectionState::Disabled {
        Some(NodeAction::ForceDown)
    } else if any_up == Some(true) {
        Some(NodeAction::MarkUp)
    } else {
        Some(NodeAction::ForceDown)
    }
}

/// Decides what to ask of the node once the repair loop has ended with
/// `state` and the flag holds it.
///
/// `Disabled` forces the node down and `NotRunning` marks it up. Any other
/// state goes by the pool: the node is marked up if a connection works, and
/// forced down if none does or the pool is gone. A node that is gone is
/// asked nothing.
pub fn settle_node(state: ReconnectionState, node_present: bool, any_up: Option<bool>) -> (action:
    Option<NodeAction>)
    ensures
        action == node_after_repair(state, node_present, any_up),
{
    if !node_present {
        return None;
    }
    match state {
        ReconnectionState::Disabled => Some(NodeAction::ForceDown),
        ReconnectionState::NotRunning => Some(NodeAction::MarkUp),
        ReconnectionState::InProgress => match any_up {
            Some(true) => Some(NodeAction::MarkUp),
            _ => Some(NodeAction::ForceDown),
        },
    }
}

/// However the repair loop ends, a node that is still there is asked for
/// one transition: to be marked up after `NotRunning`, and to be forced
/// down after `Disabled`, whatever the pool looks like. A schedule that has
/// no delay to give ends the loop, and it ends it with `Disabled`.
pub proof fn lemma_loop_end_settles_node(event: RepairEvent, any_up: Option<bool>)
    ensures
        reconnection_step(event) matches RepairLoopStep::Finish(state) ==> node_after_repair(
            state,
            true,
            any_up,
        ) == Some(
            if state == ReconnectionState::NotRunning {
                NodeAction::MarkUp
            } else {
                NodeAction::ForceDown
            },
        ),
        event matches RepairEvent::Delay(None) ==> reconnection_step(event)
            == RepairLoopStep::Finish(ReconnectionState::Disabled),
{
}

} // verus!
