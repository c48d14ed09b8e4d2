use connection_pool::heartbeat::{Heartbeat, HeartbeatAction};
use connection_pool::node::NodeState;

#[test]
fn new_heartbeat_runs() {
    assert!(!Heartbeat::new().is_stopped());
}

#[test]
fn heartbeat_probes_while_node_is_up() {
    let mut heartbeat = Heartbeat::new();
    for _ in 0..3 {
        assert_eq!(heartbeat.start_heartbeat(Some(NodeState::Up), true), HeartbeatAction::Probe);
        assert!(!heartbeat.is_stopped());
    }
}

#[test]
fn heartbeat_skips_while_node_is_down() {
    let mut heartbeat = Heartbeat::new();
    assert_eq!(heartbeat.start_heartbeat(Some(NodeState::Down), true), HeartbeatAction::Skip);
    assert_eq!(heartbeat.start_heartbeat(Some(NodeState::Down), false), HeartbeatAction::Skip);
    assert!(!heartbeat.is_stopped());
    assert_eq!(heartbeat.start_heartbeat(Some(NodeState::Up), true), HeartbeatAction::Probe);
}

#[test]
fn heartbeat_stops_when_node_is_gone() {
    let mut heartbeat = Heartbeat::new();
    assert_eq!(heartbeat.start_heartbeat(None, true), HeartbeatAction::Stop);
    assert!(heartbeat.is_stopped());
}

#[test]
fn heartbeat_stops_when_pool_is_gone_and_node_is_up() {
    let mut heartbeat = Heartbeat::new();
    assert_eq!(heartbeat.start_heartbeat(Some(NodeState::Up), false), HeartbeatAction::Stop);
    assert!(heartbeat.is_stopped());
}

#[test]
fn heartbeat_ceases_for_good_once_node_is_forced_down() {
    let mut heartbeat = Heartbeat::new();
    assert_eq!(heartbeat.start_heartbeat(Some(NodeState::Up), true), HeartbeatAction::Probe);
    assert_eq!(heartbeat.start_heartbeat(Some(NodeState::ForcedDown), true), HeartbeatAction::Stop);
    assert!(heartbeat.is_stopped());
    for node in [Some(NodeState::Up), Some(NodeState::Down), Some(NodeState::ForcedDown), None] {
        for pool_present in [true, false] {
            assert_eq!(heartbeat.start_heartbeat(node, pool_present), HeartbeatAction::Stop);
            assert!(heartbeat.is_stopped());
        }
    }
}
