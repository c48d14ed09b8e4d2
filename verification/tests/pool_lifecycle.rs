use connection_pool::config::{ConnectionPoolConfig, ConnectionPoolConfigBuilder, NodeDistance};
use connection_pool::error::Error;
use connection_pool::pool::{plan_repair, ConnectionPool, RepairStep, RepairTarget, Transport};
use std::sync::atomic::{AtomicBool, Ordering};
use std::sync::Arc;

const ADDRESS: &str = "127.0.0.1:9042";

#[derive(Debug)]
struct Link {
    id: u32,
    broken: Arc<AtomicBool>,
}

impl Link {
    fn healthy(id: u32) -> Link {
        Link { id, broken: Arc::new(AtomicBool::new(false)) }
    }

    fn broken(id: u32) -> Link {
        Link { id, broken: Arc::new(AtomicBool::new(true)) }
    }

    fn switch(&self) -> Arc<AtomicBool> {
        self.broken.clone()
    }
}

impl Transport for Link {
    fn is_broken(&self) -> bool {
        self.broken.load(Ordering::Relaxed)
    }
}

fn local(size: usize) -> ConnectionPoolConfig {
    ConnectionPoolConfigBuilder::new().with_local_size(size).build()
}

fn transient() -> Error {
    Error::Transient("connection refused".to_string())
}

fn fatal(address: &str) -> Error {
    Error::ProtocolIncompatible(address.to_string())
}

fn pool_of(links: Vec<Link>) -> ConnectionPool<Link> {
    let size = links.len();
    let dials = links.into_iter().map(Ok).collect();
    ConnectionPool::new(ADDRESS.to_string(), NodeDistance::Local, local(size), dials).unwrap()
}

fn ids(pool: &ConnectionPool<Link>) -> Vec<u32> {
    pool.connections().iter().map(|c| c.id).collect()
}

#[test]
fn full_construction_keeps_every_connection_in_dial_order() {
    let pool = pool_of(vec![Link::healthy(1), Link::healthy(2), Link::healthy(3)]);
    assert_eq!(pool.len(), 3);
    assert_eq!(pool.desired_size(), 3);
    assert_eq!(ids(&pool), vec![1, 2, 3]);
    assert_eq!(pool.address(), ADDRESS);
    assert_eq!(pool.config().local_size(), 3);
    assert!(!pool.needs_repair());
}

#[test]
fn construction_with_one_transient_failure_makes_a_short_pool_and_one_signal() {
    let dials = vec![Ok(Link::healthy(1)), Err(transient()), Ok(Link::healthy(2))];
    let made = ConnectionPool::new(ADDRESS.to_string(), NodeDistance::Local, local(3), dials);
    let pool = made.expect("a transient failure is not fatal");
    assert_eq!(pool.len(), 2);
    assert_eq!(pool.desired_size(), 3);
    assert_eq!(ids(&pool), vec![1, 2]);
    let signals = if pool.needs_repair() { 1 } else { 0 };
    assert_eq!(signals, 1);
}

#[test]
fn construction_with_a_timeout_leaves_the_connection_out() {
    let dials = vec![
        Err(Error::Timeout("Timeout waiting for connection to: 127.0.0.1:9042".to_string())),
        Ok(Link::healthy(5)),
    ];
    let pool = ConnectionPool::new(ADDRESS.to_string(), NodeDistance::Local, local(2), dials).unwrap();
    assert_eq!(ids(&pool), vec![5]);
    assert!(pool.needs_repair());
}

#[test]
fn construction_with_a_protocol_error_fails_entirely() {
    let dials = vec![Ok(Link::healthy(1)), Err(fatal(ADDRESS)), Ok(Link::healthy(2))];
    let made = ConnectionPool::new(ADDRESS.to_string(), NodeDistance::Local, local(3), dials);
    assert_eq!(made.err(), Some(fatal(ADDRESS)));
}

#[test]
fn construction_reports_the_first_protocol_error() {
    let dials: Vec<Result<Link, Error>> =
        vec![Err(transient()), Err(fatal("first")), Ok(Link::healthy(1)), Err(fatal("second"))];
    let made = ConnectionPool::new(ADDRESS.to_string(), NodeDistance::Local, local(4), dials);
    assert_eq!(made.err(), Some(fatal("first")));
}

#[test]
fn construction_with_only_failures_makes_an_empty_pool() {
    let dials: Vec<Result<Link, Error>> = vec![Err(transient()), Err(transient())];
    let pool = ConnectionPool::new(ADDRESS.to_string(), NodeDistance::Local, local(2), dials).unwrap();
    assert_eq!(pool.len(), 0);
    assert!(pool.needs_repair());
    assert!(!pool.is_any_connection_up());
    assert!(pool.are_all_connections_down());
}

#[test]
fn construction_goes_by_the_distance() {
    let config = ConnectionPoolConfigBuilder::new().with_local_size(1).with_remote_size(2).build();
    let dials = vec![Ok(Link::healthy(1)), Ok(Link::healthy(2))];
    let pool = ConnectionPool::new(ADDRESS.to_string(), NodeDistance::Remote, config, dials).unwrap();
    assert_eq!(pool.desired_size(), 2);
    assert!(!pool.needs_repair());
}

#[test]
fn zero_sized_pool_is_empty_and_complete() {
    let dials: Vec<Result<Link, Error>> = vec![];
    let pool = ConnectionPool::new(ADDRESS.to_string(), NodeDistance::Local, local(0), dials).unwrap();
    assert_eq!(pool.len(), 0);
    assert!(!pool.needs_repair());
    assert_eq!(pool.connection().err(), Some(Error::no_active_connections(ADDRESS)));
    assert_eq!(pool.reconnect_broken(true), RepairStep::Finished(Ok(true)));
}

#[test]
fn consecutive_selections_return_distinct_connections() {
    for n in 1..6u32 {
        let pool = pool_of((0..n).map(Link::healthy).collect());
        for _round in 0..3 {
            let mut seen: Vec<u32> = Vec::new();
            for _ in 0..n {
                let connection = pool.connection().unwrap();
                assert!(!seen.contains(&connection.id));
                seen.push(connection.id);
            }
            assert_eq!(seen.len(), n as usize);
        }
    }
}

#[test]
fn selection_starts_at_the_first_slot_and_goes_round() {
    let pool = pool_of(vec![Link::healthy(10), Link::healthy(20), Link::healthy(30)]);
    let picked: Vec<u32> = (0..7).map(|_| pool.connection().unwrap().id).collect();
    assert_eq!(picked, vec![10, 20, 30, 10, 20, 30, 10]);
}

#[test]
fn selection_hands_out_the_pooled_connection_itself() {
    let pool = pool_of(vec![Link::healthy(1)]);
    let connection = pool.connection().unwrap();
    assert!(Arc::ptr_eq(&connection, &pool.connections()[0]));
}

#[test]
fn selection_skips_broken_connections() {
    let pool = pool_of(vec![Link::broken(1), Link::healthy(2), Link::broken(3)]);
    for _ in 0..5 {
        assert_eq!(pool.connection().unwrap().id, 2);
    }
}

#[test]
fn selection_fails_exactly_when_every_connection_is_broken() {
    let a = Link::healthy(1);
    let b = Link::healthy(2);
    let (switch_a, switch_b) = (a.switch(), b.switch());
    let pool = pool_of(vec![a, b]);
    assert!(pool.connection().is_ok());
    switch_a.store(true, Ordering::Relaxed);
    assert_eq!(pool.connection().unwrap().id, 2);
    assert_eq!(pool.connection().unwrap().id, 2);
    switch_b.store(true, Ordering::Relaxed);
    assert_eq!(
        pool.connection().err(),
        Some(Error::PoolExhausted("No active connections to: 127.0.0.1:9042".to_string()))
    );
    switch_a.store(false, Ordering::Relaxed);
    assert_eq!(pool.connection().unwrap().id, 1);
}

#[test]
fn selection_for_a_given_report_and_ticket() {
    let pool = pool_of(vec![Link::healthy(1), Link::healthy(2), Link::healthy(3)]);
    assert_eq!(pool.connection_for(&vec![false, false, false], 4).unwrap().id, 2);
    assert_eq!(pool.connection_for(&vec![false, true, true], 1).unwrap().id, 1);
    assert_eq!(pool.connection_for(&vec![true, true, false], 0).unwrap().id, 3);
    assert_eq!(
        pool.connection_for(&vec![true, true, true], 0).err(),
        Some(Error::no_active_connections(ADDRESS))
    );
}

#[test]
fn health_report_lists_each_slot() {
    let pool = pool_of(vec![Link::healthy(1), Link::broken(2), Link::healthy(3)]);
    assert_eq!(pool.health_report(), vec![false, true, false]);
}

#[test]
fn liveness_queries() {
    let pool = pool_of(vec![Link::broken(1), Link::healthy(2)]);
    assert!(pool.is_any_connection_up());
    assert!(!pool.are_all_connections_down());
    let pool = pool_of(vec![Link::broken(1), Link::broken(2)]);
    assert!(!pool.is_any_connection_up());
    assert!(pool.are_all_connections_down());
}

#[test]
fn broadcast_reaches_exactly_the_healthy_connections() {
    let pool = pool_of(vec![Link::healthy(1), Link::broken(2), Link::healthy(3)]);
    let targets: Vec<u32> = pool.healthy_connections().iter().map(|c| c.id).collect();
    assert_eq!(targets, vec![1, 3]);
}

#[test]
fn connections_at_picks_the_listed_slots() {
    let pool = pool_of(vec![Link::healthy(1), Link::healthy(2), Link::healthy(3)]);
    let picked: Vec<u32> = pool.connections_at(&vec![2, 0]).iter().map(|c| c.id).collect();
    assert_eq!(picked, vec![3, 1]);
    assert!(pool.connections_at(&vec![]).is_empty());
}

#[test]
fn plan_repair_prefers_broken_slots_then_fills_up() {
    assert_eq!(plan_repair(&vec![false, true, true], 0, 3), Some(RepairTarget::Slot(1)));
    assert_eq!(plan_repair(&vec![false, true, true], 2, 3), Some(RepairTarget::Slot(2)));
    assert_eq!(plan_repair(&vec![true, false, false], 1, 3), None);
    assert_eq!(plan_repair(&vec![true, false], 1, 3), Some(RepairTarget::Append));
    assert_eq!(plan_repair(&vec![false, false], 0, 2), None);
    assert_eq!(plan_repair(&vec![], 0, 1), Some(RepairTarget::Append));
    assert_eq!(plan_repair(&vec![], 0, 0), None);
}

#[test]
fn repair_without_manager_ends_with_manager_gone() {
    let pool = pool_of(vec![Link::broken(1)]);
    assert_eq!(pool.reconnect_broken(false), RepairStep::Finished(Ok(false)));
    assert_eq!(ids(&pool), vec![1]);
}

#[test]
fn repair_of_a_healthy_full_pool_is_done_at_once() {
    let pool = pool_of(vec![Link::healthy(1), Link::healthy(2)]);
    assert_eq!(pool.reconnect_broken(true), RepairStep::Finished(Ok(true)));
}

#[test]
fn repair_replaces_broken_connections_in_place_then_fills_up() {
    let dials = vec![Ok(Link::broken(1)), Err(transient()), Ok(Link::healthy(2)), Ok(Link::broken(3))];
    let mut pool =
        ConnectionPool::new(ADDRESS.to_string(), NodeDistance::Local, local(4), dials).unwrap();
    assert_eq!(ids(&pool), vec![1, 2, 3]);

    let step = pool.reconnect_broken(true);
    assert_eq!(step, RepairStep::Dial(RepairTarget::Slot(0)));
    let step = pool.reconnect_resume(RepairTarget::Slot(0), Ok(Link::healthy(11)));
    assert_eq!(ids(&pool), vec![11, 2, 3]);
    assert_eq!(step, RepairStep::Dial(RepairTarget::Slot(2)));
    let step = pool.reconnect_resume(RepairTarget::Slot(2), Ok(Link::healthy(13)));
    assert_eq!(ids(&pool), vec![11, 2, 13]);
    assert_eq!(step, RepairStep::Dial(RepairTarget::Append));
    let step = pool.reconnect_resume(RepairTarget::Append, Ok(Link::healthy(14)));
    assert_eq!(ids(&pool), vec![11, 2, 13, 14]);
    assert_eq!(step, RepairStep::Finished(Ok(true)));
    assert_eq!(pool.len(), pool.desired_size());
    assert!(!pool.needs_repair());
    assert_eq!(pool.health_report(), vec![false, false, false, false]);
}

#[test]
fn repair_does_not_look_back_at_slots_it_has_dealt_with() {
    let mut pool = pool_of(vec![Link::broken(1), Link::broken(2)]);
    assert_eq!(pool.reconnect_broken(true), RepairStep::Dial(RepairTarget::Slot(0)));
    let step = pool.reconnect_resume(RepairTarget::Slot(0), Ok(Link::broken(11)));
    assert_eq!(step, RepairStep::Dial(RepairTarget::Slot(1)));
    let step = pool.reconnect_resume(RepairTarget::Slot(1), Ok(Link::healthy(12)));
    assert_eq!(step, RepairStep::Finished(Ok(true)));
    assert_eq!(ids(&pool), vec![11, 12]);
}

#[test]
fn repair_fills_an_empty_pool() {
    let dials: Vec<Result<Link, Error>> = vec![Err(transient()), Err(transient())];
    let mut pool =
        ConnectionPool::new(ADDRESS.to_string(), NodeDistance::Local, local(2), dials).unwrap();
    assert_eq!(pool.reconnect_broken(true), RepairStep::Dial(RepairTarget::Append));
    let step = pool.reconnect_resume(RepairTarget::Append, Ok(Link::healthy(1)));
    assert_eq!(step, RepairStep::Dial(RepairTarget::Append));
    let step = pool.reconnect_resume(RepairTarget::Append, Ok(Link::healthy(2)));
    assert_eq!(step, RepairStep::Finished(Ok(true)));
    assert_eq!(ids(&pool), vec![1, 2]);
}

#[test]
fn dial_error_during_repair_propagates_unchanged() {
    let mut pool = pool_of(vec![Link::healthy(1), Link::broken(2)]);
    assert_eq!(pool.reconnect_broken(true), RepairStep::Dial(RepairTarget::Slot(1)));
    let step = pool.reconnect_resume(RepairTarget::Slot(1), Err(transient()));
    assert_eq!(step, RepairStep::Finished(Err(transient())));
    assert_eq!(ids(&pool), vec![1, 2]);

    let step = pool.reconnect_resume(RepairTarget::Slot(1), Err(fatal(ADDRESS)));
    assert_eq!(step, RepairStep::Finished(Err(fatal(ADDRESS))));
    let timeout = Error::timeout(ADDRESS);
    let step = pool.reconnect_resume(RepairTarget::Slot(1), Err(timeout.clone()));
    assert_eq!(step, RepairStep::Finished(Err(timeout)));
    assert_eq!(ids(&pool), vec![1, 2]);
}

#[test]
fn dial_error_while_filling_up_keeps_what_was_repaired() {
    let dials = vec![Ok(Link::broken(1)), Err(transient())];
    let mut pool =
        ConnectionPool::new(ADDRESS.to_string(), NodeDistance::Local, local(2), dials).unwrap();
    assert_eq!(pool.reconnect_broken(true), RepairStep::Dial(RepairTarget::Slot(0)));
    let step = pool.reconnect_resume(RepairTarget::Slot(0), Ok(Link::healthy(11)));
    assert_eq!(step, RepairStep::Dial(RepairTarget::Append));
    let step = pool.reconnect_resume(RepairTarget::Append, Err(transient()));
    assert_eq!(step, RepairStep::Finished(Err(transient())));
    assert_eq!(ids(&pool), vec![11]);
    assert!(pool.needs_repair());
}
