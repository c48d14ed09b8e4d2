//! The pool of connections to one node.

use crate::config::{ConfigView, ConnectionPoolConfig, NodeDistance};
use crate::error::{no_connections_message, Error, ErrorView};
use crate::selection::{all_broken, healthy_from, is_first_broken, lists_healthy, selects};
use crate::selection::{any_up, first_broken, healthy_indices, select_index};
use itertools::Itertools;
use std::sync::atomic::{AtomicUsize, Ordering};
use std::sync::Arc;
use vstd::prelude::*;

verus! {

/// A connection to a node, as the pool needs it.
pub trait Transport {
    /// Whether the connection can no longer carry requests. The answer may
    /// change at any moment, so nothing is promised of it.
    fn is_broken(&self) -> bool;
}

/// `std::sync::Arc::clone` hands out another handle to the same allocation:
/// the new handle points at the value the old one points at.
#[verifier::external_body]
fn share<T>(connection: &Arc<T>) -> (shared: Arc<T>)
    ensures
        shared == *connection,
{
    Arc::clone(connection)
}

/// The values behind a sequence of handles.
pub open spec fn values<T>(handles: Seq<Arc<T>>) -> Seq<T> {
    Seq::new(handles.len(), |i: int| *handles[i])
}

/// The dial failed in a way that rules out the node for good.
pub open spec fn is_fatal_dial<T>(dial: Result<T, Error>) -> bool {
    dial matches Err(error) && error is ProtocolIncompatible
}

/// The connections that the dials established, in dial order.
pub open spec fn established<T>(dials: Seq<Result<T, Error>>) -> Seq<T>
    decreases dials.len(),
{
    if dials.len() == 0 {
        Seq::empty()
    } else {
        match dials.last() {
            Ok(connection) => established(dials.drop_last()).push(connection),
            Err(_) => established(dials.drop_last()),
        }
    }
}

/// Dial `i` is the first that failed fatally.
pub open spec fn is_first_fatal<T>(dials: Seq<Result<T, Error>>, i: int) -> bool {
    &&& 0 <= i < dials.len()
    &&& is_fatal_dial(dials[i])
    &&& forall|j: int| 0 <= j < i ==> !is_fatal_dial(dials[j])
}

/// Entry `m` of `origin` is `j`.
spec fn maps_to(origin: Seq<int>, m: int, j: int) -> bool {
    0 <= m < origin.len() && origin[m] == j
}

/// No more connections are established than dials were made.
pub proof fn lemma_established_len<T>(dials: Seq<Result<T, Error>>)
    ensures
        established(dials).len() <= dials.len(),
    decreases dials.len(),
{
    if dials.len() > 0 {
        lemma_established_len(dials.drop_last());
    }
}

/// `itertools::Itertools::map_ok` with `Arc::new`, collected: every `Ok`
/// value is put behind an `Arc`, every `Err` stays as it is, and neither
/// the number nor the order of the items changes.
#[verifier::external_body]
fn share_established<T>(dials: Vec<Result<T, Error>>) -> (shared: Vec<Result<Arc<T>, Error>>)
    ensures
        shared@.len() == dials@.len(),
        forall|i: int|
            #![trigger shared@[i]]
            0 <= i < dials@.len() ==> match dials@[i] {
                Ok(connection) => shared@[i] matches Ok(handle) && *handle == connection,
                Err(error) => shared@[i] == Err::<Arc<T>, Error>(error),
            },
{
    dials.into_iter().map_ok(Arc::new).collect()
}

/// `itertools::Itertools::try_collect` into a `Vec`: the first `Err` in the
/// order of the items, if there is one, and else all the `Ok` values in
/// that order.
#[verifier::external_body]
fn collect_established<T>(dials: Vec<Result<Arc<T>, Error>>) -> (collected: Result<
    Vec<Arc<T>>,
    Error,
>)
    ensures
        match collected {
            Ok(connections) => {
                &&& connections@.len() == dials@.len()
                &&& forall|i: int|
                    #![trigger connections@[i]]
                    0 <= i < dials@.len() ==> dials@[i] == Ok::<Arc<T>, Error>(connections@[i])
            },
            Err(error) => exists|i: int|
                {
                    &&& 0 <= i < dials@.len()
                    &&& #[trigger] dials@[i] == Err::<Arc<T>, Error>(error)
                    &&& forall|j: int| 0 <= j < i ==> dials@[j] is Ok
                },
        },
{
    dials.into_iter().try_collect()
}

/// Where a repair puts the next connection it dials.
#[derive(Clone, Copy, Debug, PartialEq, Eq, Structural)]
pub enum RepairTarget {
    /// In place of the broken connection in this slot.
    Slot(usize),
    /// Behind the last connection.
    Append,
}

/// How a repair goes on.
#[derive(Debug, PartialEq, Eq)]
pub enum RepairStep {
    /// Dial the node and hand the outcome, with this target, to
    /// [`ConnectionPool::reconnect_resume`].
    Dial(RepairTarget),
    /// The repair has ended: with `Ok(true)` when every slot was dealt with
    /// and the pool has its full size, with `Ok(false)` when the connection
    /// manager was gone, or with the error of the dial that failed.
    Finished(Result<bool, Error>),
}

/// The target of the next dial of a repair that has dealt with the slots
/// before `from`, given what the connections report; `None` when nothing
/// is left to do. A broken slot at or after `from` comes first; then the
/// pool is filled up to `desired_size`.
pub open spec fn repair_plan(report: Seq<bool>, from: int, desired_size: int) -> Option<
    RepairTarget,
> {
    if !healthy_from(report, from) {
        Some(RepairTarget::Slot((choose|i: int| is_first_broken(report, from, i)) as usize))
    } else if report.len() < desired_size {
        Some(RepairTarget::Append)
    } else {
        None
    }
}

/// Plans the next dial of a repair that has dealt with the slots before
/// `from`.
pub fn plan_repair(report: &Vec<bool>, from: usize, desired_size: usize) -> (target: Option<
    RepairTarget,
>)
    ensures
        target == repair_plan(report@, from as int, desired_size as int),
        target matches Some(RepairTarget::Slot(i)) ==> is_first_broken(
            report@,
            from as int,
            i as int,
        ),
{
    match first_broken(report, from) {
        Some(slot) => {
            proof {
                let chosen = choose|i: int| is_first_broken(report@, from as int, i);
                assert(is_first_broken(report@, from as int, slot as int));
                assert(chosen == slot);
            }
            Some(RepairTarget::Slot(slot))
        },
        None => {
            if report.len() < desired_size {
                Some(RepairTarget::Append)
            } else {
                None
            }
        },
    }
}

/// The step of a repair that has dealt with the slots before `from`, given
/// what the connections report: the dial that is planned, or success where
/// none is.
pub open spec fn repair_step(report: Seq<bool>, from: int, desired_size: int) -> RepairStep {
    match repair_plan(report, from, desired_size) {
        Some(target) => RepairStep::Dial(target),
        None => RepairStep::Finished(Ok(true)),
    }
}

/// A repair ends with success only on a pool that is at least as large as
/// desired and in which no connection from `from` on reports broken, and
/// a step planned from a report is never another end than success.
pub proof fn lemma_repair_complete(report: Seq<bool>, from: int, desired_size: int)
    ensures
        repair_step(report, from, desired_size) == RepairStep::Finished(Ok(true)) <==> (
        healthy_from(report, from) && report.len() >= desired_size),
        repair_step(report, from, desired_size) is Finished ==> repair_step(
            report,
            from,
            desired_size,
        ) == RepairStep::Finished(Ok(true)),
{
}

/// What a pool holds, as contracts see it.
pub struct PoolView<T> {
    /// The address of the node.
    pub address: Seq<char>,
    /// The configuration the pool was made with.
    pub config: ConfigView,
    /// The connections, slot by slot.
    pub connections: Seq<T>,
    /// The number of connections the pool aims for.
    pub desired_size: usize,
}

/// The live connections to one node. The pool never holds more connections
/// than it aims for; after failures it may hold fewer.
pub struct ConnectionPool<T> {
    address: String,
    config: ConnectionPoolConfig,
    connections: Vec<Arc<T>>,
    desired_size: usize,
    cursor: AtomicUsize,
}

impl<T> View for ConnectionPool<T> {
    type V = PoolView<T>;

    closed spec fn view(&self) -> PoolView<T> {
        PoolView {
            address: self.address@,
            config: self.config@,
            connections: values(self.connections@),
            desired_size: self.desired_size,
        }
    }
}

/// Draws the next ticket from a cursor. Tickets count up by one and start
/// again at zero after the largest number.
fn next_ticket(cursor: &AtomicUsize) -> usize {
    cursor.fetch_add(1, Ordering::Relaxed)
}

impl<T> ConnectionPool<T> {
    /// The invariant of a pool: it holds no more connections than it aims
    /// for.
    pub open spec fn wf(&self) -> bool {
        self@.connections.len() <= self@.desired_size
    }

    /// The target is one that a repair of this pool can ask for: a slot
    /// that exists, or room behind the last connection.
    pub open spec fn admits(self, target: RepairTarget) -> bool {
        match target {
            RepairTarget::Slot(slot) => slot < self@.connections.len(),
            RepairTarget::Append => self@.connections.len() < self@.desired_size,
        }
    }

    /// The address of the node.
    pub fn address(&self) -> (address: &str)
        ensures
            address@ == self@.address,
    {
        self.address.as_str()
    }

    /// The configuration the pool was made with.
    pub fn config(&self) -> (config: ConnectionPoolConfig)
        ensures
            config@ == self@.config,
    {
        self.config
    }

    /// The number of connections the pool aims for.
    pub fn desired_size(&self) -> (n: usize)
        ensures
            n == self@.desired_size,
    {
        self.desired_size
    }

    /// The number of connections in the pool.
    pub fn len(&self) -> (n: usize)
        ensures
            n == self@.connections.len(),
    {
        self.connections.len()
    }

    /// The connections in the pool, slot by slot: the targets of a
    /// heartbeat.
    pub fn connections(&self) -> (connections: &Vec<Arc<T>>)
        ensures
            values(connections@) == self@.connections,
    {
        &self.connections
    }

    /// Whether the pool is smaller than desired, so that a repair is due.
    pub fn needs_repair(&self) -> (due: bool)
        ensures
            due == (self@.connections.len() != self@.desired_size),
    {
        self.connections.len() != self.desired_size
    }

    /// Makes the pool for the node at `address` from the outcomes of the
    /// dials made for it, one per desired connection.
    ///
    /// A dial refused as protocol-incompatible fails the construction with
    /// that error, the first in dial order if there are several, and no
    /// pool is made. Otherwise the pool holds the connections that were
    /// established, in dial order; the dials that failed are left out. A
    /// pool that is short of its desired size [needs a
    /// repair](Self::needs_repair): its maker then signals one failure.
    pub fn new(
        address: String,
        node_distance: NodeDistance,
        config: ConnectionPoolConfig,
        dials: Vec<Result<T, Error>>,
    ) -> (made: Result<Self, Error>)
        requires
            dials@.len() == config@.desired_size(node_distance),
        ensures
            made is Err <==> exists|i: int| 0 <= i < dials@.len() && is_fatal_dial(dials@[i]),
            made matches Err(error) ==> exists|i: int|
                is_first_fatal(dials@, i) && dials@[i] == Err::<T, Error>(error),
            made matches Ok(pool) ==> {
                &&& pool.wf()
                &&& pool@.address == address@
                &&& pool@.config == config@
                &&& pool@.desired_size == config@.desired_size(node_distance)
                &&& pool@.connections == established(dials@)
            },
    {
        let desired_size = config.desired_size(node_distance);
        let ghost all = dials@;
        let mut kept: Vec<Result<T, Error>> = Vec::new();
        let ghost mut origin: Seq<int> = Seq::empty();
        for dial in it: dials
            invariant
                it.seq() == all,
                kept@.len() == origin.len(),
                established(kept@) == established(all.take(it.index() as int)),
                forall|m: int|
                    0 <= m < origin.len() ==> 0 <= #[trigger] origin[m] < it.index()
                        && kept@[m] == all[origin[m]] && (all[origin[m]] is Ok || is_fatal_dial(
                        all[origin[m]],
                    )),
                forall|m1: int, m2: int|
                    0 <= m1 < m2 < origin.len() ==> origin[m1] < origin[m2],
                forall|j: int|
                    0 <= j < it.index() && is_fatal_dial(all[j]) ==> exists|m: int|
                        maps_to(origin, m, j),
        {
            let ghost i = it.index() as int;
            let ghost before = kept@;
            let ghost origin_before = origin;
            proof {
                assert(all.take(i + 1).drop_last() == all.take(i));
                assert(all.take(i + 1).last() == all[i]);
            }
            let keep = match &dial {
                Ok(_) => true,
                Err(error) => error.is_fatal(),
            };
            if keep {
                kept.push(dial);
                proof {
                    origin = origin.push(i);
                    assert(kept@.drop_last() == before);
                    assert forall|j: int| 0 <= j < i + 1 && is_fatal_dial(all[j]) implies exists|
                        m: int,
                    |
                        maps_to(origin, m, j) by {
                        if j < i {
                            let m = choose|m: int| maps_to(origin_before, m, j);
                            assert(maps_to(origin, m, j));
                        } else {
                            assert(maps_to(origin, origin_before.len() as int, j));
                        }
                    }
                }
            }
        }
        proof {
            assert(all.take(all.len() as int) == all);
        }
        let ghost kept_all = kept@;
        let shared = share_established(kept);
        match collect_established(shared) {
            Err(error) => {
                proof {
                    let m = choose|m: int|
                        {
                            &&& 0 <= m < shared@.len()
                            &&& #[trigger] shared@[m] == Err::<Arc<T>, Error>(error)
                            &&& forall|j: int| 0 <= j < m ==> shared@[j] is Ok
                        };
                    let i = origin[m];
                    assert(kept_all[m] == Err::<T, Error>(error));
                    assert forall|j: int| 0 <= j < i implies !is_fatal_dial(all[j]) by {
                        if is_fatal_dial(all[j]) {
                            let m0 = choose|m0: int| maps_to(origin, m0, j);
                            assert(maps_to(origin, m0, j));
                            assert(m0 < m);
                            assert(shared@[m0] is Ok);
                        }
                    }
                    assert(is_first_fatal(all, i) && all[i] == Err::<T, Error>(error));
                }
                Err(error)
            },
            Ok(connections) => {
                proof {
                    assert forall|j: int| 0 <= j < all.len() implies !is_fatal_dial(all[j]) by {
                        if is_fatal_dial(all[j]) {
                            let m0 = choose|m0: int| maps_to(origin, m0, j);
                            assert(maps_to(origin, m0, j));
                            assert(shared@[m0] == Ok::<Arc<T>, Error>(connections@[m0]));
                        }
                    }
                    lemma_all_established(kept_all, connections@);
                    lemma_established_len(all);
                }
                Ok(
                    ConnectionPool {
                        address,
                        config,
                        connections,
                        desired_size,
                        cursor: AtomicUsize::new(0),
                    },
                )
            },
        }
    }
}

/// The connections of `pool` in the slots listed, one for one.
pub open spec fn connections_in<T>(pool: PoolView<T>, slots: Seq<usize>, picked: Seq<T>) -> bool {
    &&& picked.len() == slots.len()
    &&& forall|m: int|
        0 <= m < slots.len() ==> slots[m] < pool.connections.len() && picked[m]
            == pool.connections[slots[m] as int]
}

/// `picked` is what a selection on `pool` gives to the caller that drew
/// `ticket` when the connections report `report`: the connection in the
/// slot that the ticket selects, or the error that says that there is none.
pub open spec fn is_selection<T>(
    pool: PoolView<T>,
    report: Seq<bool>,
    ticket: int,
    picked: Result<Arc<T>, Error>,
) -> bool {
    &&& report.len() == pool.connections.len()
    &&& picked is Err <==> all_broken(report)
    &&& picked matches Ok(connection) ==> exists|k: int|
        selects(report, ticket, k) && *connection == pool.connections[k]
    &&& picked matches Err(error) ==> error@ == ErrorView::PoolExhausted(
        no_connections_message(pool.address),
    )
}

/// A step that a repair of `pool` may take once it has dealt with the
/// slots before `from`: a dial for a slot not yet dealt with, a dial for
/// more room while the pool is short, or success on a pool of full size.
pub open spec fn may_follow<T>(pool: PoolView<T>, from: int, step: RepairStep) -> bool {
    match step {
        RepairStep::Dial(RepairTarget::Slot(slot)) => from <= slot < pool.connections.len(),
        RepairStep::Dial(RepairTarget::Append) => pool.connections.len() < pool.desired_size,
        RepairStep::Finished(Ok(complete)) => complete && pool.connections.len()
            == pool.desired_size,
        RepairStep::Finished(Err(_)) => false,
    }
}

/// `step` is the step of a repair of `pool` that has dealt with the slots
/// before `from`, for something that the connections may have reported.
pub open spec fn follows_report<T>(pool: PoolView<T>, from: int, step: RepairStep) -> bool {
    exists|report: Seq<bool>|
        report.len() == pool.connections.len() && step == #[trigger] repair_step(
            report,
            from,
            pool.desired_size as int,
        )
}

/// The connections of a pool after a repair has put `connection` where
/// `target` says.
pub open spec fn installed<T>(connections: Seq<T>, target: RepairTarget, connection: T) -> Seq<T> {
    match target {
        RepairTarget::Slot(slot) => connections.update(slot as int, connection),
        RepairTarget::Append => connections.push(connection),
    }
}

/// The first slot that a repair has not dealt with once it has filled
/// `target` in a pool of `len` connections.
pub open spec fn dealt_with(len: int, target: RepairTarget) -> int {
    match target {
        RepairTarget::Slot(slot) => slot + 1,
        RepairTarget::Append => len + 1,
    }
}

impl<T: Transport> ConnectionPool<T> {
    /// Asks every connection, slot by slot, whether it is broken.
    pub fn health_report(&self) -> (report: Vec<bool>)
        ensures
            report@.len() == self@.connections.len(),
    {
        let mut report: Vec<bool> = Vec::new();
        let mut i: usize = 0;
        while i < self.connections.len()
            invariant
                i <= self.connections@.len(),
                report@.len() == i,
            decreases self.connections@.len() - i,
        {
            let broken = self.connections[i].is_broken();
            report.push(broken);
            i += 1;
        }
        report
    }

    /// The connection for the caller that drew `ticket`, given what the
    /// connections reported: the one in the slot that the ticket
    /// [selects](crate::selection::selects). The selection fails exactly
    /// when every connection reported broken or the pool is empty.
    pub fn connection_for(&self, report: &Vec<bool>, ticket: usize) -> (picked: Result<
        Arc<T>,
        Error,
    >)
        requires
            report@.len() == self@.connections.len(),
        ensures
            is_selection(self@, report@, ticket as int, picked),
    {
        match select_index(report, ticket) {
            Some(slot) => {
                let connection = share(&self.connections[slot]);
                assert(selects(report@, ticket as int, slot as int) && *connection
                    == self@.connections[slot as int]);
                Ok(connection)
            },
            None => Err(Error::no_active_connections(self.address.as_str())),
        }
    }

    /// Selects a connection for the caller, in turn: asks the connections
    /// whether they are broken, draws a ticket from the pool's cursor and
    /// returns the connection that [`connection_for`](Self::connection_for)
    /// gives for both. An empty pool has none to give.
    pub fn connection(&self) -> (picked: Result<Arc<T>, Error>)
        ensures
            exists|report: Seq<bool>, ticket: int|
                0 <= ticket && #[trigger] is_selection(self@, report, ticket, picked),
            self@.connections.len() == 0 ==> picked is Err,
            picked matches Ok(connection) ==> exists|k: int|
                0 <= k < self@.connections.len() && *connection == self@.connections[k],
    {
        let report = self.health_report();
        let ticket = next_ticket(&self.cursor);
        let picked = self.connection_for(&report, ticket);
        assert(is_selection(self@, report@, ticket as int, picked));
        picked
    }

    /// Whether at least one connection reports that it works. An empty
    /// pool has none.
    pub fn is_any_connection_up(&self) -> (up: bool)
        ensures
            exists|report: Seq<bool>|
                report.len() == self@.connections.len() && up == !#[trigger] all_broken(report),
            self@.connections.len() == 0 ==> !up,
    {
        let report = self.health_report();
        let up = any_up(&report);
        assert(report@.len() == self@.connections.len() && up == !all_broken(report@));
        up
    }

    /// Whether every connection reports broken. That holds of an empty
    /// pool.
    pub fn are_all_connections_down(&self) -> (down: bool)
        ensures
            exists|report: Seq<bool>|
                report.len() == self@.connections.len() && down == #[trigger] all_broken(report),
            self@.connections.len() == 0 ==> down,
    {
        let report = self.health_report();
        let down = !any_up(&report);
        assert(report@.len() == self@.connections.len() && down == all_broken(report@));
        down
    }

    /// The connections in the slots listed.
    pub fn connections_at(&self, slots: &Vec<usize>) -> (picked: Vec<Arc<T>>)
        requires
            forall|m: int| 0 <= m < slots@.len() ==> slots@[m] < self@.connections.len(),
        ensures
            connections_in(self@, slots@, values(picked@)),
    {
        let mut picked: Vec<Arc<T>> = Vec::new();
        let mut m: usize = 0;
        while m < slots.len()
            invariant
                m <= slots@.len(),
                picked@.len() == m,
                forall|j: int| 0 <= j < slots@.len() ==> slots@[j] < self.connections@.len(),
                forall|j: int| 0 <= j < m ==> *picked@[j] == *self.connections@[slots@[j] as int],
            decreases slots@.len() - m,
        {
            let connection = share(&self.connections[slots[m]]);
            picked.push(connection);
            m += 1;
        }
        picked
    }

    /// The connections that report that they work, in slot order: the
    /// targets of a broadcast.
    pub fn healthy_connections(&self) -> (targets: Vec<Arc<T>>)
        ensures
            exists|report: Seq<bool>, slots: Seq<usize>|
                {
                    &&& report.len() == self@.connections.len()
                    &&& #[trigger] lists_healthy(report, slots)
                    &&& connections_in(self@, slots, values(targets@))
                },
    {
        let report = self.health_report();
        let slots = healthy_indices(&report);
        let targets = self.connections_at(&slots);
        assert(lists_healthy(report@, slots@) && connections_in(
            self@,
            slots@,
            values(targets@),
        ));
        targets
    }

    /// The step of a repair that has dealt with the slots before `from`.
    fn repair_from(&self, from: usize) -> (step: RepairStep)
        requires
            self.wf(),
        ensures
            follows_report(self@, from as int, step),
            may_follow(self@, from as int, step),
    {
        let report = self.health_report();
        let step = match plan_repair(&report, from, self.desired_size) {
            Some(target) => RepairStep::Dial(target),
            None => RepairStep::Finished(Ok(true)),
        };
        assert(report@.len() == self@.connections.len() && step == repair_step(
            report@,
            from as int,
            self@.desired_size as int,
        ));
        step
    }

    /// Begins a repair of the pool: every connection that reports broken
    /// is to be replaced, slot by slot, and the pool filled up to its
    /// desired size.
    ///
    /// `manager_present` says whether the connection manager is still
    /// there. Without it nothing can be dialed, and the repair ends at
    /// once with `Ok(false)`. Otherwise the step is the first dial, or
    /// success where nothing is to be done.
    pub fn reconnect_broken(&self, manager_present: bool) -> (step: RepairStep)
        requires
            self.wf(),
        ensures
            !manager_present <==> step == RepairStep::Finished(Ok(false)),
            manager_present ==> follows_report(self@, 0, step),
            manager_present ==> may_follow(self@, 0, step),
    {
        if manager_present {
            self.repair_from(0)
        } else {
            RepairStep::Finished(Ok(false))
        }
    }

    /// Goes on with a repair after the dial that the last step asked for.
    ///
    /// A dial that failed ends the repair with its error, and the pool
    /// stays as it was. A connection that was established takes the place
    /// that `target` names, and the step is the next dial, or success once
    /// no later slot reports broken and the pool has its desired size.
    pub fn reconnect_resume(&mut self, target: RepairTarget, dialed: Result<T, Error>) -> (step:
        RepairStep)
        requires
            old(self).wf(),
            old(self).admits(target),
        ensures
            final(self).wf(),
            final(self)@.address == old(self)@.address,
            final(self)@.config == old(self)@.config,
            final(self)@.desired_size == old(self)@.desired_size,
            match dialed {
                Err(error) => step == RepairStep::Finished(Err(error)) && final(self)@ == old(
                    self,
                )@,
                Ok(connection) => {
                    &&& final(self)@.connections == installed(
                        old(self)@.connections,
                        target,
                        connection,
                    )
                    &&& follows_report(
                        final(self)@,
                        dealt_with(old(self)@.connections.len() as int, target),
                        step,
                    )
                    &&& may_follow(
                        final(self)@,
                        dealt_with(old(self)@.connections.len() as int, target),
                        step,
                    )
                },
            },
    {
        match dialed {
            Err(error) => RepairStep::Finished(Err(error)),
            Ok(connection) => {
                let handle = Arc::new(connection);
                let from: usize = match target {
                    RepairTarget::Slot(slot) => {
                        self.connections.set(slot, handle);
                        slot + 1
                    },
                    RepairTarget::Append => {
                        self.connections.push(handle);
                        self.connections.len()
                    },
                };
                assert(values(self.connections@) =~= installed(
                    old(self)@.connections,
                    target,
                    connection,
                ));
                self.repair_from(from)
            },
        }
    }
}

/// Where every dial succeeded, the connections established are those of
/// the dials, one for one.
proof fn lemma_all_established<T>(dials: Seq<Result<T, Error>>, connections: Seq<Arc<T>>)
    requires
        dials.len() == connections.len(),
        forall|i: int| 0 <= i < dials.len() ==> dials[i] == Ok::<T, Error>(*connections[i]),
    ensures
        values(connections) == established(dials),
    decreases dials.len(),
{
    if dials.len() > 0 {
        lemma_all_established(dials.drop_last(), connections.drop_last());
        assert(values(connections) =~= values(connections.drop_last()).push(*connections.last()));
    } else {
        assert(values(connections) =~= established(dials));
    }
}

} // verus!
