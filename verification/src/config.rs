//! Sizing and timing parameters of a pool.

use std::time::Duration;
use vstd::prelude::*;

verus! {

/// The span of `secs` whole seconds.
pub uninterp spec fn seconds(secs: u64) -> Duration;

/// `Duration::from_secs` is a function of its argument alone; the span it
/// returns is called `seconds(secs)`.
pub assume_specification[ Duration::from_secs ](secs: u64) -> (d: Duration)
    ensures
        d == seconds(secs),
;

/// How far a node is from this client. A node whose distance is not known
/// counts as remote.
#[derive(Clone, Copy, Debug, PartialEq, Eq, Structural)]
pub enum NodeDistance {
    Local,
    Remote,
}

/// The parameters of a configuration, as contracts see them.
pub struct ConfigView {
    pub local_size: usize,
    pub remote_size: usize,
    pub connect_timeout: Option<Duration>,
    pub heartbeat_interval: Duration,
}

impl ConfigView {
    /// The configuration a builder starts from: one connection per node,
    /// no dial timeout, a heartbeat every 30 seconds.
    pub open spec fn initial() -> ConfigView {
        ConfigView {
            local_size: 1,
            remote_size: 1,
            connect_timeout: None,
            heartbeat_interval: seconds(30),
        }
    }

    /// The number of connections a pool to a node at `distance` aims for.
    pub open spec fn desired_size(self, distance: NodeDistance) -> usize {
        if distance == NodeDistance::Local {
            self.local_size
        } else {
            self.remote_size
        }
    }
}

/// Configuration for node connection pools. By default a pool holds one
/// connection, whatever the distance of the node, and dials without a
/// timeout. See [`ConnectionPoolConfigBuilder`].
#[derive(Clone, Copy, Debug)]
pub struct ConnectionPoolConfig {
    local_size: usize,
    remote_size: usize,
    connect_timeout: Option<Duration>,
    heartbeat_interval: Duration,
}

impl View for ConnectionPoolConfig {
    type V = ConfigView;

    closed spec fn view(&self) -> ConfigView {
        ConfigView {
            local_size: self.local_size,
            remote_size: self.remote_size,
            connect_timeout: self.connect_timeout,
            heartbeat_interval: self.heartbeat_interval,
        }
    }
}

impl Default for ConnectionPoolConfig {
    fn default() -> (config: Self)
        ensures
            config@ == ConfigView::initial(),
    {
        ConnectionPoolConfig {
            local_size: 1,
            remote_size: 1,
            connect_timeout: None,
            heartbeat_interval: Duration::from_secs(30),
        }
    }
}

impl ConnectionPoolConfig {
    /// Pool size for local nodes.
    pub fn local_size(&self) -> (n: usize)
        ensures
            n == self@.local_size,
    {
        self.local_size
    }

    /// Pool size for remote nodes.
    pub fn remote_size(&self) -> (n: usize)
        ensures
            n == self@.remote_size,
    {
        self.remote_size
    }

    /// Time allowed for one dial, if it is bounded.
    pub fn connect_timeout(&self) -> (t: Option<Duration>)
        ensures
            t == self@.connect_timeout,
    {
        self.connect_timeout
    }

    /// Time between two heartbeats.
    pub fn heartbeat_interval(&self) -> (d: Duration)
        ensures
            d == self@.heartbeat_interval,
    {
        self.heartbeat_interval
    }

    /// The number of connections a pool to a node at `distance` aims for.
    /// It is also the capacity of the pool's queue of failure signals.
    pub fn desired_size(&self, distance: NodeDistance) -> (n: usize)
        ensures
            n == self@.desired_size(distance),
    {
        match distance {
            NodeDistance::Local => self.local_size,
            NodeDistance::Remote => self.remote_size,
        }
    }
}

/// A builder for [`ConnectionPoolConfig`].
#[derive(Clone, Debug)]
pub struct ConnectionPoolConfigBuilder {
    config: ConnectionPoolConfig,
}

impl View for ConnectionPoolConfigBuilder {
    type V = ConfigView;

    closed spec fn view(&self) -> ConfigView {
        self.config@
    }
}

impl Default for ConnectionPoolConfigBuilder {
    fn default() -> (builder: Self)
        ensures
            builder@ == ConfigView::initial(),
    {
        ConnectionPoolConfigBuilder { config: ConnectionPoolConfig::default() }
    }
}

impl ConnectionPoolConfigBuilder {
    pub fn new() -> (builder: Self)
        ensures
            builder@ == ConfigView::initial(),
    {
        ConnectionPoolConfigBuilder { config: ConnectionPoolConfig::default() }
    }

    /// Sets local node pool size.
    #[must_use]
    pub fn with_local_size(self, local_size: usize) -> (builder: Self)
        ensures
            builder@ == (ConfigView { local_size, ..self@ }),
    {
        let mut next = self;
        next.config.local_size = local_size;
        next
    }

    /// Sets remote node pool size.
    #[must_use]
    pub fn with_remote_size(self, remote_size: usize) -> (builder: Self)
        ensures
            builder@ == (ConfigView { remote_size, ..self@ }),
    {
        let mut next = self;
        next.config.remote_size = remote_size;
        next
    }

    /// Sets new connection timeout.
    #[must_use]
    pub fn with_connect_timeout(self, connect_timeout: Option<Duration>) -> (builder: Self)
        ensures
            builder@ == (ConfigView { connect_timeout, ..self@ }),
    {
        let mut next = self;
        next.config.connect_timeout = connect_timeout;
        next
    }

    /// Sets new heartbeat interval.
    #[must_use]
    pub fn with_heartbeat_interval(self, heartbeat_interval: Duration) -> (builder: Self)
        ensures
            builder@ == (ConfigView { heartbeat_interval, ..self@ }),
    {
        let mut next = self;
        next.config.heartbeat_interval = heartbeat_interval;
        next
    }

    /// Build the resulting config.
    #[must_use]
    pub fn build(self) -> (config: ConnectionPoolConfig)
        ensures
            config@ == self@,
    {
        self.config
    }
}

} // verus!
