//! Health management for a pool of connections to one node of a cluster.
//!
//! The crate holds the decisions of the pool and of the tasks that keep it
//! alive: which connection a caller gets, when a repair starts and how it
//! proceeds, when the node is marked up or down, and when the background
//! loops stop. Everything that waits (dialing, sleeping, locking, channel
//! traffic) is left to the caller, which feeds what it observed into the
//! functions here and carries out the action they return.

pub mod config;
pub mod dial;
pub mod error;
pub mod heartbeat;
pub mod keyspace;
pub mod node;
pub mod pool;
pub mod reconnection;
pub mod selection;

pub use config::{ConfigView, ConnectionPoolConfig, ConnectionPoolConfigBuilder, NodeDistance};
pub use error::{Error, ErrorView};
pub use node::{NodeAction, NodeState};
pub use pool::{ConnectionPool, RepairStep, RepairTarget, Transport};
pub use reconnection::ReconnectionState;
