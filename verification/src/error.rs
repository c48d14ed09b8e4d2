//! The failures a pool reports.

use vstd::prelude::*;
use vstd::string::StringExecFns;

verus! {

/// What went wrong while dialing a node or selecting a connection.
#[derive(Clone, Debug, PartialEq, Eq)]
pub enum Error {
    /// A dial did not finish within the configured time. Holds the message.
    Timeout(String),
    /// The node speaks a protocol this client cannot use. Holds the node's
    /// address. No later dial can succeed, so the pool gives up on the node.
    ProtocolIncompatible(String),
    /// Any other dial failure (refused, reset, ...). Holds a description.
    /// A later dial may succeed.
    Transient(String),
    /// Every connection of the pool is down, or it has none. Holds the
    /// message.
    PoolExhausted(String),
}

/// An [`Error`] with its text as a sequence of characters.
pub enum ErrorView {
    Timeout(Seq<char>),
    ProtocolIncompatible(Seq<char>),
    Transient(Seq<char>),
    PoolExhausted(Seq<char>),
}

impl View for Error {
    type V = ErrorView;

    open spec fn view(&self) -> ErrorView {
        match self {
            Error::Timeout(message) => ErrorView::Timeout(message@),
            Error::ProtocolIncompatible(address) => ErrorView::ProtocolIncompatible(address@),
            Error::Transient(description) => ErrorView::Transient(description@),
            Error::PoolExhausted(message) => ErrorView::PoolExhausted(message@),
        }
    }
}

/// The text of a dial timeout for the node at `address`.
pub open spec fn timeout_message(address: Seq<char>) -> Seq<char> {
    "Timeout waiting for connection to: "@ + address
}

/// The text of a failed selection on the pool of the node at `address`.
pub open spec fn no_connections_message(address: Seq<char>) -> Seq<char> {
    "No active connections to: "@ + address
}

impl Error {
    /// Whether the error rules out every later attempt on the same node.
    pub fn is_fatal(&self) -> (fatal: bool)
        ensures
            fatal == (self is ProtocolIncompatible),
    {
        match self {
            Error::ProtocolIncompatible(_) => true,
            _ => false,
        }
    }

    /// The error of a dial to `address` that ran out of time.
    pub fn timeout(address: &str) -> (error: Error)
        ensures
            error@ == ErrorView::Timeout(timeout_message(address@)),
    {
        let mut message = String::from_str("Timeout waiting for connection to: ");
        message.append(address);
        Error::Timeout(message)
    }

    /// The error of a selection that found no usable connection to
    /// `address`.
    pub fn no_active_connections(address: &str) -> (error: Error)
        ensures
            error@ == ErrorView::PoolExhausted(no_connections_message(address@)),
    {
        let mut message = String::from_str("No active connections to: ");
        message.append(address);
        Error::PoolExhausted(message)
    }
}

} // verus!
