//! The keyspace watcher of a pool: when the session's keyspace changes,
//! every working connection is told to use the new one.

use cassandra_protocol::query::utils::quote;
use vstd::prelude::*;
use vstd::string::StringExecFns;

verus! {

/// `text` with every double quote written twice.
pub open spec fn doubled_quotes(text: Seq<char>) -> Seq<char>
    decreases text.len(),
{
    if text.len() == 0 {
        Seq::empty()
    } else if text[0] == '"' {
        seq!['"', '"'] + doubled_quotes(text.skip(1))
    } else {
        seq![text[0]] + doubled_quotes(text.skip(1))
    }
}

/// `text` as a quoted identifier: between double quotes, with every double
/// quote inside written twice.
pub open spec fn quoted(text: Seq<char>) -> Seq<char> {
    seq!['"'] + doubled_quotes(text) + seq!['"']
}

/// The statement that makes `keyspace` the keyspace of a connection.
pub open spec fn use_statement(keyspace: Seq<char>) -> Seq<char> {
    "USE "@ + quoted(keyspace)
}

/// `cassandra_protocol::query::utils::quote` returns its argument as a
/// quoted identifier: it replaces every double quote by two and puts the
/// result between double quotes.
#[verifier::external_body]
fn quote_identifier(text: &str) -> (identifier: String)
    ensures
        identifier@ == quoted(text@),
{
    quote(text)
}

/// Writes the statement that makes `keyspace` the keyspace of a
/// connection.
pub fn use_keyspace_query(keyspace: &str) -> (statement: String)
    ensures
        statement@ == use_statement(keyspace@),
{
    let identifier = quote_identifier(keyspace);
    let mut statement = String::from_str("USE ");
    statement.append(identifier.as_str());
    statement
}

/// What the watcher does after a change of the keyspace.
#[derive(Clone, Debug, PartialEq, Eq)]
pub enum KeyspaceAction {
    /// End the watcher.
    Stop,
    /// Wait for the next change.
    Ignore,
    /// Send the statement over every connection that reports that it
    /// works, all at once, then wait for the next change.
    Broadcast(String),
}

/// Decides what the watcher does after a change of the keyspace.
///
/// `pool_present` says whether the pool is still there: without it the
/// watcher ends. `keyspace` is the keyspace after the change: where there
/// is one, its statement is broadcast; where there is none, nothing is
/// sent.
pub fn on_keyspace_change(pool_present: bool, keyspace: Option<&str>) -> (action: KeyspaceAction)
    ensures
        action is Stop <==> !pool_present,
        action is Ignore <==> pool_present && keyspace is None,
        action matches KeyspaceAction::Broadcast(statement) ==> (keyspace matches Some(name)
            && statement@ == use_statement(name@)),
{
    if !pool_present {
        return KeyspaceAction::Stop;
    }
    match keyspace {
        Some(name) => KeyspaceAction::Broadcast(use_keyspace_query(name)),
        None => KeyspaceAction::Ignore,
    }
}

} // verus!
