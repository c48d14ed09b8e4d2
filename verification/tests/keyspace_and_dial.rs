use connection_pool::dial::new_connection;
use connection_pool::error::Error;
use connection_pool::keyspace::{on_keyspace_change, use_keyspace_query, KeyspaceAction};

#[test]
fn use_statement_quotes_the_keyspace() {
    assert_eq!(use_keyspace_query("ks"), "USE \"ks\"");
    assert_eq!(use_keyspace_query("My Keyspace"), "USE \"My Keyspace\"");
    assert_eq!(use_keyspace_query(""), "USE \"\"");
}

#[test]
fn use_statement_doubles_inner_quotes() {
    assert_eq!(use_keyspace_query("a\"b"), "USE \"a\"\"b\"");
    assert_eq!(use_keyspace_query("\""), "USE \"\"\"\"");
    assert_eq!(use_keyspace_query("\"\""), "USE \"\"\"\"\"\"");
}

#[test]
fn watcher_stops_without_pool() {
    assert_eq!(on_keyspace_change(false, Some("ks")), KeyspaceAction::Stop);
    assert_eq!(on_keyspace_change(false, None), KeyspaceAction::Stop);
}

#[test]
fn watcher_ignores_an_unset_keyspace() {
    assert_eq!(on_keyspace_change(true, None), KeyspaceAction::Ignore);
}

#[test]
fn watcher_broadcasts_the_use_statement() {
    assert_eq!(
        on_keyspace_change(true, Some("events")),
        KeyspaceAction::Broadcast("USE \"events\"".to_string())
    );
}

#[test]
fn dial_answer_stands() {
    let answered: Result<u32, Error> = new_connection("10.0.0.1:9042", Some(Ok(7)));
    assert_eq!(answered, Ok(7));
    let refused: Result<u32, Error> = new_connection(
        "10.0.0.1:9042",
        Some(Err(Error::Transient("connection refused".to_string()))),
    );
    assert_eq!(refused, Err(Error::Transient("connection refused".to_string())));
    let fatal: Result<u32, Error> = new_connection(
        "10.0.0.1:9042",
        Some(Err(Error::ProtocolIncompatible("10.0.0.1:9042".to_string()))),
    );
    assert_eq!(fatal, Err(Error::ProtocolIncompatible("10.0.0.1:9042".to_string())));
}

#[test]
fn dial_out_of_time_is_a_timeout() {
    let timed_out: Result<u32, Error> = new_connection("10.0.0.1:9042", None);
    assert_eq!(
        timed_out,
        Err(Error::Timeout("Timeout waiting for connection to: 10.0.0.1:9042".to_string()))
    );
}

#[test]
fn only_protocol_errors_are_fatal() {
    assert!(Error::ProtocolIncompatible("a".to_string()).is_fatal());
    assert!(!Error::Timeout("a".to_string()).is_fatal());
    assert!(!Error::Transient("a".to_string()).is_fatal());
    assert!(!Error::PoolExhausted("a".to_string()).is_fatal());
}

#[test]
fn error_constructors_write_the_messages() {
    assert_eq!(
        Error::timeout("[::1]:9042"),
        Error::Timeout("Timeout waiting for connection to: [::1]:9042".to_string())
    );
    assert_eq!(
        Error::no_active_connections("[::1]:9042"),
        Error::PoolExhausted("No active connections to: [::1]:9042".to_string())
    );
}
