use notes::database::{build_options, is_sqlite, PoolSettings};

#[test]
fn sqlite_urls_are_recognised() {
    assert!(is_sqlite("sqlite::memory:"));
    assert!(is_sqlite("sqlite://notes.db"));
    assert!(!is_sqlite("postgres://localhost/notes"));
    assert!(!is_sqlite("sqlit"));
    assert!(!is_sqlite(""));
}

#[test]
fn sqlite_gets_a_single_connection() {
    assert_eq!(
        build_options("sqlite::memory:"),
        PoolSettings {
            min_connections: 1,
            max_connections: 1,
            connect_timeout_secs: 5,
            acquire_timeout_secs: 5,
            idle_timeout_secs: 600,
            max_lifetime_secs: None,
        }
    );
}

#[test]
fn server_databases_get_a_pool() {
    assert_eq!(
        build_options("postgres://user@localhost/notes"),
        PoolSettings {
            min_connections: 2,
            max_connections: 20,
            connect_timeout_secs: 10,
            acquire_timeout_secs: 10,
            idle_timeout_secs: 300,
            max_lifetime_secs: Some(1800),
        }
    );
}
