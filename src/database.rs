//! Connection-pool settings chosen by storage backend.

use vstd::prelude::*;

use crate::text::chars_of;

verus! {

/// Pool settings for a database connection; times are in seconds.
#[derive(Debug, Clone, Copy, PartialEq, Eq, Structural)]
pub struct PoolSettings {
    pub min_connections: u32,
    pub max_connections: u32,
    pub connect_timeout_secs: u64,
    pub acquire_timeout_secs: u64,
    pub idle_timeout_secs: u64,
    /// How long a connection may live; None for no limit.
    pub max_lifetime_secs: Option<u64>,
}

/// A connection URL names SQLite when it starts with `sqlite`.
pub open spec fn names_sqlite(url: Seq<char>) -> bool {
    url.len() >= 6 && url.take(6) == "sqlite"@
}

/// Whether a connection URL names SQLite.
pub fn is_sqlite(database_url: &str) -> (r: bool)
    ensures
        r == names_sqlite(database_url@),
{
    let url = chars_of(database_url);
    let prefix = chars_of("sqlite");
    proof {
        reveal_strlit("sqlite");
    }
    if url.len() < prefix.len() {
        return false;
    }
    let mut i: usize = 0;
    while i < prefix.len()
        invariant
            prefix@ == "sqlite"@,
            prefix@.len() == 6,
            url@ == database_url@,
            prefix.len() <= url.len(),
            i <= prefix.len(),
            forall|k: int| 0 <= k < i ==> url@[k] == prefix@[k],
        decreases prefix.len() - i,
    {
        if url[i] != prefix[i] {
            proof {
                assert(url@.take(prefix.len() as int)[i as int] != prefix@[i as int]);
            }
            return false;
        }
        i = i + 1;
    }
    proof {
        assert(url@.take(prefix.len() as int) =~= prefix@);
    }
    true
}

/// The settings for a backend: SQLite gets a single long-lived connection;
/// a server database gets a pool of 2 to 20 connections that are recycled
/// after 30 minutes.
pub open spec fn pool_settings_for(sqlite: bool) -> PoolSettings {
    if sqlite {
        PoolSettings {
            min_connections: 1,
            max_connections: 1,
            connect_timeout_secs: 5,
            acquire_timeout_secs: 5,
            idle_timeout_secs: 600,
            max_lifetime_secs: None,
        }
    } else {
        PoolSettings {
            min_connections: 2,
            max_connections: 20,
            connect_timeout_secs: 10,
            acquire_timeout_secs: 10,
            idle_timeout_secs: 300,
            max_lifetime_secs: Some(1800),
        }
    }
}

/// The pool settings for a connection URL.
pub fn build_options(database_url: &str) -> (r: PoolSettings)
    ensures
        r == pool_settings_for(names_sqlite(database_url@)),
{
    if is_sqlite(database_url) {
        PoolSettings {
            min_connections: 1,
            max_connections: 1,
            connect_timeout_secs: 5,
            acquire_timeout_secs: 5,
            idle_timeout_secs: 600,
            max_lifetime_secs: None,
        }
    } else {
        PoolSettings {
            min_connections: 2,
            max_connections: 20,
            connect_timeout_secs: 10,
            acquire_timeout_secs: 10,
            idle_timeout_secs: 300,
            max_lifetime_secs: Some(1800),
        }
    }
}

} // verus!
