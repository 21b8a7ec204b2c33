//! Connection-pool configuration and the startup schema migration, as
//! plain data: the service decides these values here; the database driver
//! that consumes them lives outside the verified core.

use vstd::prelude::*;

verus! {

/// Tuning of the connection pool: how many connections it may hold, how
/// long callers and idle connections wait, and whether queries are logged.
/// Exhaustion surfaces to callers after `connect_timeout_secs`.
pub struct PoolConfig {
    pub url: String,
    pub max_connections: u32,
    pub min_connections: u32,
    pub connect_timeout_secs: u64,
    pub idle_timeout_secs: u64,
    pub max_lifetime_secs: u64,
    pub sqlx_logging: bool,
}

impl PoolConfig {
    /// A configuration for `url` with every option at its default.
    pub fn new(url: String) -> (r: PoolConfig)
        ensures
            r.url@ == url@,
            r.max_connections == 100,
            r.min_connections == 5,
            r.connect_timeout_secs == 8,
            r.idle_timeout_secs == 8,
            r.max_lifetime_secs == 8,
            r.sqlx_logging == false,
    {
        PoolConfig {
            url,
            max_connections: 100,
            min_connections: 5,
            connect_timeout_secs: 8,
            idle_timeout_secs: 8,
            max_lifetime_secs: 8,
            sqlx_logging: false,
        }
    }

    /// Caps how many connections the pool hands out at once.
    pub fn max_connections(&mut self, n: u32)
        ensures
            *final(self) == (PoolConfig { max_connections: n, ..*old(self) }),
    {
        self.max_connections = n;
    }

    /// How many idle connections the pool keeps ready.
    pub fn min_connections(&mut self, n: u32)
        ensures
            *final(self) == (PoolConfig { min_connections: n, ..*old(self) }),
    {
        self.min_connections = n;
    }

    /// How long a caller waits for a connection before `PoolExhausted`.
    pub fn connect_timeout_secs(&mut self, secs: u64)
        ensures
            *final(self) == (PoolConfig { connect_timeout_secs: secs, ..*old(self) }),
    {
        self.connect_timeout_secs = secs;
    }

    /// How long an idle connection is kept before it is closed.
    pub fn idle_timeout_secs(&mut self, secs: u64)
        ensures
            *final(self) == (PoolConfig { idle_timeout_secs: secs, ..*old(self) }),
    {
        self.idle_timeout_secs = secs;
    }

    /// The longest a single connection lives before being replaced.
    pub fn max_lifetime_secs(&mut self, secs: u64)
        ensures
            *final(self) == (PoolConfig { max_lifetime_secs: secs, ..*old(self) }),
    {
        self.max_lifetime_secs = secs;
    }

    /// Turns query logging on or off.
    pub fn sqlx_logging(&mut self, on: bool)
        ensures
            *final(self) == (PoolConfig { sqlx_logging: on, ..*old(self) }),
    {
        self.sqlx_logging = on;
    }
}

/// The pool configuration the service boots with: up to 100 connections, 5
/// kept idle, 8-second connect, idle and lifetime limits, query logging on.
pub fn startup_config(url: String) -> (r: PoolConfig)
    ensures
        r.url@ == url@,
        r.max_connections == 100,
        r.min_connections == 5,
        r.connect_timeout_secs == 8,
        r.idle_timeout_secs == 8,
        r.max_lifetime_secs == 8,
        r.sqlx_logging == true,
{
    let mut cfg = PoolConfig::new(url);
    cfg.max_connections(100);
    cfg.min_connections(5);
    cfg.connect_timeout_secs(8);
    cfg.idle_timeout_secs(8);
    cfg.max_lifetime_secs(8);
    cfg.sqlx_logging(true);
    cfg
}

/// What the schema migrator tracks: whether the one `post` table exists.
#[derive(Clone, Copy, PartialEq, Eq, Structural, Debug)]
pub struct SchemaState {
    pub post_table: bool,
}

/// The schema after running every migration: the post table exists,
/// whatever the starting state was.
pub open spec fn spec_apply_all(s: SchemaState) -> SchemaState {
    SchemaState { post_table: true }
}

/// Runs every migration: creates the post table if it is absent. Run once
/// at startup, before any handler accepts traffic.
pub fn apply_all(s: &mut SchemaState)
    ensures
        *final(s) == spec_apply_all(*old(s)),
        final(s).post_table,
{
    s.post_table = true;
}

/// Migration is idempotent: running it against an already-migrated schema
/// changes nothing.
pub proof fn lemma_apply_all_idempotent(s: SchemaState)
    ensures
        spec_apply_all(spec_apply_all(s)) == spec_apply_all(s),
{
}

} // verus!
