//! Server configuration and the state it starts from.

use vstd::prelude::*;
use crate::state::AppState;

verus! {

/// Server configuration populated from CLI flags.
#[derive(Debug)]
pub struct ServerConfig {
    /// Maximum time a run may execute before being timed out, in seconds.
    pub run_timeout_secs: u64,
    /// Maximum concurrent runs (0 = unlimited).
    pub max_concurrent_runs: usize,
    /// Path to SQLite database (None = in-memory only).
    pub db_path: Option<String>,
}

/// The run timeout that a configuration starts with, in seconds.
pub const DEFAULT_RUN_TIMEOUT_SECS: u64 = 300;

/// The concurrent-run limit that a configuration starts with.
pub const DEFAULT_MAX_CONCURRENT_RUNS: usize = 64;

impl Default for ServerConfig {
    fn default() -> (r: Self)
        ensures
            r.run_timeout_secs == DEFAULT_RUN_TIMEOUT_SECS,
            r.max_concurrent_runs == DEFAULT_MAX_CONCURRENT_RUNS,
            r.db_path is None,
    {
        ServerConfig {
            run_timeout_secs: DEFAULT_RUN_TIMEOUT_SECS,
            max_concurrent_runs: DEFAULT_MAX_CONCURRENT_RUNS,
            db_path: None,
        }
    }
}

impl ServerConfig {
    /// The configuration that the command line gives: a timeout of 0 means
    /// no limit, held as the largest timeout there is.
    pub fn from_options(timeout_secs: u64, max_concurrent_runs: usize, db_path: Option<String>) -> (r: Self)
        ensures
            r.run_timeout_secs == (if timeout_secs == 0 { u64::MAX } else { timeout_secs }),
            r.max_concurrent_runs == max_concurrent_runs,
            r.db_path == db_path,
    {
        ServerConfig {
            run_timeout_secs: if timeout_secs == 0 { u64::MAX } else { timeout_secs },
            max_concurrent_runs,
            db_path,
        }
    }

    /// The number of permits of the run semaphore: none where the number of
    /// concurrent runs is unlimited.
    pub fn run_permits(&self) -> (r: Option<usize>)
        ensures
            r == (if self.max_concurrent_runs > 0 { Some(self.max_concurrent_runs) } else { None::<usize> }),
    {
        if self.max_concurrent_runs > 0 {
            Some(self.max_concurrent_runs)
        } else {
            None
        }
    }
}

impl AppState {
    /// An empty state with the limits of `config`.
    pub fn with_config(config: &ServerConfig) -> (r: Self)
        ensures
            r@.agents.len() == 0,
            r@.threads.len() == 0,
            r@.runs.len() == 0,
            r@.wf(),
            r.max_runs == config.max_concurrent_runs,
            r.run_timeout_secs == config.run_timeout_secs,
    {
        AppState::new(config.max_concurrent_runs, config.run_timeout_secs)
    }
}

} // verus!
