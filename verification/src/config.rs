//! The settings of the service.
use vstd::prelude::*;

verus! {

/// Where the service listens and how much it logs.
#[derive(Clone, Debug)]
pub struct ServerConfig {
    pub log_level: String,
    pub host: String,
    pub port: u16,
}

/// The settings of the accountant. It has none so far.
#[derive(Clone, Copy, Debug, PartialEq, Eq, Structural)]
pub struct AccountantConfig {}

/// Where the catalog of snapshots is kept and how often it is written.
#[derive(Clone, Debug)]
pub struct ExperimentCacheConfig {
    /// The path of the file.
    pub path: String,
    /// The seconds between two writes.
    pub persist_every: u64,
}

/// How often an experiment hands a snapshot to the state store.
#[derive(Clone, Copy, Debug, PartialEq, Eq, Structural)]
pub struct ExperimentConfig {
    /// The seconds between two snapshots.
    pub save_every: u64,
}

/// All settings of the service.
#[derive(Clone, Debug)]
pub struct AppConfig {
    pub server: ServerConfig,
    pub accountant: AccountantConfig,
    pub experiment_cache: ExperimentCacheConfig,
    pub experiment: ExperimentConfig,
}

impl AppConfig {
    /// The settings, put together from the values that the caller has read
    /// from the configuration file and the environment.
    pub fn from_env(
        log_level: String,
        host: String,
        port: u16,
        path: String,
        persist_every: u64,
        save_every: u64,
    ) -> (config: AppConfig)
        ensures
            config.server.log_level == log_level,
            config.server.host == host,
            config.server.port == port,
            config.experiment_cache.path == path,
            config.experiment_cache.persist_every == persist_every,
            config.experiment.save_every == save_every,
    {
        AppConfig {
            server: ServerConfig { log_level, host, port },
            accountant: AccountantConfig {  },
            experiment_cache: ExperimentCacheConfig { path, persist_every },
            experiment: ExperimentConfig { save_every },
        }
    }
}

} // verus!
