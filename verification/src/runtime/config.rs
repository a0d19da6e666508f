//! Runtime configuration: build isolation, observer health thresholds and
//! storage paths. Durations are whole seconds; paths are plain strings.

use vstd::prelude::*;
use vstd::string::*;

use crate::table::{keys_distinct, table_get, table_insert, table_map};

verus! {

#[derive(Debug, Clone)]
pub struct RuntimeConfig {
    pub environment: RuntimeEnvironment,
    pub build: BuildConfig,
    pub health: HealthConfig,
    pub storage: StorageConfig,
}

impl Default for RuntimeConfig {
    /// A local environment with the default build, health and storage
    /// settings.
    fn default() -> (r: Self)
        ensures
            r.environment == RuntimeEnvironment::Local,
            r.build.is_default(),
            r.health.is_default(),
            r.storage.is_default(),
    {
        RuntimeConfig {
            environment: RuntimeEnvironment::Local,
            build: BuildConfig::default(),
            health: HealthConfig::default(),
            storage: StorageConfig::default(),
        }
    }
}

#[derive(Debug, Clone, Copy, PartialEq, Eq, Structural)]
pub enum RuntimeEnvironment {
    Local,
    Ci,
    Container,
}

/// Build isolation rules. `timeout` is in seconds; a `max_memory_bytes`
/// of 0 means no limit.
#[derive(Debug, Clone)]
pub struct BuildConfig {
    pub network_policy: NetworkPolicy,
    pub timeout: u64,
    pub max_memory_bytes: u64,
    pub work_dir: String,
    pub record_image_digest: bool,
}

impl BuildConfig {
    /// Denied network, a 300 s timeout, no memory limit, `./build`, no
    /// image digest.
    pub open spec fn is_default(&self) -> bool {
        &&& self.network_policy == NetworkPolicy::DefaultDeny
        &&& self.timeout == 300
        &&& self.max_memory_bytes == 0
        &&& self.work_dir@ == "./build"@
        &&& !self.record_image_digest
    }
}

impl Default for BuildConfig {
    fn default() -> (r: Self)
        ensures
            r.is_default(),
    {
        BuildConfig {
            network_policy: NetworkPolicy::DefaultDeny,
            timeout: 300,
            max_memory_bytes: 0,
            work_dir: String::from_str("./build"),
            record_image_digest: false,
        }
    }
}

/// Network isolation of a build sandbox.
#[derive(Debug, Clone, Copy, PartialEq, Eq, Structural)]
pub enum NetworkPolicy {
    /// No outbound network (recommended for builds).
    DefaultDeny,
    /// Only listed hosts.
    AllowList,
    /// Unrestricted; breaks the sandbox principle.
    Unrestricted,
}

impl NetworkPolicy {
    /// The variant's name as written in build logs.
    pub open spec fn spec_name(self) -> Seq<char> {
        match self {
            NetworkPolicy::DefaultDeny => "DefaultDeny"@,
            NetworkPolicy::AllowList => "AllowList"@,
            NetworkPolicy::Unrestricted => "Unrestricted"@,
        }
    }

    pub fn name(&self) -> (r: &'static str)
        ensures
            r@ == self.spec_name(),
    {
        match self {
            NetworkPolicy::DefaultDeny => "DefaultDeny",
            NetworkPolicy::AllowList => "AllowList",
            NetworkPolicy::Unrestricted => "Unrestricted",
        }
    }
}

/// Heartbeat expectations for observers, in seconds, with overrides keyed
/// by the observer reference.
#[derive(Debug, Clone)]
pub struct HealthConfig {
    pub default_heartbeat_interval: u64,
    pub default_max_gap: u64,
    pub observer_overrides: Vec<(String, ObserverHealthThreshold)>,
}

impl HealthConfig {
    /// A 60 s interval, a 300 s gap and no overrides.
    pub open spec fn is_default(&self) -> bool {
        &&& self.default_heartbeat_interval == 60
        &&& self.default_max_gap == 300
        &&& self.observer_overrides@.len() == 0
    }

    /// No observer has two overrides.
    pub open spec fn wf(&self) -> bool {
        keys_distinct(self.observer_overrides@)
    }

    /// The overrides as a map from observer reference to threshold.
    pub open spec fn override_map(&self) -> Map<Seq<char>, ObserverHealthThreshold> {
        table_map(self.observer_overrides@)
    }

    /// Sets the threshold of one observer, replacing an earlier one.
    pub fn set_override(&mut self, observer: &str, threshold: ObserverHealthThreshold)
        requires
            old(self).wf(),
        ensures
            final(self).wf(),
            final(self).override_map() == old(self).override_map().insert(observer@, threshold),
            final(self).default_heartbeat_interval == old(self).default_heartbeat_interval,
            final(self).default_max_gap == old(self).default_max_gap,
    {
        table_insert(&mut self.observer_overrides, String::from_str(observer), threshold);
    }

    /// The threshold set for one observer.
    pub fn override_for(&self, observer: &str) -> (r: Option<ObserverHealthThreshold>)
        requires
            self.wf(),
        ensures
            r == (if self.override_map().contains_key(observer@) {
                Some(self.override_map()[observer@])
            } else {
                None
            }),
    {
        match table_get(&self.observer_overrides, observer) {
            Some(t) => Some(*t),
            None => None,
        }
    }
}

impl Default for HealthConfig {
    fn default() -> (r: Self)
        ensures
            r.is_default(),
            r.wf(),
    {
        HealthConfig {
            default_heartbeat_interval: 60,
            default_max_gap: 300,
            observer_overrides: Vec::new(),
        }
    }
}

/// Heartbeat interval and maximum gap of one observer, in seconds.
#[derive(Debug, Clone, Copy, PartialEq, Eq, Structural)]
pub struct ObserverHealthThreshold {
    pub heartbeat_interval: u64,
    pub max_gap: u64,
}

/// Where the lake, the blobs and the registry live.
#[derive(Debug, Clone)]
pub struct StorageConfig {
    pub lake_path: String,
    pub blob_path: String,
    pub registry_path: String,
}

impl StorageConfig {
    /// Everything under `./data`.
    pub open spec fn is_default(&self) -> bool {
        &&& self.lake_path@ == "./data/lake"@
        &&& self.blob_path@ == "./data/blobs"@
        &&& self.registry_path@ == "./data/registry"@
    }
}

impl Default for StorageConfig {
    fn default() -> (r: Self)
        ensures
            r.is_default(),
    {
        StorageConfig {
            lake_path: String::from_str("./data/lake"),
            blob_path: String::from_str("./data/blobs"),
            registry_path: String::from_str("./data/registry"),
        }
    }
}

} // verus!
