use vstd::prelude::*;

verus! {

/// The request filter's configuration.
#[derive(Clone, Copy, Debug, PartialEq, Eq, Structural)]
pub struct FilterConfig {
    /// Deny the request when a cache miss's authorize call fails.
    pub failure_mode_deny: bool,
    /// How many times a lost cache write is retried.
    pub max_tries: u32,
    /// Advisory ceiling for the shared data's memory use, in bytes.
    pub max_shared_memory_bytes: u64,
}

impl Default for FilterConfig {
    fn default() -> (r: Self)
        ensures
            r.failure_mode_deny == true,
            r.max_tries == 5,
            r.max_shared_memory_bytes == 4294967296,
    {
        FilterConfig {
            failure_mode_deny: true,
            max_tries: 5,
            max_shared_memory_bytes: 4294967296,  // 4 GiB
        }
    }
}

/// When the delta store flushes: when it fills, on the timer, or both.
#[derive(Clone, Copy, Debug, PartialEq, Eq, Structural)]
pub enum FlushMode {
    ContainerLimit,
    Periodical,
    Default,
}

/// The delta store's configuration; durations are in seconds.
#[derive(Clone, Copy, Debug, PartialEq, Eq, Structural)]
pub struct DeltaStoreConfig {
    /// The memory-measure at which a container-limited store flushes.
    pub capacity: u64,
    /// The period of timer-driven flushes.
    pub periodical_flush: u64,
    /// How long to wait before retrying an offline upstream.
    pub retry_duration: u64,
    /// How many requests may await an offline upstream.
    pub await_queue_capacity: u64,
    /// The flush strategy.
    pub flush_mode: FlushMode,
}

impl Default for DeltaStoreConfig {
    fn default() -> (r: Self)
        ensures
            r == (DeltaStoreConfig {
                capacity: 100,
                periodical_flush: 60,
                retry_duration: 30,
                await_queue_capacity: 200,
                flush_mode: FlushMode::Default,
            }),

    {
        DeltaStoreConfig {
            capacity: 100,
            periodical_flush: 60,
            retry_duration: 30,
            await_queue_capacity: 200,
            flush_mode: FlushMode::Default,
        }
    }
}

/// The singleton service's configuration.
#[derive(Clone, Copy, Debug, PartialEq, Eq, Structural)]
pub struct ServiceConfig {
    pub delta_store_config: DeltaStoreConfig,
}

impl Default for ServiceConfig {
    fn default() -> (r: Self)
        ensures
            r.delta_store_config == (DeltaStoreConfig {
                capacity: 100,
                periodical_flush: 60,
                retry_duration: 30,
                await_queue_capacity: 200,
                flush_mode: FlushMode::Default,
            }),
    {
        ServiceConfig { delta_store_config: Default::default() }
    }
}

/// Fixture identifiers for exercising the service end to end.
#[derive(Debug)]
pub struct TestConfiguration {
    pub service_id_1: String,
    pub service_token_1: String,
    pub application_1: String,
    pub service_id_2: String,
    pub service_token_2: String,
    pub application_2: String,
}

} // verus!
