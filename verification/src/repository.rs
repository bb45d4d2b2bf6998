//! What the service asks of the places where observations and usage are kept.
use crate::durable::{ObservationQueueItem, ObservationQueueStats, QueueDisposition};
use crate::observation::{Observation, ObservationError, TenantId};
use crate::usage::{UsageEntry, UsageLedger};
use vstd::prelude::*;

verus! {

/// A place where observations are kept.
pub trait ObservationRepository: Send + Sync {
    /// Keeps an observation.
    fn append(&self, observation: &Observation) -> Result<(), ObservationError>;

    /// The observations that are kept.
    fn list(&self) -> Result<Vec<Observation>, ObservationError>;
}

/// A place where usage is kept.
pub trait UsageRepository: Send + Sync {
    /// Keeps an entry.
    fn append(&self, entry: &UsageEntry) -> Result<(), ObservationError>;

    /// The ledger of the entries that are kept.
    fn load(&self) -> Result<UsageLedger, ObservationError>;
}

/// A place where observations are queued.
pub trait ObservationQueueRepository: Send + Sync {
    /// Queues the observations that are not queued yet, and says how many those were.
    fn enqueue_batch(&self, observations: &[Observation], now_ms: i64) -> Result<
        usize,
        ObservationError,
    >;

    /// Leases the next due observation.
    fn claim_next(&self, now_ms: i64, lease_until_ms: i64) -> Result<
        Option<ObservationQueueItem>,
        ObservationError,
    >;

    /// Removes an observation that a worker has.
    fn complete(&self, id: u128) -> Result<(), ObservationError>;

    /// Puts back an observation that a worker has, or makes it a dead letter.
    fn fail(&self, id: u128, error: &str, retry_at_ms: i64, max_attempts: u32) -> Result<
        QueueDisposition,
        ObservationError,
    >;

    /// How many observations of a tenant stand where.
    fn stats(&self, tenant_id: &TenantId) -> Result<ObservationQueueStats, ObservationError>;

    /// The dead letters of a tenant.
    fn dead_letters(&self, tenant_id: &TenantId, limit: usize) -> Result<
        Vec<ObservationQueueItem>,
        ObservationError,
    >;

    /// Queues a dead letter of a tenant anew.
    fn requeue_dead_letter(&self, tenant_id: &TenantId, id: u128, now_ms: i64) -> Result<
        bool,
        ObservationError,
    >;
}

} // verus!
