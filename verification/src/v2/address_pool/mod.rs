//! Bounded, deterministic address pool: one IPv4 host and one IPv6 `/64` per
//! session, with durable leases.

pub mod allocation;
pub mod config;
pub mod durability;
pub mod journal;
pub mod laws;
pub mod lease;
pub mod lifecycle;
pub mod mode;
pub mod model;
pub mod pool;
pub mod pool_state;
pub mod restart;
pub mod store;
pub mod subnet;
pub mod sweep;
pub mod upkeep;

pub use config::{AddressPoolConfig, AddressPoolError, PoolShape};
pub use lease::{AssignedAddresses, LeaseState, PersistedLease};
pub use journal::JournalLeaseStore;
pub use mode::{AddressPoolMode, OpenedStore};
pub use sweep::{PoolSweepConfig, PoolSweepMetrics, PoolSweepTick, SupervisedPoolSweep};
pub use store::{
    InMemoryLeaseStore, LeaseStore, ManagedLeaseStore, StoreAnswer, StoreAnswers, StoreError,
    StoredLeases,
};
pub use pool::AddressPool;
pub use subnet::{
    ipv6_is_64_aligned, ipv6_prefix_matches_parent, ipv6_subnet_index, ipv6_subnet_prefix,
};
pub use pool_state::{next_retry_deadline, AddressPoolSnapshot, PoolState};
