//! Local-jurisdiction lease guards with wait-for-graph deadlock detection.
//!
//! A `Sovereign` guard gives local access to its value only while no lease is in force; leases
//! are granted for a duration, expire on the guard's clock and must be reclaimed explicitly. A
//! `WaitForGraph` records which holders wait on which resources and finds deadlocks as cycles.
pub mod bindings;
pub mod clock;
pub mod constitution;
pub mod diplomacy;
pub mod lease;
pub mod logistics;
pub mod sovereign;
pub mod telemetry;
pub mod wait_graph;

pub use bindings::SovereignString;
pub use clock::MonotonicClock;
pub use constitution::{enforce_invariants, Constitution, ConstitutionError};
pub use diplomacy::{Diplomat, ForeignInterface};
pub use lease::{DistributedBorrow, Epoch, Lease, LeaseError, LeaseId, LeaseIdGenerator};
pub use logistics::{HardwareFuture, Hilirisasi, RawResource};
pub use sovereign::{Jurisdiction, Ledger, ReclaimError, Sovereign, SovereigntyError};
pub use telemetry::{TelemetryConfig, TelemetryConfigBuilder, TelemetryTransport};
pub use wait_graph::WaitForGraph;
