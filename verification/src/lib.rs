//! Verified core of a concurrent segment downloader: progress-state
//! aggregation, region-bucket mapping, admission-control permits, segment
//! naming, and the pure computations behind a live terminal dashboard.
//!
//! All I/O (network transfer, file writes, terminal drawing) lives outside
//! this library; the functions here work on plain values handed in by the
//! surrounding program.

pub mod control;
pub mod laws;
pub mod progress;
pub mod naming;
pub mod permits;
pub mod region;
pub mod render;

pub use control::{FetchOutcome, RenderPhase};
pub use naming::SegmentDescriptor;
pub use permits::{PermitPool, PermitPoolError};
pub use progress::{ActivityEntry, Outcome, ProgressState};
pub use region::RegionState;
