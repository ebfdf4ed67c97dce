//! Timer queries for nested GPU scopes, pooled and pipelined over frames.
//!
//! The profiler keeps the bookkeeping: query pools, the tree of scopes, the
//! frames in flight and their eviction. The GPU work it needs is handed out
//! as `ProfilerCommand`s for the owner of the device to carry out.
use vstd::prelude::*;

pub mod errors;
pub mod laws;
pub mod pool;
pub mod profiler;
pub mod results;
pub mod scope;
pub mod settings;

pub use errors::{CreationError, EndFrameError, ScopeError, SettingsError};
pub use pool::{QueryPool, ReservedQueryPair, QueryPairUsageState};
pub use profiler::{GpuProfiler, PendingFrame};
pub use results::GpuTimerScopeResult;
pub use scope::{GpuTimerScope, PassTimestampWrites, ProfilerCommand, TimerFeatures, ROOT_SCOPE_HANDLE};
pub use settings::GpuProfilerSettings;

verus! {

} // verus!
