use vstd::prelude::*;
use crate::pool::ReservedQueryPair;

verus! {

/// Tree handle of scopes without a parent.
pub const ROOT_SCOPE_HANDLE: u32 = 0xFFFF_FFFF;

/// Which timer query capabilities the device offers.
#[derive(Debug, Clone, Copy, PartialEq, Eq, Structural)]
pub struct TimerFeatures {
    /// Timestamps may be written on command encoders.
    pub timestamp_query: bool,
    /// Timestamps may be written inside render and compute passes.
    pub timestamp_query_inside_passes: bool,
}

pub open spec fn timestamp_write_supported_spec(is_pass: bool, features: TimerFeatures) -> bool {
    if is_pass {
        features.timestamp_query_inside_passes
    } else {
        features.timestamp_query
    }
}

/// Whether a timestamp can be written on a pass (`is_pass`) or on an encoder.
pub fn timestamp_write_supported(is_pass: bool, features: TimerFeatures) -> (r: bool)
    ensures
        r == timestamp_write_supported_spec(is_pass, features),
{
    if is_pass {
        features.timestamp_query_inside_passes
    } else {
        features.timestamp_query
    }
}

/// Work the owner of the GPU resources carries out on the profiler's behalf,
/// in the order in which the profiler hands them out.
#[derive(Debug, Clone, Copy, PartialEq, Eq, Structural)]
pub enum ProfilerCommand {
    /// Create a query set of `capacity` timestamp queries and its two buffers.
    CreateQueryPool { pool_id: u64, capacity: u32 },
    /// Write a timestamp into slot `query_index` on the scope's encoder or pass.
    WriteTimestamp { pool_id: u64, query_index: u32 },
    /// Push a debug group named by the scope's label on its encoder or pass.
    PushDebugGroup,
    /// Pop the debug group of the scope.
    PopDebugGroup,
    /// Resolve slots `first_query..end_query` and copy slots `0..end_query`
    /// to the readable buffer.
    ResolveQueries { pool_id: u64, first_query: u32, end_query: u32 },
    /// Map the first `num_queries` slots of the readable buffer; on success
    /// report it with `GpuProfiler::notify_buffer_mapped(frame_id)`.
    MapReadBuffer { pool_id: u64, frame_id: u64, num_queries: u32 },
    /// Unmap the readable buffer.
    UnmapReadBuffer { pool_id: u64 },
    /// Release the query set and buffers.
    DestroyQueryPool { pool_id: u64 },
}

/// Timestamp slots for a render or compute pass that writes them itself.
#[derive(Debug, Clone, Copy, PartialEq, Eq, Structural)]
pub struct PassTimestampWrites {
    pub pool_id: u64,
    pub beginning_of_pass_write_index: u32,
    pub end_of_pass_write_index: u32,
}

/// An open GPU timer scope; it must be closed with `GpuProfiler::end_scope`.
pub struct GpuTimerScope {
    pub label: String,
    /// Process that opened the scope.
    pub pid: u32,
    /// Thread that opened the scope.
    pub tid: u64,
    /// The reserved query slots, absent where timing is disabled or unsupported.
    pub query: Option<ReservedQueryPair>,
    /// Identifies this scope in the tree of scopes.
    pub handle: u32,
    /// Handle of the enclosing scope, or `ROOT_SCOPE_HANDLE`.
    pub parent_handle: u32,
    /// Whether a debug group was pushed for this scope.
    pub has_debug_group: bool,
}

pub open spec fn pass_writes_spec(query: Option<ReservedQueryPair>) -> Option<PassTimestampWrites> {
    match query {
        Some(q) => Some(
            PassTimestampWrites {
                pool_id: q.pool_id,
                beginning_of_pass_write_index: q.start_query_idx,
                end_of_pass_write_index: (q.start_query_idx + 1) as u32,
            },
        ),
        None => None,
    }
}

impl GpuTimerScope {
    fn pass_timestamp_writes(&self) -> (r: Option<PassTimestampWrites>)
        requires
            self.query matches Some(q) ==> q.start_query_idx < u32::MAX,
        ensures
            r == pass_writes_spec(self.query),
    {
        match &self.query {
            Some(q) => Some(
                PassTimestampWrites {
                    pool_id: q.pool_id,
                    beginning_of_pass_write_index: q.start_query_idx,
                    end_of_pass_write_index: q.start_query_idx + 1,
                },
            ),
            None => None,
        }
    }

    /// The reserved slots for the timestamp writes of one render pass.
    pub fn render_pass_timestamp_writes(&self) -> (r: Option<PassTimestampWrites>)
        requires
            self.query matches Some(q) ==> q.start_query_idx < u32::MAX,
        ensures
            r == pass_writes_spec(self.query),
    {
        self.pass_timestamp_writes()
    }

    /// The reserved slots for the timestamp writes of one compute pass.
    pub fn compute_pass_timestamp_writes(&self) -> (r: Option<PassTimestampWrites>)
        requires
            self.query matches Some(q) ==> q.start_query_idx < u32::MAX,
        ensures
            r == pass_writes_spec(self.query),
    {
        self.pass_timestamp_writes()
    }

    /// Makes this scope a child of `parent`, or a top-level scope.
    pub fn with_parent(self, parent: Option<&GpuTimerScope>) -> (r: GpuTimerScope)
        ensures
            r.label == self.label,
            r.pid == self.pid,
            r.tid == self.tid,
            r.query == self.query,
            r.handle == self.handle,
            r.has_debug_group == self.has_debug_group,
            r.parent_handle == (match parent {
                Some(p) => p.handle,
                None => ROOT_SCOPE_HANDLE,
            }),
    {
        let parent_handle = match parent {
            Some(p) => p.handle,
            None => ROOT_SCOPE_HANDLE,
        };
        GpuTimerScope { parent_handle, ..self }
    }
}

} // verus!
