use vstd::prelude::*;
use crate::errors::{CreationError, EndFrameError, ScopeError, SettingsError};
use crate::pool::{
    QueryPool, ReservedQueryPair, QueryPairUsageState, all_wf, all_resolved, total_capacity,
    total_used, total_unresolved, min_int, max_int, capped_total_capacity, capped_total_used,
    lemma_total_used_even, lemma_total_capacity_even, lemma_unresolved_zero, saturating_total_unresolved, QUERY_SIZE,
    QUERY_SET_MAX_QUERIES, MIN_QUERY_POOL_CAPACITY,
};
use crate::results::{GpuTimerScopeResult, build_forest, buffer_bytes, forest, result_nodes};
use crate::scope::{
    GpuTimerScope, ProfilerCommand, TimerFeatures, ROOT_SCOPE_HANDLE, timestamp_write_supported,
    timestamp_write_supported_spec,
};
use crate::settings::GpuProfilerSettings;

verus! {

/// A frame that has ended and waits for its readable buffers to be mapped.
pub struct PendingFrame {
    pub id: u64,
    /// The pools used during the frame, all resolved.
    pub query_pools: Vec<QueryPool>,
    /// The scopes closed during the frame, in the order they were closed.
    pub closed_scopes: Vec<GpuTimerScope>,
    /// How many of the pools' buffers have been mapped successfully.
    pub mapped_buffers: usize,
}

/// Every query pair held by `scopes` lies in the used part of its pool in `pools`.
pub open spec fn scope_pairs_valid(scopes: Seq<GpuTimerScope>, pools: Seq<QueryPool>) -> bool {
    forall|i: int|
        0 <= i < scopes.len() && (#[trigger] scopes[i]).query.is_some() ==> {
            let q = scopes[i].query->0;
            &&& q.pool_index < pools.len()
            &&& pools[q.pool_index as int].is_pair_of(q)
        }
}

impl PendingFrame {
    pub open spec fn wf(&self) -> bool {
        &&& all_wf(self.query_pools@)
        &&& all_resolved(self.query_pools@)
        &&& self.mapped_buffers <= self.query_pools@.len()
        &&& scope_pairs_valid(self.closed_scopes@, self.query_pools@)
    }

    pub open spec fn is_ready(&self) -> bool {
        self.mapped_buffers == self.query_pools@.len()
    }
}

/// A pool that waits in the cache for reuse.
pub open spec fn is_unused_pool(p: QueryPool) -> bool {
    p.wf() && p.num_used_queries == 0 && p.num_resolved_queries == 0
}

/// The identity that follows `n`.
pub open spec fn next_id(n: u64) -> u64 {
    if n == u64::MAX { 0 } else { (n + 1) as u64 }
}

/// The handle that a scope opened while the counter reads `n` receives:
/// the counter's value, skipping the root handle.
pub open spec fn handle_for(n: u32) -> u32 {
    if n == ROOT_SCOPE_HANDLE { 0 } else { n }
}

/// The capacity of a pool created while `used` are this frame's pools.
pub open spec fn fresh_pool_capacity(used: Seq<QueryPool>, size_for_new_query_pools: u32) -> int {
    min_int(max_int(total_capacity(used), size_for_new_query_pools as int), QUERY_SET_MAX_QUERIES as int)
}

/// The pools kept for reuse when `pools` are given back.
pub open spec fn kept_pools(pools: Seq<QueryPool>, enabled: bool, threshold: int) -> Seq<QueryPool>
    decreases pools.len(),
{
    if pools.len() == 0 {
        Seq::empty()
    } else {
        let rest = kept_pools(pools.drop_last(), enabled, threshold);
        let p = pools.last();
        if enabled && p.capacity >= threshold {
            rest.push(p.reset_spec())
        } else {
            rest
        }
    }
}

/// The commands that give back `pools`: each buffer is unmapped, and each
/// pool that is not kept is destroyed.
pub open spec fn reclaim_commands(pools: Seq<QueryPool>, enabled: bool, threshold: int) -> Seq<
    ProfilerCommand,
>
    decreases pools.len(),
{
    if pools.len() == 0 {
        Seq::empty()
    } else {
        let rest = reclaim_commands(pools.drop_last(), enabled, threshold);
        let p = pools.last();
        let unmapped = rest.push(ProfilerCommand::UnmapReadBuffer { pool_id: p.id });
        if enabled && p.capacity >= threshold {
            unmapped
        } else {
            unmapped.push(ProfilerCommand::DestroyQueryPool { pool_id: p.id })
        }
    }
}

pub open spec fn destroy_commands(pools: Seq<QueryPool>) -> Seq<ProfilerCommand> {
    pools.map_values(|p: QueryPool| ProfilerCommand::DestroyQueryPool { pool_id: p.id })
}

/// How reserving a query pair turns the pools `used`, `unused` and the next
/// pool identity into `used2`, `unused2` and `next_pool2`: the last pool of
/// the frame serves while it has two slots left; otherwise a cached pool, or
/// else a new one of `fresh_pool_capacity`, is appended and gives its first
/// two slots. Earlier pools are never filled again.
pub open spec fn reserves(
    used: Seq<QueryPool>,
    unused: Seq<QueryPool>,
    next_pool: u64,
    size_for_new_query_pools: u32,
    used2: Seq<QueryPool>,
    unused2: Seq<QueryPool>,
    next_pool2: u64,
    pair: ReservedQueryPair,
    cmds: Seq<ProfilerCommand>,
) -> bool {
    if used.len() > 0 && used.last().num_used_queries + 2 <= used.last().capacity {
        let p = used.last();
        &&& pair.pool_index == used.len() - 1
        &&& pair.pool_id == p.id
        &&& pair.start_query_idx == p.num_used_queries
        &&& used2 == used.update(
            used.len() - 1,
            QueryPool { num_used_queries: (p.num_used_queries + 2) as u32, ..p },
        )
        &&& unused2 == unused
        &&& next_pool2 == next_pool
        &&& cmds.len() == 0
    } else if unused.len() > 0 {
        let p = unused.last();
        &&& pair.pool_index == used.len()
        &&& pair.pool_id == p.id
        &&& pair.start_query_idx == 0
        &&& used2 == used.push(QueryPool { num_used_queries: 2, ..p })
        &&& unused2 == unused.drop_last()
        &&& next_pool2 == next_pool
        &&& cmds.len() == 0
    } else {
        let c = fresh_pool_capacity(used, size_for_new_query_pools) as u32;
        &&& pair.pool_index == used.len()
        &&& pair.pool_id == next_pool
        &&& pair.start_query_idx == 0
        &&& used2 == used.push(
            QueryPool { id: next_pool, capacity: c, num_used_queries: 2, num_resolved_queries: 0 },
        )
        &&& unused2 == unused
        &&& next_pool2 == next_id(next_pool)
        &&& cmds == seq![ProfilerCommand::CreateQueryPool { pool_id: next_pool, capacity: c }]
    }
}

/// `a` and `b` are the same scope.
pub open spec fn same_scope(a: GpuTimerScope, b: GpuTimerScope) -> bool {
    &&& a.label@ == b.label@
    &&& a.pid == b.pid
    &&& a.tid == b.tid
    &&& a.query == b.query
    &&& a.handle == b.handle
    &&& a.parent_handle == b.parent_handle
    &&& a.has_debug_group == b.has_debug_group
}

/// `i` is the first open scope with `handle`.
pub open spec fn is_first_open(open: Seq<GpuTimerScope>, handle: u32, i: int) -> bool {
    &&& 0 <= i < open.len()
    &&& open[i].handle == handle
    &&& forall|j: int| 0 <= j < i ==> (#[trigger] open[j]).handle != handle
}

/// The query pair of a scope once it has been closed.
pub open spec fn closed_query(q: Option<ReservedQueryPair>) -> Option<ReservedQueryPair> {
    match q {
        Some(p) => if p.usage_state == QueryPairUsageState::OnlyStartWritten {
            Some(ReservedQueryPair { usage_state: QueryPairUsageState::BothStartAndEndWritten, ..p })
        } else {
            Some(p)
        },
        None => None,
    }
}

/// The commands that close the open scope `rec`: the end timestamp, where
/// the start was written by the profiler, then the debug group's pop.
pub open spec fn end_commands(rec: GpuTimerScope) -> Seq<ProfilerCommand> {
    let ts: Seq<ProfilerCommand> = match rec.query {
        Some(q) => if q.usage_state == QueryPairUsageState::OnlyStartWritten {
            seq![ProfilerCommand::WriteTimestamp { pool_id: q.pool_id, query_index: (q.start_query_idx + 1) as u32 }]
        } else {
            Seq::empty()
        },
        None => Seq::empty(),
    };
    if rec.has_debug_group {
        ts.push(ProfilerCommand::PopDebugGroup)
    } else {
        ts
    }
}

/// The commands that open `scope`, after the commands `create` of its pool
/// reservation: its start timestamp where it holds a query pair, then the
/// push of its debug group where it has one.
pub open spec fn scope_begin_commands(create: Seq<ProfilerCommand>, scope: GpuTimerScope) -> Seq<ProfilerCommand> {
    let ts: Seq<ProfilerCommand> = match scope.query {
        Some(q) => create.push(ProfilerCommand::WriteTimestamp { pool_id: q.pool_id, query_index: q.start_query_idx }),
        None => create,
    };
    if scope.has_debug_group {
        ts.push(ProfilerCommand::PushDebugGroup)
    } else {
        ts
    }
}

pub proof fn lemma_pairs_valid_grow(scopes: Seq<GpuTimerScope>, used: Seq<QueryPool>, used2: Seq<QueryPool>)
    requires
        scope_pairs_valid(scopes, used),
        used.len() <= used2.len(),
        forall|i: int|
            0 <= i < used.len() ==> (#[trigger] used2[i]).id == used[i].id && used2[i].num_used_queries
                >= used[i].num_used_queries,
    ensures
        scope_pairs_valid(scopes, used2),
{
    assert forall|i: int| 0 <= i < scopes.len() && (#[trigger] scopes[i]).query.is_some() implies {
        let q = scopes[i].query->0;
        &&& q.pool_index < used2.len()
        &&& used2[q.pool_index as int].is_pair_of(q)
    } by {
        let q = scopes[i].query->0;
        assert(used2[q.pool_index as int].id == used[q.pool_index as int].id);
    }
}

/// The commands that resolve every used but unresolved slot of `pools`.
pub open spec fn resolve_commands(pools: Seq<QueryPool>) -> Seq<ProfilerCommand>
    decreases pools.len(),
{
    if pools.len() == 0 {
        Seq::empty()
    } else {
        let rest = resolve_commands(pools.drop_last());
        let p = pools.last();
        if p.num_resolved_queries < p.num_used_queries {
            rest.push(
                ProfilerCommand::ResolveQueries {
                    pool_id: p.id,
                    first_query: p.num_resolved_queries,
                    end_query: p.num_used_queries,
                },
            )
        } else {
            rest
        }
    }
}

/// `pools` once every used slot has been resolved.
pub open spec fn resolved_pools(pools: Seq<QueryPool>) -> Seq<QueryPool> {
    pools.map_values(|p: QueryPool| p.resolved_spec())
}

/// The commands that map the readable buffers of a frame's pools.
pub open spec fn map_commands(pools: Seq<QueryPool>, frame_id: u64) -> Seq<ProfilerCommand> {
    pools.map_values(
        |p: QueryPool|
            ProfilerCommand::MapReadBuffer {
                pool_id: p.id,
                frame_id,
                num_queries: p.num_used_queries,
            },
    )
}

/// The pools of the evicted `frames`, newest frame first.
pub open spec fn evicted_pools(frames: Seq<PendingFrame>) -> Seq<QueryPool>
    decreases frames.len(),
{
    if frames.len() == 0 {
        Seq::empty()
    } else {
        evicted_pools(frames.drop_first()) + frames.first().query_pools@
    }
}

/// How many of `len` pending frames stay when a frame is added under a
/// bound of `max` pending frames.
pub open spec fn kept_frame_count(len: int, max: int) -> int {
    min_int(len, max - 1)
}

/// The size for new pools after a frame that used the pools `used`.
pub open spec fn new_watermark(size: u32, used: Seq<QueryPool>) -> int {
    min_int(max_int(size as int, total_used(used)), QUERY_SET_MAX_QUERIES as int)
}

pub open spec fn open_labels(open: Seq<GpuTimerScope>) -> Seq<Seq<char>> {
    open.map_values(|s: GpuTimerScope| s.label@)
}

pub open spec fn string_views(v: Seq<String>) -> Seq<Seq<char>> {
    v.map_values(|l: String| l@)
}

/// Each mapped buffer holds at least the used slots of its pool.
pub open spec fn data_fits(pools: Seq<QueryPool>, data: Seq<Seq<u8>>) -> bool {
    &&& data.len() == pools.len()
    &&& forall|i: int| 0 <= i < pools.len() ==> #[trigger] pools[i].num_used_queries * QUERY_SIZE <= data[i].len()
}

/// `i` is the first pending frame with `id`.
pub open spec fn is_first_frame(frames: Seq<PendingFrame>, id: u64, i: int) -> bool {
    &&& 0 <= i < frames.len()
    &&& frames[i].id == id
    &&& forall|j: int| 0 <= j < i ==> (#[trigger] frames[j]).id != id
}

pub proof fn lemma_kept_pools_append(a: Seq<QueryPool>, b: Seq<QueryPool>, enabled: bool, threshold: int)
    ensures
        kept_pools(a + b, enabled, threshold) == kept_pools(a, enabled, threshold) + kept_pools(b, enabled, threshold),
        reclaim_commands(a + b, enabled, threshold) == reclaim_commands(a, enabled, threshold)
            + reclaim_commands(b, enabled, threshold),
    decreases b.len(),
{
    if b.len() == 0 {
        assert(a + b == a);
    } else {
        lemma_kept_pools_append(a, b.drop_last(), enabled, threshold);
        assert((a + b).drop_last() == a + b.drop_last());
        assert((a + b).last() == b.last());
    }
}

/// The state of the GPU profiler: the active frame, the frames that wait for
/// their results, and the cache of reusable pools.
pub struct GpuProfiler {
    unused_pools: Vec<QueryPool>,
    used_pools: Vec<QueryPool>,
    closed_scopes: Vec<GpuTimerScope>,
    open_scopes: Vec<GpuTimerScope>,
    pending_frames: Vec<PendingFrame>,
    next_scope_handle: u32,
    size_for_new_query_pools: u32,
    settings: GpuProfilerSettings,
    next_pool_id: u64,
    next_frame_id: u64,
}

impl GpuProfiler {
    /// Pools that wait for reuse.
    pub closed spec fn unused_pools(&self) -> Seq<QueryPool> {
        self.unused_pools@
    }

    /// Pools of the active frame, in creation order.
    pub closed spec fn used_pools(&self) -> Seq<QueryPool> {
        self.used_pools@
    }

    /// Scopes closed in the active frame, in the order they were closed.
    pub closed spec fn closed_scopes(&self) -> Seq<GpuTimerScope> {
        self.closed_scopes@
    }

    /// Scopes that are open, in the order they were opened.
    pub closed spec fn open_scopes(&self) -> Seq<GpuTimerScope> {
        self.open_scopes@
    }

    /// Ended frames waiting for their results, oldest first.
    pub closed spec fn pending_frames(&self) -> Seq<PendingFrame> {
        self.pending_frames@
    }

    pub closed spec fn next_scope_handle(&self) -> u32 {
        self.next_scope_handle
    }

    /// Lower bound for the capacity of newly created pools.
    pub closed spec fn size_for_new_query_pools(&self) -> u32 {
        self.size_for_new_query_pools
    }

    pub closed spec fn settings(&self) -> GpuProfilerSettings {
        self.settings
    }

    pub closed spec fn next_pool_id(&self) -> u64 {
        self.next_pool_id
    }

    pub closed spec fn next_frame_id(&self) -> u64 {
        self.next_frame_id
    }

    /// The invariant that every operation keeps.
    pub closed spec fn wf(&self) -> bool {
        &&& self.settings.is_valid()
        &&& MIN_QUERY_POOL_CAPACITY <= self.size_for_new_query_pools <= QUERY_SET_MAX_QUERIES
        &&& self.size_for_new_query_pools % 2 == 0
        &&& forall|i: int|
            0 <= i < self.unused_pools@.len() ==> is_unused_pool(#[trigger] self.unused_pools@[i])
        &&& all_wf(self.used_pools@)
        &&& scope_pairs_valid(self.closed_scopes@, self.used_pools@)
        &&& scope_pairs_valid(self.open_scopes@, self.used_pools@)
        &&& forall|i: int|
            0 <= i < self.open_scopes@.len() && (#[trigger] self.open_scopes@[i]).query.is_some()
                ==> self.open_scopes@[i].query->0.usage_state
                == QueryPairUsageState::OnlyStartWritten || self.open_scopes@[i].query->0.usage_state
                == QueryPairUsageState::ReservedForPassTimestampWrites
        &&& forall|i: int|
            0 <= i < self.pending_frames@.len() ==> (#[trigger] self.pending_frames@[i]).wf()
    }

    /// Threshold below which a given-back pool is not kept.
    pub open spec fn retention_threshold(&self) -> int {
        self.size_for_new_query_pools() as int / 2
    }

    /// Creates a profiler; fails on invalid settings.
    pub fn new(settings: GpuProfilerSettings) -> (r: Result<GpuProfiler, CreationError>)
        ensures
            !settings.is_valid() ==> r == Err::<GpuProfiler, CreationError>(
                CreationError::InvalidSettings(SettingsError::InvalidMaxNumPendingFrames),
            ),
            settings.is_valid() ==> (r matches Ok(p) && {
                &&& p.wf()
                &&& p.settings() == settings
                &&& p.unused_pools().len() == 0
                &&& p.used_pools().len() == 0
                &&& p.closed_scopes().len() == 0
                &&& p.open_scopes().len() == 0
                &&& p.pending_frames().len() == 0
                &&& p.next_scope_handle() == 0
                &&& p.size_for_new_query_pools() == MIN_QUERY_POOL_CAPACITY
                &&& p.next_pool_id() == 0
                &&& p.next_frame_id() == 0
            }),
    {
        match settings.validate() {
            Err(e) => Err(CreationError::InvalidSettings(e)),
            Ok(()) => Ok(
                GpuProfiler {
                    unused_pools: Vec::new(),
                    used_pools: Vec::new(),
                    closed_scopes: Vec::new(),
                    open_scopes: Vec::new(),
                    pending_frames: Vec::new(),
                    next_scope_handle: 0,
                    size_for_new_query_pools: MIN_QUERY_POOL_CAPACITY,
                    settings,
                    next_pool_id: 0,
                    next_frame_id: 0,
                },
            ),
        }
    }

    /// Number of scopes that are open.
    pub fn num_open_scopes(&self) -> (r: usize)
        ensures
            r == self.open_scopes().len(),
    {
        self.open_scopes.len()
    }

    /// Number of ended frames that wait for their results.
    pub fn num_pending_frames(&self) -> (r: usize)
        ensures
            r == self.pending_frames().len(),
    {
        self.pending_frames.len()
    }

    /// Replaces the settings; refused while scopes are open or when the new
    /// settings are invalid. Disabling timer scopes destroys the cached pools.
    pub fn change_settings(&mut self, settings: GpuProfilerSettings) -> (r: Result<
        Vec<ProfilerCommand>,
        SettingsError,
    >)
        requires
            old(self).wf(),
        ensures
            final(self).wf(),
            old(self).open_scopes().len() > 0 ==> r == Err::<Vec<ProfilerCommand>, SettingsError>(
                SettingsError::HasOpenScopes,
            ) && *final(self) == *old(self),
            old(self).open_scopes().len() == 0 && !settings.is_valid() ==> r == Err::<
                Vec<ProfilerCommand>,
                SettingsError,
            >(SettingsError::InvalidMaxNumPendingFrames) && *final(self) == *old(self),
            old(self).open_scopes().len() == 0 && settings.is_valid() ==> (r matches Ok(cmds) && {
                &&& final(self).settings() == settings
                &&& settings.enable_timer_scopes ==> final(self).unused_pools() == old(
                    self,
                ).unused_pools() && cmds@ == Seq::<ProfilerCommand>::empty()
                &&& !settings.enable_timer_scopes ==> final(self).unused_pools().len() == 0
                    && cmds@ == destroy_commands(old(self).unused_pools())
                &&& final(self).used_pools() == old(self).used_pools()
                &&& final(self).closed_scopes() == old(self).closed_scopes()
                &&& final(self).open_scopes() == old(self).open_scopes()
                &&& final(self).pending_frames() == old(self).pending_frames()
                &&& final(self).next_scope_handle() == old(self).next_scope_handle()
                &&& final(self).size_for_new_query_pools() == old(self).size_for_new_query_pools()
                &&& final(self).next_pool_id() == old(self).next_pool_id()
                &&& final(self).next_frame_id() == old(self).next_frame_id()
            }),
    {
        if self.open_scopes.len() > 0 {
            return Err(SettingsError::HasOpenScopes);
        }
        match settings.validate() {
            Err(e) => Err(e),
            Ok(()) => {
                let mut cmds: Vec<ProfilerCommand> = Vec::new();
                if !settings.enable_timer_scopes {
                    let mut i: usize = 0;
                    while i < self.unused_pools.len()
                        invariant
                            *self == *old(self),
                            self.wf(),
                            i <= self.unused_pools@.len(),
                            cmds@ == destroy_commands(self.unused_pools@.take(i as int)),
                        decreases self.unused_pools@.len() - i,
                    {
                        cmds.push(ProfilerCommand::DestroyQueryPool { pool_id: self.unused_pools[i].id });
                        i = i + 1;
                        assert(destroy_commands(self.unused_pools@.take(i as int)) =~= destroy_commands(
                            self.unused_pools@.take(i - 1),
                        ).push(cmds@.last()));
                    }
                    assert(self.unused_pools@.take(i as int) == self.unused_pools@);
                    self.unused_pools.clear();
                }
                self.settings = settings;
                Ok(cmds)
            },
        }
    }

    /// Hands out the next tree handle, never the root handle.
    fn next_scope_tree_handle(&mut self) -> (r: u32)
        ensures
            r == handle_for(old(self).next_scope_handle),
            r != ROOT_SCOPE_HANDLE,
            final(self).next_scope_handle == r + 1,
            final(self).unused_pools == old(self).unused_pools,
            final(self).used_pools == old(self).used_pools,
            final(self).closed_scopes == old(self).closed_scopes,
            final(self).open_scopes == old(self).open_scopes,
            final(self).pending_frames == old(self).pending_frames,
            final(self).size_for_new_query_pools == old(self).size_for_new_query_pools,
            final(self).settings == old(self).settings,
            final(self).next_pool_id == old(self).next_pool_id,
            final(self).next_frame_id == old(self).next_frame_id,
    {
        let mut handle = self.next_scope_handle;
        if handle == ROOT_SCOPE_HANDLE {
            handle = 0;
        }
        self.next_scope_handle = handle + 1;
        handle
    }

    /// Gives `pools` back: each is reset and its buffer unmapped, and it is
    /// kept for reuse only while timer scopes are enabled and its capacity is
    /// at least half the size for new pools; otherwise it is destroyed.
    fn reset_and_cache_unused_query_pools(&mut self, pools: Vec<QueryPool>) -> (r: Vec<
        ProfilerCommand,
    >)
        requires
            old(self).wf(),
            all_wf(pools@),
        ensures
            final(self).wf(),
            final(self).unused_pools@ == old(self).unused_pools@ + kept_pools(
                pools@,
                old(self).settings.enable_timer_scopes,
                old(self).retention_threshold(),
            ),
            r@ == reclaim_commands(
                pools@,
                old(self).settings.enable_timer_scopes,
                old(self).retention_threshold(),
            ),
            final(self).used_pools == old(self).used_pools,
            final(self).closed_scopes == old(self).closed_scopes,
            final(self).open_scopes == old(self).open_scopes,
            final(self).pending_frames == old(self).pending_frames,
            final(self).next_scope_handle == old(self).next_scope_handle,
            final(self).size_for_new_query_pools == old(self).size_for_new_query_pools,
            final(self).settings == old(self).settings,
            final(self).next_pool_id == old(self).next_pool_id,
            final(self).next_frame_id == old(self).next_frame_id,
    {
        let ghost enabled = self.settings.enable_timer_scopes;
        let ghost threshold = self.retention_threshold();
        let ghost unused0 = self.unused_pools@;
        let capacity_threshold = self.size_for_new_query_pools / 2;
        let mut cmds: Vec<ProfilerCommand> = Vec::new();
        let mut i: usize = 0;
        while i < pools.len()
            invariant
                i <= pools@.len(),
                all_wf(pools@),
                self.wf(),
                enabled == self.settings.enable_timer_scopes,
                threshold == self.retention_threshold(),
                capacity_threshold == threshold,
                self.unused_pools@ == unused0 + kept_pools(pools@.take(i as int), enabled, threshold),
                cmds@ == reclaim_commands(pools@.take(i as int), enabled, threshold),
                self.used_pools == old(self).used_pools,
                self.closed_scopes == old(self).closed_scopes,
                self.open_scopes == old(self).open_scopes,
                self.pending_frames == old(self).pending_frames,
                self.next_scope_handle == old(self).next_scope_handle,
                self.size_for_new_query_pools == old(self).size_for_new_query_pools,
                self.settings == old(self).settings,
                self.next_pool_id == old(self).next_pool_id,
                self.next_frame_id == old(self).next_frame_id,
            decreases pools@.len() - i,
        {
            assert(pools@.take(i as int + 1).drop_last() == pools@.take(i as int));
            assert(pools@.take(i as int + 1).last() == pools@[i as int]);
            let mut pool = pools[i];
            assert(pool.wf());
            pool.reset();
            cmds.push(ProfilerCommand::UnmapReadBuffer { pool_id: pool.id });
            if self.settings.enable_timer_scopes && pool.capacity >= capacity_threshold {
                let ghost before = self.unused_pools@;
                self.unused_pools.push(pool);
                assert forall|j: int| 0 <= j < self.unused_pools@.len() implies is_unused_pool(
                    #[trigger] self.unused_pools@[j],
                ) by {
                    if j < before.len() {
                        assert(self.unused_pools@[j] == before[j]);
                    }
                }
            } else {
                cmds.push(ProfilerCommand::DestroyQueryPool { pool_id: pool.id });
            }
            i = i + 1;
        }
        assert(pools@.take(pools@.len() as int) == pools@);
        cmds
    }

    fn same_query(a: &Option<ReservedQueryPair>, b: &Option<ReservedQueryPair>) -> (r: bool)
        ensures
            r == (*a == *b),
    {
        match (a, b) {
            (Some(x), Some(y)) => *x == *y,
            (None, None) => true,
            _ => false,
        }
    }

    fn copy_scope(s: &GpuTimerScope) -> (r: GpuTimerScope)
        ensures
            same_scope(r, *s),
    {
        GpuTimerScope {
            label: s.label.clone(),
            pid: s.pid,
            tid: s.tid,
            query: s.query,
            handle: s.handle,
            parent_handle: s.parent_handle,
            has_debug_group: s.has_debug_group,
        }
    }

    /// Reserves two consecutive query slots in the active frame.
    fn reserve_query_pair(&mut self) -> (r: (ReservedQueryPair, Vec<ProfilerCommand>))
        requires
            old(self).wf(),
        ensures
            final(self).wf(),
            reserves(
                old(self).used_pools@,
                old(self).unused_pools@,
                old(self).next_pool_id,
                old(self).size_for_new_query_pools,
                final(self).used_pools@,
                final(self).unused_pools@,
                final(self).next_pool_id,
                r.0,
                r.1@,
            ),
            r.0.usage_state == QueryPairUsageState::Reserved,
            r.0.pool_index < final(self).used_pools@.len(),
            final(self).used_pools@[r.0.pool_index as int].is_pair_of(r.0),
            final(self).closed_scopes == old(self).closed_scopes,
            final(self).open_scopes == old(self).open_scopes,
            final(self).pending_frames == old(self).pending_frames,
            final(self).next_scope_handle == old(self).next_scope_handle,
            final(self).size_for_new_query_pools == old(self).size_for_new_query_pools,
            final(self).settings == old(self).settings,
            final(self).next_frame_id == old(self).next_frame_id,
    {
        let ghost used0 = self.used_pools@;
        let n = self.used_pools.len();
        if n > 0 {
            let mut last = self.used_pools[n - 1];
            assert(last.wf());
            match last.try_reserve_query_pair(n - 1) {
                Some(pair) => {
                    self.used_pools.set(n - 1, last);
                    proof {
                        lemma_pairs_valid_grow(self.closed_scopes@, used0, self.used_pools@);
                        lemma_pairs_valid_grow(self.open_scopes@, used0, self.used_pools@);
                    }
                    return (pair, Vec::new());
                },
                None => {},
            }
        }
        let mut cmds: Vec<ProfilerCommand> = Vec::new();
        let mut pool = match self.unused_pools.pop() {
            Some(p) => p,
            None => {
                let total = capped_total_capacity(&self.used_pools);
                proof {
                    lemma_total_capacity_even(self.used_pools@);
                }
                let capacity = if total > self.size_for_new_query_pools {
                    total
                } else {
                    self.size_for_new_query_pools
                };
                let id = self.next_pool_id;
                self.next_pool_id = if id == u64::MAX {
                    0
                } else {
                    id + 1
                };
                cmds.push(ProfilerCommand::CreateQueryPool { pool_id: id, capacity });
                QueryPool::new(id, capacity)
            },
        };
        let pair = ReservedQueryPair {
            pool_index: n,
            pool_id: pool.id,
            start_query_idx: 0,
            usage_state: QueryPairUsageState::Reserved,
        };
        pool.num_used_queries = 2;
        self.used_pools.push(pool);
        proof {
            lemma_pairs_valid_grow(self.closed_scopes@, used0, self.used_pools@);
            lemma_pairs_valid_grow(self.open_scopes@, used0, self.used_pools@);
        }
        (pair, cmds)
    }

    /// Opens a scope: gives it a handle and, where timing is enabled and
    /// supported on this kind of recorder, a query pair in `usage_state`, and
    /// records it among the open scopes.
    fn begin_scope_internal(
        &mut self,
        label: String,
        is_pass: bool,
        features: TimerFeatures,
        pid: u32,
        tid: u64,
        usage_state: QueryPairUsageState,
    ) -> (r: (GpuTimerScope, Vec<ProfilerCommand>))
        requires
            old(self).wf(),
            usage_state == QueryPairUsageState::OnlyStartWritten || usage_state
                == QueryPairUsageState::ReservedForPassTimestampWrites,
        ensures
            final(self).wf(),
            r.0.label@ == label@,
            r.0.pid == pid,
            r.0.tid == tid,
            r.0.handle == handle_for(old(self).next_scope_handle),
            r.0.handle != ROOT_SCOPE_HANDLE,
            r.0.parent_handle == ROOT_SCOPE_HANDLE,
            !r.0.has_debug_group,
            final(self).next_scope_handle == handle_for(old(self).next_scope_handle) + 1,
            final(self).open_scopes@.len() == old(self).open_scopes@.len() + 1,
            final(self).open_scopes@.drop_last() == old(self).open_scopes@,
            same_scope(final(self).open_scopes@.last(), r.0),
            r.0.query.is_some() <==> old(self).settings.enable_timer_scopes
                && timestamp_write_supported_spec(is_pass, features),
            r.0.query matches Some(q) ==> {
                &&& reserves(
                    old(self).used_pools@,
                    old(self).unused_pools@,
                    old(self).next_pool_id,
                    old(self).size_for_new_query_pools,
                    final(self).used_pools@,
                    final(self).unused_pools@,
                    final(self).next_pool_id,
                    q,
                    r.1@,
                )
                &&& q.usage_state == usage_state
                &&& q.pool_index < final(self).used_pools@.len()
                &&& final(self).used_pools@[q.pool_index as int].is_pair_of(q)
            },
            r.0.query.is_none() ==> {
                &&& final(self).used_pools == old(self).used_pools
                &&& final(self).unused_pools == old(self).unused_pools
                &&& final(self).next_pool_id == old(self).next_pool_id
                &&& r.1@.len() == 0
            },
            final(self).closed_scopes == old(self).closed_scopes,
            final(self).pending_frames == old(self).pending_frames,
            final(self).size_for_new_query_pools == old(self).size_for_new_query_pools,
            final(self).settings == old(self).settings,
            final(self).next_frame_id == old(self).next_frame_id,
    {
        let handle = self.next_scope_tree_handle();
        let (query, cmds) = if self.settings.enable_timer_scopes && timestamp_write_supported(
            is_pass,
            features,
        ) {
            let (pair, cmds) = self.reserve_query_pair();
            (Some(ReservedQueryPair { usage_state, ..pair }), cmds)
        } else {
            (None, Vec::new())
        };
        let scope = GpuTimerScope {
            label,
            pid,
            tid,
            query,
            handle,
            parent_handle: ROOT_SCOPE_HANDLE,
            has_debug_group: false,
        };
        let ghost open0 = self.open_scopes@;
        self.open_scopes.push(Self::copy_scope(&scope));
        assert(self.open_scopes@.drop_last() == open0);
        assert forall|j: int|
            0 <= j < self.open_scopes@.len() && (#[trigger] self.open_scopes@[j]).query.is_some() implies {
            let q = self.open_scopes@[j].query->0;
            &&& q.pool_index < self.used_pools@.len()
            &&& self.used_pools@[q.pool_index as int].is_pair_of(q)
            &&& (q.usage_state == QueryPairUsageState::OnlyStartWritten || q.usage_state
                == QueryPairUsageState::ReservedForPassTimestampWrites)
        } by {
            if j < open0.len() {
                assert(self.open_scopes@[j] == open0[j]);
            }
        }
        (scope, cmds)
    }

    /// Opens a scope on an encoder, or on a pass (`is_pass`). Where timer
    /// scopes are enabled and the device supports timestamps on that kind of
    /// recorder, a query pair is reserved and its start timestamp written;
    /// where debug groups are enabled, one is pushed. The commands carry out
    /// any pool creation, then the timestamp write, then the push.
    pub fn begin_scope(
        &mut self,
        label: String,
        is_pass: bool,
        features: TimerFeatures,
        pid: u32,
        tid: u64,
    ) -> (r: (GpuTimerScope, Vec<ProfilerCommand>))
        requires
            old(self).wf(),
        ensures
            final(self).wf(),
            r.0.label@ == label@,
            r.0.pid == pid,
            r.0.tid == tid,
            r.0.handle == handle_for(old(self).next_scope_handle()),
            r.0.parent_handle == ROOT_SCOPE_HANDLE,
            r.0.has_debug_group == old(self).settings().enable_debug_groups,
            final(self).next_scope_handle() == handle_for(old(self).next_scope_handle()) + 1,
            final(self).open_scopes().len() == old(self).open_scopes().len() + 1,
            final(self).open_scopes().drop_last() == old(self).open_scopes(),
            same_scope(final(self).open_scopes().last(), r.0),
            r.0.query.is_some() <==> old(self).settings().enable_timer_scopes
                && timestamp_write_supported_spec(is_pass, features),
            r.0.query matches Some(q) ==> {
                let pool = final(self).used_pools()[q.pool_index as int];
                &&& q.usage_state == QueryPairUsageState::OnlyStartWritten
                &&& q.pool_index < final(self).used_pools().len()
                &&& pool.is_pair_of(q)
                &&& q.start_query_idx + 1 < pool.capacity
                &&& exists|create: Seq<ProfilerCommand>|
                    {
                        &&& reserves(
                            old(self).used_pools(),
                            old(self).unused_pools(),
                            old(self).next_pool_id(),
                            old(self).size_for_new_query_pools(),
                            final(self).used_pools(),
                            final(self).unused_pools(),
                            final(self).next_pool_id(),
                            q,
                            create,
                        )
                        &&& r.1@ == scope_begin_commands(create, r.0)
                    }
            },
            r.0.query.is_none() ==> {
                &&& final(self).used_pools() == old(self).used_pools()
                &&& final(self).unused_pools() == old(self).unused_pools()
                &&& final(self).next_pool_id() == old(self).next_pool_id()
                &&& r.1@ == scope_begin_commands(Seq::empty(), r.0)
            },
            final(self).closed_scopes() == old(self).closed_scopes(),
            final(self).pending_frames() == old(self).pending_frames(),
            final(self).size_for_new_query_pools() == old(self).size_for_new_query_pools(),
            final(self).settings() == old(self).settings(),
            final(self).next_frame_id() == old(self).next_frame_id(),
    {
        let (mut scope, mut cmds) = self.begin_scope_internal(
            label,
            is_pass,
            features,
            pid,
            tid,
            QueryPairUsageState::OnlyStartWritten,
        );
        let ghost create = cmds@;
        match scope.query {
            Some(q) => {
                cmds.push(ProfilerCommand::WriteTimestamp { pool_id: q.pool_id, query_index: q.start_query_idx });
            },
            None => {},
        }
        if self.settings.enable_debug_groups {
            cmds.push(ProfilerCommand::PushDebugGroup);
            scope.has_debug_group = true;
            let ghost open0 = self.open_scopes@;
            let last = self.open_scopes.len() - 1;
            self.open_scopes.set(last, Self::copy_scope(&scope));
            assert(self.open_scopes@.drop_last() =~= open0.drop_last());
            assert forall|j: int|
                0 <= j < self.open_scopes@.len() && (#[trigger] self.open_scopes@[j]).query.is_some() implies {
                let q = self.open_scopes@[j].query->0;
                &&& q.pool_index < self.used_pools@.len()
                &&& self.used_pools@[q.pool_index as int].is_pair_of(q)
                &&& (q.usage_state == QueryPairUsageState::OnlyStartWritten || q.usage_state
                    == QueryPairUsageState::ReservedForPassTimestampWrites)
            } by {
                if j < last {
                    assert(self.open_scopes@[j] == open0[j]);
                } else {
                    assert(open0[j].query == scope.query);
                }
            }
        }
        assert(cmds@ == scope_begin_commands(create, scope));
        (scope, cmds)
    }

    /// Opens a scope whose query pair a render or compute pass, begun on
    /// this encoder, writes itself (see `GpuTimerScope::render_pass_timestamp_writes`).
    /// No timestamp is written and no debug group pushed; the commands only
    /// create a pool where one is needed.
    pub fn begin_pass_scope(
        &mut self,
        label: String,
        features: TimerFeatures,
        pid: u32,
        tid: u64,
    ) -> (r: (GpuTimerScope, Vec<ProfilerCommand>))
        requires
            old(self).wf(),
        ensures
            final(self).wf(),
            r.0.label@ == label@,
            r.0.pid == pid,
            r.0.tid == tid,
            r.0.handle == handle_for(old(self).next_scope_handle()),
            r.0.parent_handle == ROOT_SCOPE_HANDLE,
            !r.0.has_debug_group,
            final(self).next_scope_handle() == handle_for(old(self).next_scope_handle()) + 1,
            final(self).open_scopes().len() == old(self).open_scopes().len() + 1,
            final(self).open_scopes().drop_last() == old(self).open_scopes(),
            same_scope(final(self).open_scopes().last(), r.0),
            r.0.query.is_some() <==> old(self).settings().enable_timer_scopes
                && features.timestamp_query,
            r.0.query matches Some(q) ==> {
                let pool = final(self).used_pools()[q.pool_index as int];
                &&& q.usage_state == QueryPairUsageState::ReservedForPassTimestampWrites
                &&& q.pool_index < final(self).used_pools().len()
                &&& pool.is_pair_of(q)
                &&& q.start_query_idx + 1 < pool.capacity
                &&& reserves(
                    old(self).used_pools(),
                    old(self).unused_pools(),
                    old(self).next_pool_id(),
                    old(self).size_for_new_query_pools(),
                    final(self).used_pools(),
                    final(self).unused_pools(),
                    final(self).next_pool_id(),
                    q,
                    r.1@,
                )
            },
            r.0.query.is_none() ==> {
                &&& final(self).used_pools() == old(self).used_pools()
                &&& final(self).unused_pools() == old(self).unused_pools()
                &&& final(self).next_pool_id() == old(self).next_pool_id()
                &&& r.1@.len() == 0
            },
            final(self).closed_scopes() == old(self).closed_scopes(),
            final(self).pending_frames() == old(self).pending_frames(),
            final(self).size_for_new_query_pools() == old(self).size_for_new_query_pools(),
            final(self).settings() == old(self).settings(),
            final(self).next_frame_id() == old(self).next_frame_id(),
    {
        self.begin_scope_internal(
            label,
            false,
            features,
            pid,
            tid,
            QueryPairUsageState::ReservedForPassTimestampWrites,
        )
    }

    /// Closes the open scope with `scope`'s handle: writes its end timestamp
    /// where the profiler wrote its start, pops its debug group, and files it
    /// among the frame's closed scopes under `scope.parent_handle`. Fails,
    /// changing nothing, where no open scope has that handle, or where the
    /// first one that has it holds another query pair than `scope`; so a
    /// pair that is merely reserved or already closed is refused.
    pub fn end_scope(&mut self, scope: GpuTimerScope) -> (r: Result<Vec<ProfilerCommand>, ScopeError>)
        requires
            old(self).wf(),
        ensures
            final(self).wf(),
            (forall|j: int|
                0 <= j < old(self).open_scopes().len() ==> (#[trigger] old(self).open_scopes()[j]).handle
                    != scope.handle) ==> r == Err::<Vec<ProfilerCommand>, ScopeError>(
                ScopeError::NoOpenScope,
            ) && *final(self) == *old(self),
            forall|i: int|
                is_first_open(old(self).open_scopes(), scope.handle, i) && old(self).open_scopes()[i].query
                    != scope.query ==> r == Err::<Vec<ProfilerCommand>, ScopeError>(ScopeError::NoOpenScope)
                    && *final(self) == *old(self),
            scope.query matches Some(q) && (q.usage_state == QueryPairUsageState::Reserved
                || q.usage_state == QueryPairUsageState::BothStartAndEndWritten) ==> r == Err::<
                Vec<ProfilerCommand>,
                ScopeError,
            >(ScopeError::NoOpenScope) && *final(self) == *old(self),
            forall|i: int|
                is_first_open(old(self).open_scopes(), scope.handle, i) && old(self).open_scopes()[i].query
                    == scope.query ==> (r matches Ok(cmds) && {
                    let rec = old(self).open_scopes()[i];
                    let c = final(self).closed_scopes().last();
                    &&& cmds@ == end_commands(rec)
                    &&& final(self).open_scopes() == old(self).open_scopes().remove(i)
                    &&& final(self).closed_scopes().len() == old(self).closed_scopes().len() + 1
                    &&& final(self).closed_scopes().drop_last() == old(self).closed_scopes()
                    &&& c.label@ == rec.label@
                    &&& c.pid == rec.pid
                    &&& c.tid == rec.tid
                    &&& c.handle == rec.handle
                    &&& c.has_debug_group == rec.has_debug_group
                    &&& c.query == closed_query(rec.query)
                    &&& c.parent_handle == scope.parent_handle
                    &&& final(self).used_pools() == old(self).used_pools()
                    &&& final(self).unused_pools() == old(self).unused_pools()
                    &&& final(self).pending_frames() == old(self).pending_frames()
                    &&& final(self).next_scope_handle() == old(self).next_scope_handle()
                    &&& final(self).size_for_new_query_pools() == old(self).size_for_new_query_pools()
                    &&& final(self).settings() == old(self).settings()
                    &&& final(self).next_pool_id() == old(self).next_pool_id()
                    &&& final(self).next_frame_id() == old(self).next_frame_id()
                }),
    {
        let mut i: usize = 0;
        while i < self.open_scopes.len()
            invariant
                i <= self.open_scopes@.len(),
                forall|j: int| 0 <= j < i ==> (#[trigger] self.open_scopes@[j]).handle != scope.handle,
            ensures
                i <= self.open_scopes@.len(),
                i < self.open_scopes@.len() ==> self.open_scopes@[i as int].handle == scope.handle,
                forall|j: int| 0 <= j < i ==> (#[trigger] self.open_scopes@[j]).handle != scope.handle,
            decreases self.open_scopes@.len() - i,
        {
            if self.open_scopes[i].handle == scope.handle {
                break;
            }
            i = i + 1;
        }
        if i == self.open_scopes.len() {
            return Err(ScopeError::NoOpenScope);
        }
        assert(is_first_open(self.open_scopes@, scope.handle, i as int));
        if !Self::same_query(&self.open_scopes[i].query, &scope.query) {
            return Err(ScopeError::NoOpenScope);
        }
        let ghost open0 = self.open_scopes@;
        let rec = self.open_scopes.remove(i);
        let mut cmds: Vec<ProfilerCommand> = Vec::new();
        let query = match rec.query {
            Some(q) => {
                if q.usage_state == QueryPairUsageState::OnlyStartWritten {
                    assert(self.used_pools@[q.pool_index as int].is_pair_of(q));
                    cmds.push(
                        ProfilerCommand::WriteTimestamp {
                            pool_id: q.pool_id,
                            query_index: q.start_query_idx + 1,
                        },
                    );
                    Some(
                        ReservedQueryPair {
                            usage_state: QueryPairUsageState::BothStartAndEndWritten,
                            ..q
                        },
                    )
                } else {
                    Some(q)
                }
            },
            None => None,
        };
        if rec.has_debug_group {
            cmds.push(ProfilerCommand::PopDebugGroup);
        }
        assert(cmds@ == end_commands(rec));
        let ghost closed0 = self.closed_scopes@;
        self.closed_scopes.push(
            GpuTimerScope {
                label: rec.label,
                pid: rec.pid,
                tid: rec.tid,
                query,
                handle: rec.handle,
                parent_handle: scope.parent_handle,
                has_debug_group: rec.has_debug_group,
            },
        );
        assert(self.closed_scopes@.drop_last() == closed0);
        assert forall|j: int|
            0 <= j < self.open_scopes@.len() && (#[trigger] self.open_scopes@[j]).query.is_some() implies {
            let q = self.open_scopes@[j].query->0;
            &&& q.pool_index < self.used_pools@.len()
            &&& self.used_pools@[q.pool_index as int].is_pair_of(q)
            &&& (q.usage_state == QueryPairUsageState::OnlyStartWritten || q.usage_state
                == QueryPairUsageState::ReservedForPassTimestampWrites)
        } by {
            if j < i {
                assert(self.open_scopes@[j] == open0[j]);
            } else {
                assert(self.open_scopes@[j] == open0[j + 1]);
            }
        }
        assert forall|j: int|
            0 <= j < self.closed_scopes@.len() && (#[trigger] self.closed_scopes@[j]).query.is_some() implies {
            let q = self.closed_scopes@[j].query->0;
            &&& q.pool_index < self.used_pools@.len()
            &&& self.used_pools@[q.pool_index as int].is_pair_of(q)
        } by {
            if j < closed0.len() {
                assert(self.closed_scopes@[j] == closed0[j]);
            } else {
                assert(open0[i as int] == rec);
            }
        }
        Ok(cmds)
    }

    /// Resolves every used but unresolved slot of the active frame's pools.
    /// With nothing new to resolve, it hands out no command.
    pub fn resolve_queries(&mut self) -> (r: Vec<ProfilerCommand>)
        requires
            old(self).wf(),
        ensures
            final(self).wf(),
            r@ == resolve_commands(old(self).used_pools()),
            final(self).used_pools() == resolved_pools(old(self).used_pools()),
            final(self).unused_pools() == old(self).unused_pools(),
            final(self).closed_scopes() == old(self).closed_scopes(),
            final(self).open_scopes() == old(self).open_scopes(),
            final(self).pending_frames() == old(self).pending_frames(),
            final(self).next_scope_handle() == old(self).next_scope_handle(),
            final(self).size_for_new_query_pools() == old(self).size_for_new_query_pools(),
            final(self).settings() == old(self).settings(),
            final(self).next_pool_id() == old(self).next_pool_id(),
            final(self).next_frame_id() == old(self).next_frame_id(),
    {
        let ghost used0 = self.used_pools@;
        let mut cmds: Vec<ProfilerCommand> = Vec::new();
        let mut i: usize = 0;
        while i < self.used_pools.len()
            invariant
                i <= self.used_pools@.len(),
                self.used_pools@.len() == used0.len(),
                all_wf(used0),
                forall|j: int| 0 <= j < i ==> #[trigger] self.used_pools@[j] == used0[j].resolved_spec(),
                forall|j: int| i <= j < used0.len() ==> #[trigger] self.used_pools@[j] == used0[j],
                cmds@ == resolve_commands(used0.take(i as int)),
                self.unused_pools == old(self).unused_pools,
                self.closed_scopes == old(self).closed_scopes,
                self.open_scopes == old(self).open_scopes,
                self.pending_frames == old(self).pending_frames,
                self.next_scope_handle == old(self).next_scope_handle,
                self.size_for_new_query_pools == old(self).size_for_new_query_pools,
                self.settings == old(self).settings,
                self.next_pool_id == old(self).next_pool_id,
                self.next_frame_id == old(self).next_frame_id,
            decreases used0.len() - i,
        {
            assert(used0.take(i as int + 1).drop_last() == used0.take(i as int));
            assert(used0.take(i as int + 1).last() == used0[i as int]);
            let mut pool = self.used_pools[i];
            assert(pool.wf());
            if pool.num_resolved_queries < pool.num_used_queries {
                cmds.push(
                    ProfilerCommand::ResolveQueries {
                        pool_id: pool.id,
                        first_query: pool.num_resolved_queries,
                        end_query: pool.num_used_queries,
                    },
                );
                pool.num_resolved_queries = pool.num_used_queries;
            }
            self.used_pools.set(i, pool);
            i = i + 1;
        }
        assert(used0.take(used0.len() as int) == used0);
        assert(self.used_pools@ =~= resolved_pools(used0));
        assert forall|j: int| 0 <= j < self.used_pools@.len() implies #[trigger] self.used_pools@[j].wf() by {
            assert(used0[j].wf());
        }
        proof {
            lemma_pairs_valid_grow(self.closed_scopes@, used0, self.used_pools@);
            lemma_pairs_valid_grow(self.open_scopes@, used0, self.used_pools@);
        }
        cmds
    }

    /// Ends the active frame. Fails, changing nothing, while scopes are open
    /// or slots are unresolved. Otherwise raises the size for new pools to
    /// the slots this frame used, evicts the newest pending frames while the
    /// bound is reached, and queues the frame, handing out the commands that
    /// give back the evicted pools and then map the frame's buffers.
    pub fn end_frame(&mut self) -> (r: Result<Vec<ProfilerCommand>, EndFrameError>)
        requires
            old(self).wf(),
        ensures
            final(self).wf(),
            old(self).open_scopes().len() > 0 ==> (r matches Err(EndFrameError::UnclosedScopes(labels))
                && string_views(labels@) == open_labels(old(self).open_scopes())),
            old(self).open_scopes().len() == 0 && !all_resolved(old(self).used_pools()) ==> r == Err::<
                Vec<ProfilerCommand>,
                EndFrameError,
            >(
                EndFrameError::UnresolvedQueries(
                    min_int(total_unresolved(old(self).used_pools()), u32::MAX as int) as u32,
                ),
            ),
            r matches Err(EndFrameError::UnresolvedQueries(n)) ==> n > 0,
            r.is_err() ==> *final(self) == *old(self),
            r.is_ok() <==> old(self).open_scopes().len() == 0 && all_resolved(old(self).used_pools()),
            r matches Ok(cmds) ==> {
                let size2 = new_watermark(old(self).size_for_new_query_pools(), old(self).used_pools());
                let keep = kept_frame_count(
                    old(self).pending_frames().len() as int,
                    old(self).settings().max_num_pending_frames as int,
                );
                let evicted = evicted_pools(
                    old(self).pending_frames().subrange(keep, old(self).pending_frames().len() as int),
                );
                let enabled = old(self).settings().enable_timer_scopes;
                let f = final(self).pending_frames().last();
                &&& final(self).size_for_new_query_pools() == size2
                &&& final(self).pending_frames().len() == keep + 1
                &&& final(self).pending_frames().drop_last() == old(self).pending_frames().take(keep)
                &&& f.id == old(self).next_frame_id()
                &&& f.query_pools@ == old(self).used_pools()
                &&& f.closed_scopes@ == old(self).closed_scopes()
                &&& f.mapped_buffers == 0
                &&& final(self).unused_pools() == old(self).unused_pools() + kept_pools(evicted, enabled, size2 / 2)
                &&& cmds@ == reclaim_commands(evicted, enabled, size2 / 2) + map_commands(
                    old(self).used_pools(),
                    old(self).next_frame_id(),
                )
                &&& final(self).used_pools().len() == 0
                &&& final(self).closed_scopes().len() == 0
                &&& final(self).open_scopes().len() == 0
                &&& final(self).next_frame_id() == next_id(old(self).next_frame_id())
                &&& final(self).next_scope_handle() == old(self).next_scope_handle()
                &&& final(self).settings() == old(self).settings()
                &&& final(self).next_pool_id() == old(self).next_pool_id()
            },
    {
        if self.open_scopes.len() != 0 {
            let mut labels: Vec<String> = Vec::new();
            let mut i: usize = 0;
            while i < self.open_scopes.len()
                invariant
                    i <= self.open_scopes@.len(),
                    labels@.len() == i,
                    forall|j: int| 0 <= j < i ==> (#[trigger] labels@[j])@ == self.open_scopes@[j].label@,
                decreases self.open_scopes@.len() - i,
            {
                labels.push(self.open_scopes[i].label.clone());
                i = i + 1;
            }
            assert(string_views(labels@) =~= open_labels(self.open_scopes@));
            return Err(EndFrameError::UnclosedScopes(labels));
        }
        let unresolved = saturating_total_unresolved(&self.used_pools);
        proof {
            lemma_unresolved_zero(self.used_pools@);
        }
        if unresolved != 0 {
            return Err(EndFrameError::UnresolvedQueries(unresolved));
        }
        let used_total = capped_total_used(&self.used_pools);
        proof {
            lemma_total_used_even(self.used_pools@);
        }
        if used_total > self.size_for_new_query_pools {
            self.size_for_new_query_pools = used_total;
        }
        let mut cmds = self.evict_pending_frames();
        let mut pools: Vec<QueryPool> = Vec::new();
        std::mem::swap(&mut pools, &mut self.used_pools);
        let mut closed: Vec<GpuTimerScope> = Vec::new();
        std::mem::swap(&mut closed, &mut self.closed_scopes);
        let id = self.next_frame_id;
        self.next_frame_id = if id == u64::MAX {
            0
        } else {
            id + 1
        };
        let ghost cmds0 = cmds@;
        let mut i: usize = 0;
        while i < pools.len()
            invariant
                i <= pools@.len(),
                cmds@ == cmds0 + map_commands(pools@.take(i as int), id),
            decreases pools@.len() - i,
        {
            cmds.push(
                ProfilerCommand::MapReadBuffer {
                    pool_id: pools[i].id,
                    frame_id: id,
                    num_queries: pools[i].num_used_queries,
                },
            );
            i = i + 1;
            assert(map_commands(pools@.take(i as int), id) =~= map_commands(pools@.take(i - 1), id).push(
                cmds@.last(),
            ));
        }
        assert(pools@.take(pools@.len() as int) == pools@);
        let ghost pending1 = self.pending_frames@;
        self.pending_frames.push(
            PendingFrame { id, query_pools: pools, closed_scopes: closed, mapped_buffers: 0 },
        );
        assert(self.pending_frames@.drop_last() == pending1);
        assert forall|i: int| 0 <= i < self.pending_frames@.len() implies (
        #[trigger] self.pending_frames@[i]).wf() by {
            if i < pending1.len() {
                assert(self.pending_frames@[i] == pending1[i]);
            }
        }
        Ok(cmds)
    }

    /// Drops the newest pending frames until a new one fits under the bound,
    /// giving back their pools.
    fn evict_pending_frames(&mut self) -> (r: Vec<ProfilerCommand>)
        requires
            old(self).wf(),
        ensures
            final(self).wf(),
            ({
                let n = old(self).pending_frames@.len() as int;
                let keep = kept_frame_count(n, old(self).settings.max_num_pending_frames as int);
                let evicted = evicted_pools(old(self).pending_frames@.subrange(keep, n));
                let enabled = old(self).settings.enable_timer_scopes;
                let threshold = old(self).retention_threshold();
                &&& final(self).pending_frames@ == old(self).pending_frames@.take(keep)
                &&& final(self).unused_pools@ == old(self).unused_pools@ + kept_pools(evicted, enabled, threshold)
                &&& r@ == reclaim_commands(evicted, enabled, threshold)
            }),
            final(self).used_pools == old(self).used_pools,
            final(self).closed_scopes == old(self).closed_scopes,
            final(self).open_scopes == old(self).open_scopes,
            final(self).next_scope_handle == old(self).next_scope_handle,
            final(self).size_for_new_query_pools == old(self).size_for_new_query_pools,
            final(self).settings == old(self).settings,
            final(self).next_pool_id == old(self).next_pool_id,
            final(self).next_frame_id == old(self).next_frame_id,
    {
        let ghost old_pending = self.pending_frames@;
        let ghost n = old_pending.len() as int;
        let ghost enabled = self.settings.enable_timer_scopes;
        let ghost threshold = self.retention_threshold();
        let ghost unused1 = self.unused_pools@;
        let mut cmds: Vec<ProfilerCommand> = Vec::new();
        assert(old_pending.subrange(n, n).len() == 0);
        assert(old_pending.take(n) =~= old_pending);
        while self.pending_frames.len() >= self.settings.max_num_pending_frames
            invariant
                self.wf(),
                n == old_pending.len(),
                old_pending == old(self).pending_frames@,
                unused1 == old(self).unused_pools@,
                self.pending_frames@.len() <= n,
                self.pending_frames@ == old_pending.take(self.pending_frames@.len() as int),
                self.pending_frames@.len() >= kept_frame_count(n, self.settings.max_num_pending_frames as int),
                self.unused_pools@ == unused1 + kept_pools(
                    evicted_pools(old_pending.subrange(self.pending_frames@.len() as int, n)),
                    enabled,
                    threshold,
                ),
                cmds@ == reclaim_commands(
                    evicted_pools(old_pending.subrange(self.pending_frames@.len() as int, n)),
                    enabled,
                    threshold,
                ),
                forall|i: int| 0 <= i < n ==> (#[trigger] old_pending[i]).wf(),
                enabled == self.settings.enable_timer_scopes,
                threshold == self.retention_threshold(),
                self.used_pools == old(self).used_pools,
                self.closed_scopes == old(self).closed_scopes,
                self.open_scopes == old(self).open_scopes,
                self.next_scope_handle == old(self).next_scope_handle,
                self.size_for_new_query_pools == old(self).size_for_new_query_pools,
                self.settings == old(self).settings,
                self.next_pool_id == old(self).next_pool_id,
                self.next_frame_id == old(self).next_frame_id,
            decreases self.pending_frames@.len(),
        {
            let ghost k = self.pending_frames@.len() as int;
            assert(self.pending_frames@[k - 1] == old_pending[k - 1]);
            match self.pending_frames.pop() {
                Some(frame) => {
                    assert(frame.wf());
                    let ghost sub = old_pending.subrange(k - 1, n);
                    assert(sub.drop_first() =~= old_pending.subrange(k, n));
                    assert(sub.first() == frame);
                    let ghost e0 = evicted_pools(old_pending.subrange(k, n));
                    proof {
                        lemma_kept_pools_append(e0, frame.query_pools@, enabled, threshold);
                    }
                    assert(self.pending_frames@ =~= old_pending.take(k - 1));
                    let mut more = self.reset_and_cache_unused_query_pools(frame.query_pools);
                    cmds.append(&mut more);
                },
                None => {},
            }
        }
        cmds
    }

    /// Records that one readable buffer of the pending frame `frame_id` was
    /// mapped. A frame that was evicted, or whose buffers are all counted
    /// already, is left as it is.
    pub fn notify_buffer_mapped(&mut self, frame_id: u64)
        requires
            old(self).wf(),
        ensures
            final(self).wf(),
            (forall|j: int|
                0 <= j < old(self).pending_frames().len() ==> (#[trigger] old(self).pending_frames()[j]).id
                    != frame_id) ==> *final(self) == *old(self),
            forall|i: int|
                is_first_frame(old(self).pending_frames(), frame_id, i) ==> {
                    let f = old(self).pending_frames()[i];
                    &&& f.mapped_buffers < f.query_pools@.len() ==> final(self).pending_frames()
                        == old(self).pending_frames().update(
                        i,
                        PendingFrame { mapped_buffers: (f.mapped_buffers + 1) as usize, ..f },
                    )
                    &&& f.mapped_buffers >= f.query_pools@.len() ==> final(self).pending_frames()
                        == old(self).pending_frames()
                    &&& final(self).unused_pools() == old(self).unused_pools()
                    &&& final(self).used_pools() == old(self).used_pools()
                    &&& final(self).closed_scopes() == old(self).closed_scopes()
                    &&& final(self).open_scopes() == old(self).open_scopes()
                    &&& final(self).next_scope_handle() == old(self).next_scope_handle()
                    &&& final(self).size_for_new_query_pools() == old(self).size_for_new_query_pools()
                    &&& final(self).settings() == old(self).settings()
                    &&& final(self).next_pool_id() == old(self).next_pool_id()
                    &&& final(self).next_frame_id() == old(self).next_frame_id()
                },
    {
        let mut i: usize = 0;
        while i < self.pending_frames.len()
            invariant
                i <= self.pending_frames@.len(),
                forall|j: int| 0 <= j < i ==> (#[trigger] self.pending_frames@[j]).id != frame_id,
            ensures
                i <= self.pending_frames@.len(),
                i < self.pending_frames@.len() ==> self.pending_frames@[i as int].id == frame_id,
                forall|j: int| 0 <= j < i ==> (#[trigger] self.pending_frames@[j]).id != frame_id,
            decreases self.pending_frames@.len() - i,
        {
            if self.pending_frames[i].id == frame_id {
                break;
            }
            i = i + 1;
        }
        if i == self.pending_frames.len() {
            return;
        }
        assert(old(self).pending_frames()[i as int].id == frame_id);
        if self.pending_frames[i].mapped_buffers >= self.pending_frames[i].query_pools.len() {
            return;
        }
        let ghost pending0 = self.pending_frames@;
        let mut frame = self.pending_frames.remove(i);
        frame.mapped_buffers = frame.mapped_buffers + 1;
        self.pending_frames.insert(i, frame);
        assert(self.pending_frames@ =~= pending0.update(
            i as int,
            PendingFrame { mapped_buffers: (pending0[i as int].mapped_buffers + 1) as usize, ..pending0[i as int] },
        ));
        assert forall|j: int| 0 <= j < self.pending_frames@.len() implies (#[trigger] self.pending_frames@[j]).wf() by {
            if j != i {
                assert(self.pending_frames@[j] == pending0[j]);
            } else {
                assert(pending0[j].wf());
            }
        }
    }

    /// The pools of the oldest pending frame, once all its buffers are mapped.
    pub fn finished_frame_pools(&self) -> (r: Option<Vec<QueryPool>>)
        ensures
            r.is_some() <==> self.pending_frames().len() > 0 && self.pending_frames()[0].is_ready(),
            r matches Some(v) ==> v@ == self.pending_frames()[0].query_pools@,
    {
        if self.pending_frames.len() == 0 {
            return None;
        }
        let frame = &self.pending_frames[0];
        if frame.mapped_buffers != frame.query_pools.len() {
            return None;
        }
        let mut v: Vec<QueryPool> = Vec::new();
        let mut i: usize = 0;
        while i < frame.query_pools.len()
            invariant
                i <= frame.query_pools@.len(),
                v@ == frame.query_pools@.take(i as int),
            decreases frame.query_pools@.len() - i,
        {
            v.push(frame.query_pools[i]);
            i = i + 1;
            assert(v@ =~= frame.query_pools@.take(i as int));
        }
        assert(frame.query_pools@.take(i as int) =~= frame.query_pools@);
        Some(v)
    }

    /// Takes the results of the oldest pending frame, given the contents of
    /// its mapped readable buffers, one per pool in order. Returns nothing,
    /// changing nothing, while that frame's buffers are not all mapped or a
    /// buffer is shorter than its pool's used slots. Otherwise the frame
    /// leaves the queue, its pools are given back, and the results form the
    /// tree of its closed scopes.
    pub fn process_finished_frame(&mut self, mapped: &Vec<Vec<u8>>) -> (r: Option<
        (Vec<GpuTimerScopeResult>, Vec<ProfilerCommand>),
    >)
        requires
            old(self).wf(),
        ensures
            final(self).wf(),
            ({
                let ready = old(self).pending_frames().len() > 0 && old(self).pending_frames()[0].is_ready()
                    && data_fits(old(self).pending_frames()[0].query_pools@, buffer_bytes(mapped@));
                &&& !ready ==> r.is_none() && *final(self) == *old(self)
                &&& ready ==> (r matches Some((results, cmds)) && {
                    let f = old(self).pending_frames()[0];
                    let enabled = old(self).settings().enable_timer_scopes;
                    let threshold = old(self).retention_threshold();
                    &&& result_nodes(results@) == forest(
                        f.closed_scopes@,
                        buffer_bytes(mapped@),
                        ROOT_SCOPE_HANDLE,
                        f.closed_scopes@.len(),
                    )
                    &&& final(self).pending_frames() == old(self).pending_frames().drop_first()
                    &&& final(self).unused_pools() == old(self).unused_pools() + kept_pools(
                        f.query_pools@,
                        enabled,
                        threshold,
                    )
                    &&& cmds@ == reclaim_commands(f.query_pools@, enabled, threshold)
                    &&& final(self).used_pools() == old(self).used_pools()
                    &&& final(self).closed_scopes() == old(self).closed_scopes()
                    &&& final(self).open_scopes() == old(self).open_scopes()
                    &&& final(self).next_scope_handle() == old(self).next_scope_handle()
                    &&& final(self).size_for_new_query_pools() == old(self).size_for_new_query_pools()
                    &&& final(self).settings() == old(self).settings()
                    &&& final(self).next_pool_id() == old(self).next_pool_id()
                    &&& final(self).next_frame_id() == old(self).next_frame_id()
                })
            }),
    {
        if self.pending_frames.len() == 0 {
            return None;
        }
        let ghost bytes = buffer_bytes(mapped@);
        {
            let frame = &self.pending_frames[0];
            if frame.mapped_buffers != frame.query_pools.len() {
                return None;
            }
            if mapped.len() != frame.query_pools.len() {
                return None;
            }
            let mut i: usize = 0;
            while i < frame.query_pools.len()
                invariant
                    *self == *old(self),
                    self.wf(),
                    self.pending_frames@.len() > 0,
                    *frame == self.pending_frames@[0],
                    i <= frame.query_pools@.len(),
                    mapped@.len() == frame.query_pools@.len(),
                    all_wf(frame.query_pools@),
                    bytes == buffer_bytes(mapped@),
                    forall|j: int|
                        0 <= j < i ==> #[trigger] frame.query_pools@[j].num_used_queries * QUERY_SIZE
                            <= bytes[j].len(),
                decreases frame.query_pools@.len() - i,
            {
                assert(frame.query_pools@[i as int].wf());
                if mapped[i].len() < frame.query_pools[i].num_used_queries as usize * QUERY_SIZE as usize {
                    assert(!data_fits(frame.query_pools@, bytes));
                    return None;
                }
                i = i + 1;
            }
            assert(data_fits(frame.query_pools@, bytes));
        }
        let ghost pending0 = self.pending_frames@;
        let frame = self.pending_frames.remove(0);
        assert(frame.wf());
        assert forall|i: int|
            0 <= i < frame.closed_scopes@.len() && (#[trigger] frame.closed_scopes@[i]).query.is_some() implies {
            let q = frame.closed_scopes@[i].query->0;
            &&& q.pool_index < bytes.len()
            &&& (q.start_query_idx + 2) * QUERY_SIZE <= bytes[q.pool_index as int].len()
        } by {
            let q = frame.closed_scopes@[i].query->0;
            assert(frame.query_pools@[q.pool_index as int].is_pair_of(q));
        }
        let results = build_forest(
            &frame.closed_scopes,
            mapped,
            ROOT_SCOPE_HANDLE,
            frame.closed_scopes.len(),
        );
        assert forall|j: int| 0 <= j < self.pending_frames@.len() implies (#[trigger] self.pending_frames@[j]).wf() by {
            assert(self.pending_frames@[j] == pending0[j + 1]);
        }
        let cmds = self.reset_and_cache_unused_query_pools(frame.query_pools);
        Some((results, cmds))
    }
}


/// The two slots of `q`, an even start and start + 1, both lie below the
/// capacity of the pool it names in `pools`.
pub open spec fn pair_in_pool(q: ReservedQueryPair, pools: Seq<QueryPool>) -> bool {
    &&& q.pool_index < pools.len()
    &&& pools[q.pool_index as int].id == q.pool_id
    &&& q.start_query_idx % 2 == 0
    &&& q.start_query_idx + 1 < pools[q.pool_index as int].capacity
}

/// Every reserved query pair, of an open scope, of a scope closed in the
/// active frame or of a scope of a pending frame, holds two consecutive
/// slots of one pool, both within its capacity.
pub proof fn lemma_pairs_within_pools(p: GpuProfiler)
    requires
        p.wf(),
    ensures
        forall|i: int|
            0 <= i < p.open_scopes().len() && (#[trigger] p.open_scopes()[i]).query.is_some()
                ==> pair_in_pool(p.open_scopes()[i].query->0, p.used_pools()),
        forall|i: int|
            0 <= i < p.closed_scopes().len() && (#[trigger] p.closed_scopes()[i]).query.is_some()
                ==> pair_in_pool(p.closed_scopes()[i].query->0, p.used_pools()),
        forall|f: int, i: int|
            0 <= f < p.pending_frames().len() && 0 <= i < p.pending_frames()[f].closed_scopes@.len()
                && (#[trigger] p.pending_frames()[f].closed_scopes@[i]).query.is_some() ==> pair_in_pool(
                p.pending_frames()[f].closed_scopes@[i].query->0,
                p.pending_frames()[f].query_pools@,
            ),
{
    assert forall|i: int|
        0 <= i < p.open_scopes().len() && (#[trigger] p.open_scopes()[i]).query.is_some() implies pair_in_pool(
        p.open_scopes()[i].query->0,
        p.used_pools(),
    ) by {
        let q = p.open_scopes()[i].query->0;
        assert(p.used_pools()[q.pool_index as int].wf());
    }
    assert forall|i: int|
        0 <= i < p.closed_scopes().len() && (#[trigger] p.closed_scopes()[i]).query.is_some() implies pair_in_pool(
        p.closed_scopes()[i].query->0,
        p.used_pools(),
    ) by {
        let q = p.closed_scopes()[i].query->0;
        assert(p.used_pools()[q.pool_index as int].wf());
    }
    assert forall|f: int, i: int|
        0 <= f < p.pending_frames().len() && 0 <= i < p.pending_frames()[f].closed_scopes@.len()
            && (#[trigger] p.pending_frames()[f].closed_scopes@[i]).query.is_some() implies pair_in_pool(
        p.pending_frames()[f].closed_scopes@[i].query->0,
        p.pending_frames()[f].query_pools@,
    ) by {
        let fr = p.pending_frames()[f];
        assert(fr.wf());
        let q = fr.closed_scopes@[i].query->0;
        assert(fr.query_pools@[q.pool_index as int].wf());
    }
}


/// What the profiler's invariant guarantees to its callers: the settings
/// are valid, the size for new pools stays within the pool limits, every
/// pool is well formed, cached pools are empty, and every pending frame's
/// pools are resolved and its scopes' pairs lie in its pools.
pub proof fn lemma_wf_facts(p: GpuProfiler)
    requires
        p.wf(),
    ensures
        p.settings().max_num_pending_frames >= 1,
        MIN_QUERY_POOL_CAPACITY <= p.size_for_new_query_pools() <= QUERY_SET_MAX_QUERIES,
        all_wf(p.used_pools()),
        forall|i: int| 0 <= i < p.unused_pools().len() ==> is_unused_pool(#[trigger] p.unused_pools()[i]),
        scope_pairs_valid(p.closed_scopes(), p.used_pools()),
        scope_pairs_valid(p.open_scopes(), p.used_pools()),
        forall|i: int| 0 <= i < p.pending_frames().len() ==> (#[trigger] p.pending_frames()[i]).wf(),
{
}

} // verus!
