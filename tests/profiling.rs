use std::collections::HashMap;

use wgpu_profiler::{
    GpuProfiler, GpuProfilerSettings, GpuTimerScope, GpuTimerScopeResult, ProfilerCommand,
    QueryPool, TimerFeatures,
};

/// Carries out the profiler's commands on simulated query sets.
#[derive(Default)]
struct FakeGpu {
    clock: u64,
    query_sets: HashMap<u64, Vec<u64>>,
    read_buffers: HashMap<u64, Vec<u64>>,
    pending_maps: Vec<u64>,
    created: Vec<(u64, u32)>,
    destroyed: Vec<u64>,
    unmapped: Vec<u64>,
    resolves: Vec<(u64, u32, u32)>,
    debug_depth: i64,
}

impl FakeGpu {
    fn run(&mut self, cmds: Vec<ProfilerCommand>) {
        for c in cmds {
            match c {
                ProfilerCommand::CreateQueryPool { pool_id, capacity } => {
                    self.query_sets.insert(pool_id, vec![0; capacity as usize]);
                    self.read_buffers.insert(pool_id, vec![0; capacity as usize]);
                    self.created.push((pool_id, capacity));
                }
                ProfilerCommand::WriteTimestamp { pool_id, query_index } => {
                    self.write(pool_id, query_index);
                }
                ProfilerCommand::PushDebugGroup => self.debug_depth += 1,
                ProfilerCommand::PopDebugGroup => self.debug_depth -= 1,
                ProfilerCommand::ResolveQueries { pool_id, first_query, end_query } => {
                    let slots = self.query_sets[&pool_id][..end_query as usize].to_vec();
                    self.read_buffers.get_mut(&pool_id).unwrap()[..end_query as usize]
                        .copy_from_slice(&slots);
                    self.resolves.push((pool_id, first_query, end_query));
                }
                ProfilerCommand::MapReadBuffer { frame_id, .. } => self.pending_maps.push(frame_id),
                ProfilerCommand::UnmapReadBuffer { pool_id } => self.unmapped.push(pool_id),
                ProfilerCommand::DestroyQueryPool { pool_id } => {
                    self.query_sets.remove(&pool_id);
                    self.read_buffers.remove(&pool_id);
                    self.destroyed.push(pool_id);
                }
            }
        }
    }

    fn write(&mut self, pool_id: u64, query_index: u32) {
        self.clock += 10;
        self.query_sets.get_mut(&pool_id).unwrap()[query_index as usize] = self.clock;
    }

    /// The start of a pass that writes the timestamps reserved for it.
    fn begin_pass(&mut self, scope: &GpuTimerScope) {
        if let Some(w) = scope.compute_pass_timestamp_writes() {
            self.write(w.pool_id, w.beginning_of_pass_write_index);
        }
    }

    /// The end of such a pass.
    fn end_pass(&mut self, scope: &GpuTimerScope) {
        if let Some(w) = scope.compute_pass_timestamp_writes() {
            self.write(w.pool_id, w.end_of_pass_write_index);
        }
    }

    fn service_mappings(&mut self, profiler: &mut GpuProfiler) {
        for frame_id in self.pending_maps.drain(..) {
            profiler.notify_buffer_mapped(frame_id);
        }
    }

    fn mapped_bytes(&self, pools: &[QueryPool]) -> Vec<Vec<u8>> {
        pools
            .iter()
            .map(|p| {
                self.read_buffers[&p.id][..p.num_used_queries as usize]
                    .iter()
                    .flat_map(|t| t.to_le_bytes())
                    .collect()
            })
            .collect()
    }

    fn poll_frame(&mut self, profiler: &mut GpuProfiler) -> Option<Vec<GpuTimerScopeResult>> {
        let pools = profiler.finished_frame_pools()?;
        let data = self.mapped_bytes(&pools);
        let (results, cmds) = profiler.process_finished_frame(&data)?;
        self.run(cmds);
        Some(results)
    }
}

const ALL: TimerFeatures = TimerFeatures { timestamp_query: true, timestamp_query_inside_passes: true };
const NO_PASSES: TimerFeatures = TimerFeatures { timestamp_query: true, timestamp_query_inside_passes: false };
const NONE: TimerFeatures = TimerFeatures { timestamp_query: false, timestamp_query_inside_passes: false };

fn open(
    profiler: &mut GpuProfiler,
    gpu: &mut FakeGpu,
    label: &str,
    parent: Option<&GpuTimerScope>,
    is_pass: bool,
    features: TimerFeatures,
) -> GpuTimerScope {
    let (scope, cmds) = profiler.begin_scope(label.to_string(), is_pass, features, 1, 7);
    gpu.run(cmds);
    scope.with_parent(parent)
}

fn close(profiler: &mut GpuProfiler, gpu: &mut FakeGpu, scope: GpuTimerScope) {
    let cmds = profiler.end_scope(scope).unwrap();
    gpu.run(cmds);
}

fn finish_frame(profiler: &mut GpuProfiler, gpu: &mut FakeGpu) {
    let cmds = profiler.resolve_queries();
    gpu.run(cmds);
    let cmds = profiler.end_frame().unwrap();
    gpu.run(cmds);
}

/// The labels of a result tree, children in parentheses.
fn shape(results: &[GpuTimerScopeResult]) -> String {
    results
        .iter()
        .map(|r| {
            if r.nested_scopes.is_empty() {
                r.label.clone()
            } else {
                format!("{}({})", r.label, shape(&r.nested_scopes))
            }
        })
        .collect::<Vec<_>>()
        .join(",")
}

fn all_ordered(results: &[GpuTimerScopeResult]) -> bool {
    results.iter().all(|r| {
        r.start_ticks < r.end_ticks
            && r.nested_scopes.iter().all(|c| r.start_ticks < c.start_ticks && c.end_ticks < r.end_ticks)
            && all_ordered(&r.nested_scopes)
    })
}

#[test]
fn nested_scope_result_tree() {
    let mut profiler = GpuProfiler::new(GpuProfilerSettings::default()).unwrap();
    let mut gpu = FakeGpu::default();
    let x = open(&mut profiler, &mut gpu, "x", None, false, ALL);
    let y = open(&mut profiler, &mut gpu, "y", Some(&x), false, ALL);
    close(&mut profiler, &mut gpu, y);
    close(&mut profiler, &mut gpu, x);
    finish_frame(&mut profiler, &mut gpu);
    gpu.service_mappings(&mut profiler);
    let results = gpu.poll_frame(&mut profiler).unwrap();
    assert_eq!(results.len(), 1);
    assert_eq!(results[0].label, "x");
    assert_eq!(results[0].nested_scopes.len(), 1);
    assert_eq!(results[0].nested_scopes[0].label, "y");
    assert!(results[0].nested_scopes[0].nested_scopes.is_empty());
    // x began at tick 10, y at 20, y ended at 30, x at 40.
    assert_eq!((results[0].start_ticks, results[0].end_ticks), (10, 40));
    assert_eq!((results[0].nested_scopes[0].start_ticks, results[0].nested_scopes[0].end_ticks), (20, 30));
    assert_eq!(gpu.debug_depth, 0);
}

#[test]
fn interleaved_scopes() {
    let mut profiler = GpuProfiler::new(GpuProfilerSettings::default()).unwrap();
    let mut gpu = FakeGpu::default();
    let e0_s0 = open(&mut profiler, &mut gpu, "e0_s0", None, false, NO_PASSES);
    let e1_s0 = open(&mut profiler, &mut gpu, "e1_s0", None, false, NO_PASSES);
    let s = open(&mut profiler, &mut gpu, "e0_s0_s0", Some(&e0_s0), false, NO_PASSES);
    close(&mut profiler, &mut gpu, s);
    let s = open(&mut profiler, &mut gpu, "e0_s0_s1", Some(&e0_s0), false, NO_PASSES);
    close(&mut profiler, &mut gpu, s);
    let s = open(&mut profiler, &mut gpu, "e1_s0_s0", Some(&e1_s0), false, NO_PASSES);
    close(&mut profiler, &mut gpu, s);
    close(&mut profiler, &mut gpu, e1_s0);
    close(&mut profiler, &mut gpu, e0_s0);
    finish_frame(&mut profiler, &mut gpu);
    gpu.service_mappings(&mut profiler);
    let results = gpu.poll_frame(&mut profiler).unwrap();
    assert_eq!(shape(&results), "e1_s0(e1_s0_s0),e0_s0(e0_s0_s0,e0_s0_s1)");
}

fn nested_scopes(features: TimerFeatures) -> String {
    let mut profiler = GpuProfiler::new(GpuProfilerSettings::default()).unwrap();
    let mut gpu = FakeGpu::default();

    let outer = open(&mut profiler, &mut gpu, "e0_s0", None, false, features);
    {
        let (c0, cmds) = profiler.begin_pass_scope("e0_s0_c0".to_string(), features, 1, 7);
        gpu.run(cmds);
        let c0 = c0.with_parent(Some(&outer));
        gpu.begin_pass(&c0);
        gpu.end_pass(&c0);
        close(&mut profiler, &mut gpu, c0);

        let (c1, cmds) = profiler.begin_pass_scope("e0_s0_c1".to_string(), features, 1, 7);
        gpu.run(cmds);
        let c1 = c1.with_parent(Some(&outer));
        gpu.begin_pass(&c1);
        let s0 = open(&mut profiler, &mut gpu, "e0_s0_c1_s0", Some(&c1), true, features);
        close(&mut profiler, &mut gpu, s0);
        let s1 = open(&mut profiler, &mut gpu, "e0_s0_c1_s1", Some(&c1), true, features);
        let s1_s0 = open(&mut profiler, &mut gpu, "e0_s0_c1_s1_s0", Some(&s1), true, features);
        let s1_s0_s0 = open(&mut profiler, &mut gpu, "e0_s0_c1_s1_s0_s0", Some(&s1_s0), true, features);
        close(&mut profiler, &mut gpu, s1_s0_s0);
        close(&mut profiler, &mut gpu, s1_s0);
        close(&mut profiler, &mut gpu, s1);
        gpu.end_pass(&c1);
        close(&mut profiler, &mut gpu, c1);
    }
    close(&mut profiler, &mut gpu, outer);

    let e1 = open(&mut profiler, &mut gpu, "e1_s0", None, false, features);
    let s = open(&mut profiler, &mut gpu, "e1_s0_s0", Some(&e1), false, features);
    close(&mut profiler, &mut gpu, s);
    let s = open(&mut profiler, &mut gpu, "e1_s0_s1", Some(&e1), false, features);
    close(&mut profiler, &mut gpu, s);
    let s2 = open(&mut profiler, &mut gpu, "e1_s0_s2", Some(&e1), false, features);
    let s = open(&mut profiler, &mut gpu, "e1_s0_s2_s0", Some(&s2), false, features);
    close(&mut profiler, &mut gpu, s);
    close(&mut profiler, &mut gpu, s2);
    close(&mut profiler, &mut gpu, e1);

    let s = open(&mut profiler, &mut gpu, "e2_s0", None, false, features);
    close(&mut profiler, &mut gpu, s);

    // Timer scopes switched off on the fly: the next scopes carry no timing.
    let cmds = profiler
        .change_settings(GpuProfilerSettings { enable_timer_scopes: false, ..Default::default() })
        .unwrap();
    gpu.run(cmds);
    let e2_s1 = open(&mut profiler, &mut gpu, "e2_s1", None, false, features);
    let s = open(&mut profiler, &mut gpu, "e2_s1_c1_s0", Some(&e2_s1), true, features);
    close(&mut profiler, &mut gpu, s);
    close(&mut profiler, &mut gpu, e2_s1);

    finish_frame(&mut profiler, &mut gpu);
    gpu.service_mappings(&mut profiler);
    let results = gpu.poll_frame(&mut profiler).unwrap();
    assert!(all_ordered(&results));
    shape(&results)
}

#[test]
fn nested_scopes_all_features() {
    assert_eq!(
        nested_scopes(ALL),
        "e0_s0(e0_s0_c0,e0_s0_c1(e0_s0_c1_s0,e0_s0_c1_s1(e0_s0_c1_s1_s0(e0_s0_c1_s1_s0_s0)))),\
         e1_s0(e1_s0_s0,e1_s0_s1,e1_s0_s2(e1_s0_s2_s0)),e2_s0"
    );
}

#[test]
fn nested_scopes_no_pass_features() {
    // Scopes inside passes carry no timing; passes themselves still do.
    assert_eq!(
        nested_scopes(NO_PASSES),
        "e0_s0(e0_s0_c0,e0_s0_c1),e1_s0(e1_s0_s0,e1_s0_s1,e1_s0_s2(e1_s0_s2_s0)),e2_s0"
    );
}

#[test]
fn nested_scopes_no_features() {
    assert_eq!(nested_scopes(NONE), "");
}

#[test]
fn untimed_scope_children_move_up() {
    // Encoder scopes are unsupported, pass scopes are: the pass scope is
    // reported one level up, in place of its untimed parent.
    let features = TimerFeatures { timestamp_query: false, timestamp_query_inside_passes: true };
    let mut profiler = GpuProfiler::new(GpuProfilerSettings::default()).unwrap();
    let mut gpu = FakeGpu::default();
    let outer = open(&mut profiler, &mut gpu, "outer", None, false, features);
    assert!(outer.query.is_none());
    let inner = open(&mut profiler, &mut gpu, "inner", Some(&outer), true, features);
    let leaf = open(&mut profiler, &mut gpu, "leaf", Some(&inner), true, features);
    close(&mut profiler, &mut gpu, leaf);
    close(&mut profiler, &mut gpu, inner);
    close(&mut profiler, &mut gpu, outer);
    finish_frame(&mut profiler, &mut gpu);
    gpu.service_mappings(&mut profiler);
    let results = gpu.poll_frame(&mut profiler).unwrap();
    assert_eq!(shape(&results), "inner(leaf)");
}

#[test]
fn multiple_resolves_per_frame() {
    let mut profiler = GpuProfiler::new(GpuProfilerSettings::default()).unwrap();
    let mut gpu = FakeGpu::default();
    let s = open(&mut profiler, &mut gpu, "testscope0", None, false, ALL);
    close(&mut profiler, &mut gpu, s);
    let cmds = profiler.resolve_queries();
    assert_eq!(cmds, vec![ProfilerCommand::ResolveQueries { pool_id: 0, first_query: 0, end_query: 2 }]);
    gpu.run(cmds);
    let s = open(&mut profiler, &mut gpu, "testscope1", None, false, ALL);
    close(&mut profiler, &mut gpu, s);
    let cmds = profiler.resolve_queries();
    assert_eq!(cmds, vec![ProfilerCommand::ResolveQueries { pool_id: 0, first_query: 2, end_query: 4 }]);
    gpu.run(cmds);
    // An extra resolve with nothing new does nothing.
    assert!(profiler.resolve_queries().is_empty());
    gpu.run(profiler.end_frame().unwrap());
    gpu.service_mappings(&mut profiler);
    let results = gpu.poll_frame(&mut profiler).unwrap();
    assert_eq!(shape(&results), "testscope0,testscope1");
}

#[test]
fn second_resolve_does_no_work() {
    let mut profiler = GpuProfiler::new(GpuProfilerSettings::default()).unwrap();
    let mut gpu = FakeGpu::default();
    for label in ["a", "b", "c"] {
        let s = open(&mut profiler, &mut gpu, label, None, false, ALL);
        close(&mut profiler, &mut gpu, s);
    }
    let first = profiler.resolve_queries();
    assert_eq!(first.len(), 1);
    let second = profiler.resolve_queries();
    assert!(second.is_empty());
}

#[test]
fn bound_one_keeps_latest_frame() {
    let settings = GpuProfilerSettings { max_num_pending_frames: 1, ..Default::default() };
    let mut profiler = GpuProfiler::new(settings).unwrap();
    let mut gpu = FakeGpu::default();
    let a = open(&mut profiler, &mut gpu, "frame_a", None, false, ALL);
    close(&mut profiler, &mut gpu, a);
    finish_frame(&mut profiler, &mut gpu);
    let b = open(&mut profiler, &mut gpu, "frame_b", None, false, ALL);
    close(&mut profiler, &mut gpu, b);
    finish_frame(&mut profiler, &mut gpu);
    assert_eq!(profiler.num_pending_frames(), 1);
    // Nothing before the mappings are serviced.
    assert!(gpu.poll_frame(&mut profiler).is_none());
    gpu.service_mappings(&mut profiler);
    let results = gpu.poll_frame(&mut profiler).unwrap();
    assert_eq!(shape(&results), "frame_b");
    assert!(gpu.poll_frame(&mut profiler).is_none());
    gpu.service_mappings(&mut profiler);
    assert!(gpu.poll_frame(&mut profiler).is_none());
}

#[test]
fn eviction_drops_newest_pending_frame() {
    let settings = GpuProfilerSettings { max_num_pending_frames: 2, ..Default::default() };
    let mut profiler = GpuProfiler::new(settings).unwrap();
    let mut gpu = FakeGpu::default();
    for label in ["f0", "f1", "f2"] {
        let s = open(&mut profiler, &mut gpu, label, None, false, ALL);
        close(&mut profiler, &mut gpu, s);
        finish_frame(&mut profiler, &mut gpu);
    }
    assert_eq!(profiler.num_pending_frames(), 2);
    // Frame f1 was dropped: its pool was given back and f2 reused nothing of it
    // while f1's mapping was still requested.
    assert_eq!(gpu.unmapped.len(), 1);
    gpu.service_mappings(&mut profiler);
    let first = gpu.poll_frame(&mut profiler).unwrap();
    assert_eq!(shape(&first), "f0");
    let second = gpu.poll_frame(&mut profiler).unwrap();
    assert_eq!(shape(&second), "f2");
    assert!(gpu.poll_frame(&mut profiler).is_none());
}

#[test]
fn pools_grow_and_are_reused() {
    let mut profiler = GpuProfiler::new(GpuProfilerSettings::default()).unwrap();
    let mut gpu = FakeGpu::default();
    // 20 scopes need 40 slots: a first pool of 32, then one of 32 more.
    for _ in 0..20 {
        let s = open(&mut profiler, &mut gpu, "s", None, false, ALL);
        close(&mut profiler, &mut gpu, s);
    }
    assert_eq!(gpu.created, vec![(0, 32), (1, 32)]);
    finish_frame(&mut profiler, &mut gpu);
    gpu.service_mappings(&mut profiler);
    let results = gpu.poll_frame(&mut profiler).unwrap();
    assert_eq!(results.len(), 20);
    assert!(gpu.destroyed.is_empty());
    // Both pools are kept (32 >= 40 / 2) and serve the next frame.
    for _ in 0..20 {
        let s = open(&mut profiler, &mut gpu, "t", None, false, ALL);
        close(&mut profiler, &mut gpu, s);
    }
    assert_eq!(gpu.created.len(), 2);
    // A third pool is sized to all pools of the frame so far.
    for _ in 0..20 {
        let s = open(&mut profiler, &mut gpu, "u", None, false, ALL);
        close(&mut profiler, &mut gpu, s);
    }
    assert_eq!(gpu.created[2], (2, 64));
}

#[test]
fn disabling_timer_scopes_drops_cached_pools() {
    let mut profiler = GpuProfiler::new(GpuProfilerSettings::default()).unwrap();
    let mut gpu = FakeGpu::default();
    let s = open(&mut profiler, &mut gpu, "s", None, false, ALL);
    close(&mut profiler, &mut gpu, s);
    finish_frame(&mut profiler, &mut gpu);
    gpu.service_mappings(&mut profiler);
    gpu.poll_frame(&mut profiler).unwrap();
    let cmds = profiler
        .change_settings(GpuProfilerSettings { enable_timer_scopes: false, ..Default::default() })
        .unwrap();
    assert_eq!(cmds, vec![ProfilerCommand::DestroyQueryPool { pool_id: 0 }]);
    let s = open(&mut profiler, &mut gpu, "off", None, false, ALL);
    assert!(s.query.is_none());
}

#[test]
fn begin_and_end_commands() {
    let mut profiler = GpuProfiler::new(GpuProfilerSettings::default()).unwrap();
    let (scope, cmds) = profiler.begin_scope("a".to_string(), false, ALL, 3, 4);
    assert_eq!(
        cmds,
        vec![
            ProfilerCommand::CreateQueryPool { pool_id: 0, capacity: 32 },
            ProfilerCommand::WriteTimestamp { pool_id: 0, query_index: 0 },
            ProfilerCommand::PushDebugGroup,
        ]
    );
    assert_eq!((scope.pid, scope.tid, scope.handle), (3, 4, 0));
    let cmds = profiler.end_scope(scope).unwrap();
    assert_eq!(
        cmds,
        vec![ProfilerCommand::WriteTimestamp { pool_id: 0, query_index: 1 }, ProfilerCommand::PopDebugGroup]
    );
    let (scope, cmds) = profiler.begin_pass_scope("p".to_string(), ALL, 3, 4);
    assert!(cmds.is_empty());
    assert_eq!(scope.handle, 1);
    let w = scope.render_pass_timestamp_writes().unwrap();
    assert_eq!((w.pool_id, w.beginning_of_pass_write_index, w.end_of_pass_write_index), (0, 2, 3));
    assert!(profiler.end_scope(scope).unwrap().is_empty());
}

#[test]
fn short_buffer_is_not_processed() {
    let mut profiler = GpuProfiler::new(GpuProfilerSettings::default()).unwrap();
    let mut gpu = FakeGpu::default();
    let s = open(&mut profiler, &mut gpu, "s", None, false, ALL);
    close(&mut profiler, &mut gpu, s);
    finish_frame(&mut profiler, &mut gpu);
    gpu.service_mappings(&mut profiler);
    assert!(profiler.process_finished_frame(&vec![vec![0u8; 15]]).is_none());
    assert_eq!(profiler.num_pending_frames(), 1);
    let mut bytes = 5u64.to_le_bytes().to_vec();
    bytes.extend_from_slice(&0x0102_0304_0506_0708u64.to_le_bytes());
    let (results, _) = profiler.process_finished_frame(&vec![bytes]).unwrap();
    assert_eq!((results[0].start_ticks, results[0].end_ticks), (5, 0x0102_0304_0506_0708));
}
