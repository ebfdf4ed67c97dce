use wgpu_profiler::{
    CreationError, EndFrameError, GpuProfiler, GpuProfilerSettings, ScopeError, SettingsError,
    TimerFeatures,
};

const FEATURES: TimerFeatures = TimerFeatures { timestamp_query: true, timestamp_query_inside_passes: false };

#[test]
fn invalid_pending_frame_count() {
    let profiler = GpuProfiler::new(GpuProfilerSettings { max_num_pending_frames: 0, ..Default::default() });
    assert!(matches!(
        profiler,
        Err(CreationError::InvalidSettings(SettingsError::InvalidMaxNumPendingFrames))
    ));
}

#[test]
fn end_frame_unclosed_scope() {
    let mut profiler = GpuProfiler::new(GpuProfilerSettings::default()).unwrap();
    let (scope, _) = profiler.begin_scope("open scope".to_string(), false, FEATURES, 0, 0);
    profiler.resolve_queries();
    assert_eq!(profiler.end_frame(), Err(EndFrameError::UnclosedScopes(vec!["open scope".to_string()])));
    // Recover.
    profiler.end_scope(scope).unwrap();
    profiler.resolve_queries();
    assert!(profiler.end_frame().is_ok());
}

#[test]
fn end_frame_unresolved_scope() {
    let mut profiler = GpuProfiler::new(GpuProfilerSettings::default()).unwrap();
    let (scope, _) = profiler.begin_scope("open scope".to_string(), false, FEATURES, 0, 0);
    profiler.end_scope(scope).unwrap();
    assert_eq!(profiler.end_frame(), Err(EndFrameError::UnresolvedQueries(2)));
    // Recover.
    profiler.resolve_queries();
    assert!(profiler.end_frame().is_ok());
}

#[test]
fn no_open_scope() {
    let mut profiler = GpuProfiler::new(GpuProfilerSettings::default()).unwrap();
    let (scope, _) = profiler.begin_scope("open scope".to_string(), false, FEATURES, 0, 0);
    assert_eq!(profiler.end_scope(scope), Ok(vec![
        wgpu_profiler::ProfilerCommand::WriteTimestamp { pool_id: 0, query_index: 1 },
        wgpu_profiler::ProfilerCommand::PopDebugGroup,
    ]));
    let (again, _) = profiler.begin_scope("other".to_string(), false, FEATURES, 0, 0);
    let stale = wgpu_profiler::GpuTimerScope {
        label: "open scope".to_string(),
        pid: 0,
        tid: 0,
        query: None,
        handle: 0,
        parent_handle: wgpu_profiler::ROOT_SCOPE_HANDLE,
        has_debug_group: false,
    };
    assert_eq!(profiler.end_scope(stale), Err(ScopeError::NoOpenScope));
    assert!(profiler.end_scope(again).is_ok());
    profiler.resolve_queries();
    assert!(profiler.end_frame().is_ok());
}

#[test]
fn change_settings_while_scope_open() {
    let mut profiler = GpuProfiler::new(GpuProfilerSettings::default()).unwrap();
    let (scope, _) = profiler.begin_scope("open scope".to_string(), false, FEATURES, 0, 0);
    assert_eq!(profiler.change_settings(GpuProfilerSettings::default()), Err(SettingsError::HasOpenScopes));
    profiler.end_scope(scope).unwrap();
    assert!(profiler.change_settings(GpuProfilerSettings::default()).is_ok());
    assert_eq!(
        profiler.change_settings(GpuProfilerSettings { max_num_pending_frames: 0, ..Default::default() }),
        Err(SettingsError::InvalidMaxNumPendingFrames)
    );
}

#[test]
fn validate_settings() {
    assert_eq!(GpuProfilerSettings::default().validate(), Ok(()));
    assert_eq!(
        GpuProfilerSettings { max_num_pending_frames: 0, ..Default::default() }.validate(),
        Err(SettingsError::InvalidMaxNumPendingFrames)
    );
    let d = GpuProfilerSettings::default();
    assert!(d.enable_timer_scopes && d.enable_debug_groups && d.max_num_pending_frames == 3);
}

#[test]
fn decode_little_endian_ticks() {
    let bytes = vec![1u8, 2, 3, 4, 5, 6, 7, 8, 9];
    assert_eq!(wgpu_profiler::results::read_u64_le(&bytes, 1), 0x0908_0706_0504_0302);
    assert_eq!(wgpu_profiler::results::read_u64_le(&bytes, 0), 0x0807_0605_0403_0201);
}

#[test]
fn end_scope_refuses_mismatched_pair() {
    let mut profiler = GpuProfiler::new(GpuProfilerSettings::default()).unwrap();
    let (scope, _) = profiler.begin_scope("open scope".to_string(), false, FEATURES, 0, 0);
    let q = scope.query.unwrap();
    for state in [
        wgpu_profiler::QueryPairUsageState::Reserved,
        wgpu_profiler::QueryPairUsageState::BothStartAndEndWritten,
    ] {
        let forged = wgpu_profiler::GpuTimerScope {
            label: scope.label.clone(),
            pid: scope.pid,
            tid: scope.tid,
            query: Some(wgpu_profiler::ReservedQueryPair { usage_state: state, ..q }),
            handle: scope.handle,
            parent_handle: scope.parent_handle,
            has_debug_group: scope.has_debug_group,
        };
        assert_eq!(profiler.end_scope(forged), Err(ScopeError::NoOpenScope));
        assert_eq!(profiler.num_open_scopes(), 1);
    }
    assert!(profiler.end_scope(scope).is_ok());
    assert_eq!(profiler.num_open_scopes(), 0);
}

#[test]
fn opening_scopes_counts_them() {
    let mut profiler = GpuProfiler::new(GpuProfilerSettings::default()).unwrap();
    let (a, _) = profiler.begin_scope("a".to_string(), false, FEATURES, 0, 0);
    assert_eq!(profiler.num_open_scopes(), 1);
    let (b, _) = profiler.begin_pass_scope("b".to_string(), FEATURES, 0, 0);
    assert_eq!(profiler.num_open_scopes(), 2);
    assert_eq!(b.query.unwrap().usage_state, wgpu_profiler::QueryPairUsageState::ReservedForPassTimestampWrites);
    assert_eq!(a.query.unwrap().usage_state, wgpu_profiler::QueryPairUsageState::OnlyStartWritten);
    profiler.end_scope(b).unwrap();
    profiler.end_scope(a).unwrap();
    assert_eq!(profiler.num_open_scopes(), 0);
}
