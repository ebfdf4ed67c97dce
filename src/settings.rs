use vstd::prelude::*;
use crate::errors::SettingsError;

verus! {

/// Settings of a `GpuProfiler`.
#[derive(Debug, Clone, Copy, PartialEq, Eq, Structural)]
pub struct GpuProfilerSettings {
    /// Whether scopes reserve timer queries at all.
    pub enable_timer_scopes: bool,
    /// Whether scopes push a debug group on their encoder or pass.
    pub enable_debug_groups: bool,
    /// How many ended frames may wait for their results; must be at least 1.
    pub max_num_pending_frames: usize,
}

impl GpuProfilerSettings {
    pub open spec fn is_valid(self) -> bool {
        self.max_num_pending_frames >= 1
    }

    pub fn validate(&self) -> (r: Result<(), SettingsError>)
        ensures
            r == (if self.is_valid() {
                Ok(())
            } else {
                Err(SettingsError::InvalidMaxNumPendingFrames)
            }),
    {
        if self.max_num_pending_frames == 0 {
            Err(SettingsError::InvalidMaxNumPendingFrames)
        } else {
            Ok(())
        }
    }
}

impl Default for GpuProfilerSettings {
    fn default() -> (r: Self)
        ensures
            r == (GpuProfilerSettings {
                enable_timer_scopes: true,
                enable_debug_groups: true,
                max_num_pending_frames: 3,
            }),
    {
        GpuProfilerSettings {
            enable_timer_scopes: true,
            enable_debug_groups: true,
            max_num_pending_frames: 3,
        }
    }
}

} // verus!
