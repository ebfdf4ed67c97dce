use vstd::prelude::*;

verus! {

/// Errors that can occur during settings validation and change.
#[derive(Debug, Clone, Copy, PartialEq, Eq, Structural)]
pub enum SettingsError {
    /// `max_num_pending_frames` was zero.
    InvalidMaxNumPendingFrames,
    /// Settings cannot change while profiling scopes are open.
    HasOpenScopes,
}

/// Errors that can occur during profiler creation.
#[derive(Debug, Clone, Copy, PartialEq, Eq, Structural)]
pub enum CreationError {
    InvalidSettings(SettingsError),
}

/// Errors that can occur when ending a frame.
#[derive(Debug, Clone, PartialEq, Eq)]
pub enum EndFrameError {
    /// Labels of the scopes that were still open.
    UnclosedScopes(Vec<String>),
    /// Number of queries that were used but not resolved (saturating).
    UnresolvedQueries(u32),
}

/// Errors that can occur when closing a scope.
#[derive(Debug, Clone, Copy, PartialEq, Eq, Structural)]
pub enum ScopeError {
    /// The scope is not among the profiler's open scopes.
    NoOpenScope,
}

} // verus!
