//! Render statistics tracking.

use vstd::prelude::*;

verus! {

/// Statistics about rendered primitives, counted over one pass.
#[derive(Clone, Copy, Debug, Default, PartialEq, Eq, Structural)]
pub struct RenderStats {
    /// Number of individual line segments rendered.
    pub lines: u32,
    /// Number of polyline paths rendered.
    pub polylines: u32,
    /// Number of text runs rendered.
    pub text_runs: u32,
}

impl RenderStats {
    /// All counters at zero, as at the start of a pass.
    pub fn zero() -> (s: RenderStats)
        ensures
            s == (RenderStats { lines: 0, polylines: 0, text_runs: 0 }),
    {
        RenderStats { lines: 0, polylines: 0, text_runs: 0 }
    }
}

} // verus!
