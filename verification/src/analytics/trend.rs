//! Trend directions.
use vstd::prelude::*;

verus! {

/// Direction of a resource usage trend.
#[derive(Debug, Clone, Copy, PartialEq, Eq, Structural)]
pub enum TrendKind {
    Increasing,
    Decreasing,
    Stable,
}

} // verus!
