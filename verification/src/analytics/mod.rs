//! Analytics: severity levels, trend directions, prediction reasons and
//! the summary risk rating. The statistics themselves work on floating
//! point and are computed by the caller.
pub mod anomaly;
pub mod prediction;
pub mod trend;
