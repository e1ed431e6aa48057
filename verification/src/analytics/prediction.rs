//! The human-readable reason that accompanies a prediction.
use vstd::prelude::*;
use super::trend::TrendKind;
use crate::text::{decimal, push_decimal};

verus! {

/// The reason given for a prediction: growth over the number of samples
/// when memory is increasing, otherwise a fixed sentence for the trend.
pub open spec fn reason_text(trend: TrendKind, samples: nat) -> Seq<char> {
    match trend {
        TrendKind::Increasing => "Consistent positive memory growth over "@ + decimal(samples)
            + " samples"@,
        TrendKind::Stable => "Memory usage is stable — no anomaly expected"@,
        TrendKind::Decreasing => "Memory usage is decreasing"@,
    }
}

/// The reason given for a prediction made from `samples` history rows
/// whose memory trend is `trend`.
pub fn prediction_reason(trend: TrendKind, samples: usize) -> (reason: String)
    ensures
        reason@ == reason_text(trend, samples as nat),
{
    match trend {
        TrendKind::Increasing => {
            let mut s = String::from_str("Consistent positive memory growth over ");
            push_decimal(&mut s, samples as u128);
            s.append(" samples");
            s
        },
        TrendKind::Stable => String::from_str("Memory usage is stable — no anomaly expected"),
        TrendKind::Decreasing => String::from_str("Memory usage is decreasing"),
    }
}

} // verus!
