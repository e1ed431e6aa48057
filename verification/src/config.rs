//! Validation of the configuration.
use vstd::prelude::*;

verus! {

/// What validation looks at in a configuration. The thresholds are
/// percentages held as floating point by the configuration itself; here
/// they stand as whether each lies in `0..=100` (a value that compares
/// neither below 0 nor above 100, NaN included, counts as in range).
#[derive(Debug, Clone, Copy, PartialEq, Eq, Structural)]
pub struct ConfigChecks {
    pub interval: u64,
    pub cpu_threshold_in_range: bool,
    pub memory_threshold_in_range: bool,
    pub top_n: usize,
    pub prediction_window: usize,
}

/// The first problem validation reports, in the order interval, CPU
/// threshold, memory threshold, top-N, prediction window; `None` when
/// there is none.
pub open spec fn first_problem(c: ConfigChecks) -> Option<Seq<char>> {
    if c.interval < 1 {
        Some("interval must be >= 1 second"@)
    } else if !c.cpu_threshold_in_range {
        Some("cpu_threshold must be between 0 and 100"@)
    } else if !c.memory_threshold_in_range {
        Some("memory_threshold must be between 0 and 100"@)
    } else if c.top_n < 1 {
        Some("top_n must be >= 1"@)
    } else if c.prediction_window < 5 {
        Some("prediction_window must be >= 5"@)
    } else {
        None
    }
}

/// Validation accepts exactly the configurations whose interval is at
/// least one second, whose thresholds both lie in range, whose top-N is at
/// least one and whose prediction window is at least five; raising the
/// interval, the top-N or the prediction window never turns an accepted
/// configuration into a rejected one.
pub proof fn accepted_configurations(c: ConfigChecks, raised: ConfigChecks)
    requires
        raised.cpu_threshold_in_range == c.cpu_threshold_in_range,
        raised.memory_threshold_in_range == c.memory_threshold_in_range,
        raised.interval >= c.interval,
        raised.top_n >= c.top_n,
        raised.prediction_window >= c.prediction_window,
    ensures
        (first_problem(c) is None) <==> (c.interval >= 1 && c.cpu_threshold_in_range
            && c.memory_threshold_in_range && c.top_n >= 1 && c.prediction_window >= 5),
        first_problem(c) is None ==> first_problem(raised) is None,
{
}

/// A rejected configuration is reported by its first failing check, in
/// the order interval, CPU threshold, memory threshold, top-N, prediction
/// window, each with its own message.
pub proof fn first_failing_check_is_reported(c: ConfigChecks)
    ensures
        c.interval < 1 ==> first_problem(c) == Some("interval must be >= 1 second"@),
        c.interval >= 1 && !c.cpu_threshold_in_range ==> first_problem(c) == Some(
            "cpu_threshold must be between 0 and 100"@,
        ),
        c.interval >= 1 && c.cpu_threshold_in_range && !c.memory_threshold_in_range
            ==> first_problem(c) == Some("memory_threshold must be between 0 and 100"@),
        c.interval >= 1 && c.cpu_threshold_in_range && c.memory_threshold_in_range && c.top_n < 1
            ==> first_problem(c) == Some("top_n must be >= 1"@),
        c.interval >= 1 && c.cpu_threshold_in_range && c.memory_threshold_in_range && c.top_n >= 1
            && c.prediction_window < 5 ==> first_problem(c) == Some("prediction_window must be >= 5"@),
{
}

impl ConfigChecks {
    /// Validates config values, returning an error message on failure.
    pub fn validate(&self) -> (r: Result<(), String>)
        ensures
            match first_problem(*self) {
                Some(msg) => r matches Err(e) && e@ == msg,
                None => r is Ok,
            },
    {
        if self.interval < 1 {
            return Err(String::from_str("interval must be >= 1 second"));
        }
        if !self.cpu_threshold_in_range {
            return Err(String::from_str("cpu_threshold must be between 0 and 100"));
        }
        if !self.memory_threshold_in_range {
            return Err(String::from_str("memory_threshold must be between 0 and 100"));
        }
        if self.top_n < 1 {
            return Err(String::from_str("top_n must be >= 1"));
        }
        if self.prediction_window < 5 {
            return Err(String::from_str("prediction_window must be >= 5"));
        }
        Ok(())
    }
}

} // verus!
