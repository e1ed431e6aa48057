//! Severity levels of anomalies and the risk rating of a process.
use vstd::prelude::*;

verus! {

/// Statistical severity level based on z-score magnitude.
#[derive(Debug, Clone, Copy, PartialEq, Eq, Structural)]
pub enum Severity {
    Low,
    Medium,
    High,
    Critical,
}

impl Severity {
    /// The label stored with an anomaly.
    pub open spec fn label(self) -> Seq<char> {
        match self {
            Severity::Low => "LOW"@,
            Severity::Medium => "MEDIUM"@,
            Severity::High => "HIGH"@,
            Severity::Critical => "CRITICAL"@,
        }
    }

    pub fn as_str(&self) -> (s: &'static str)
        ensures
            s@ == self.label(),
    {
        match self {
            Severity::Low => "LOW",
            Severity::Medium => "MEDIUM",
            Severity::High => "HIGH",
            Severity::Critical => "CRITICAL",
        }
    }
}

/// How risky a process's history looks, from how often it was anomalous.
#[derive(Debug, Clone, Copy, PartialEq, Eq, Structural)]
pub enum RiskLevel {
    Low,
    Medium,
    High,
}

impl RiskLevel {
    /// The label shown for the rating.
    pub open spec fn label(self) -> Seq<char> {
        match self {
            RiskLevel::Low => "LOW"@,
            RiskLevel::Medium => "MEDIUM"@,
            RiskLevel::High => "HIGH"@,
        }
    }

    pub fn as_str(&self) -> (s: &'static str)
        ensures
            s@ == self.label(),
    {
        match self {
            RiskLevel::Low => "LOW",
            RiskLevel::Medium => "MEDIUM",
            RiskLevel::High => "HIGH",
        }
    }
}

/// The rating for `anomalies` anomalous windows among `samples` samples:
/// high above a rate of 0.3, medium above 0.1, low otherwise.
pub open spec fn risk_of(anomalies: nat, samples: nat) -> RiskLevel {
    if 10 * anomalies > 3 * samples {
        RiskLevel::High
    } else if 10 * anomalies > samples {
        RiskLevel::Medium
    } else {
        RiskLevel::Low
    }
}

/// The rank of a rating, from low to high.
pub open spec fn risk_rank(r: RiskLevel) -> int {
    match r {
        RiskLevel::Low => 0,
        RiskLevel::Medium => 1,
        RiskLevel::High => 2,
    }
}

/// More anomalous windows over the same samples never lower the rating.
pub proof fn risk_grows_with_anomalies(fewer: nat, more: nat, samples: nat)
    requires
        fewer <= more,
    ensures
        risk_rank(risk_of(fewer, samples)) <= risk_rank(risk_of(more, samples)),
{
}

/// The rating depends on the anomaly rate alone: it is high exactly when
/// more than 30% of the samples are anomalous, medium exactly when more
/// than 10% but at most 30% are, and the same anomaly rate over a history
/// `k` times as long gives the same rating.
pub proof fn risk_follows_the_rate(anomalies: nat, samples: nat, k: nat)
    requires
        samples > 0,
        k >= 1,
    ensures
        (risk_of(anomalies, samples) == RiskLevel::High) <==> (anomalies as int) * 10 > (samples as int) * 3,
        (risk_of(anomalies, samples) == RiskLevel::Medium) <==> ((samples as int) < (anomalies as int)
            * 10 && (anomalies as int) * 10 <= (samples as int) * 3),
        (risk_of(anomalies, samples) == RiskLevel::Low) <==> (anomalies as int) * 10 <= samples as int,
        risk_of(k * anomalies, k * samples) == risk_of(anomalies, samples),
{
    let a = anomalies as int;
    let n = samples as int;
    let kk = k as int;
    assert((10 * a > 3 * n) <==> (10 * (kk * a) > 3 * (kk * n))) by (nonlinear_arith)
        requires
            kk >= 1,
    ;
    assert((10 * a > n) <==> (10 * (kk * a) > kk * n)) by (nonlinear_arith)
        requires
            kk >= 1,
    ;
}

/// With the anomaly count fixed, a longer history never raises the rating.
pub proof fn more_samples_never_raise_risk(anomalies: nat, fewer: nat, more: nat)
    requires
        0 < fewer <= more,
    ensures
        risk_rank(risk_of(anomalies, more)) <= risk_rank(risk_of(anomalies, fewer)),
{
}

/// Rates a process from the number of anomalous windows in its history.
/// The rate `anomalies / samples` is compared exactly with 0.3 and 0.1;
/// for at most 2^51 samples this is what comparing the double quotient
/// with the doubles 0.3 and 0.1 gives (beyond that the quotient's rounding
/// can cross a threshold).
pub fn risk_level(anomalies: usize, samples: usize) -> (risk: RiskLevel)
    requires
        0 < samples <= 0x8_0000_0000_0000,
    ensures
        risk == risk_of(anomalies as nat, samples as nat),
{
    let a = anomalies as u128;
    let n = samples as u128;
    if 10 * a > 3 * n {
        RiskLevel::High
    } else if 10 * a > n {
        RiskLevel::Medium
    } else {
        RiskLevel::Low
    }
}

} // verus!
