use pulse::analytics::anomaly::{risk_level, RiskLevel, Severity};
use pulse::analytics::prediction::prediction_reason;
use pulse::analytics::trend::TrendKind;
use pulse::cli_core::explain::{explain_anomaly, AnomalyFlags};

#[test]
fn severity_labels() {
    assert_eq!(Severity::Low.as_str(), "LOW");
    assert_eq!(Severity::Medium.as_str(), "MEDIUM");
    assert_eq!(Severity::High.as_str(), "HIGH");
    assert_eq!(Severity::Critical.as_str(), "CRITICAL");
}

#[test]
fn risk_matches_float_rate() {
    for samples in 1usize..200 {
        for anomalies in 0..=samples {
            let freq = anomalies as f64 / samples as f64;
            let expected = if freq > 0.3 {
                RiskLevel::High
            } else if freq > 0.1 {
                RiskLevel::Medium
            } else {
                RiskLevel::Low
            };
            assert_eq!(risk_level(anomalies, samples), expected, "{}/{}", anomalies, samples);
        }
    }
    assert_eq!(RiskLevel::High.as_str(), "HIGH");
    assert_eq!(RiskLevel::Medium.as_str(), "MEDIUM");
    assert_eq!(RiskLevel::Low.as_str(), "LOW");
}

#[test]
fn prediction_reasons() {
    assert_eq!(
        prediction_reason(TrendKind::Increasing, 120),
        "Consistent positive memory growth over 120 samples"
    );
    assert_eq!(prediction_reason(TrendKind::Stable, 7), "Memory usage is stable — no anomaly expected");
    assert_eq!(prediction_reason(TrendKind::Decreasing, 7), "Memory usage is decreasing");
}

fn flags(memory_anomaly: bool, memory_extreme: bool, cpu_anomaly: bool, cpu_extreme: bool) -> AnomalyFlags {
    AnomalyFlags { memory_anomaly, memory_extreme, cpu_anomaly, cpu_extreme }
}

#[test]
fn explanations() {
    assert_eq!(
        explain_anomaly("chrome", &flags(false, false, false, false)),
        vec!["'chrome' is behaving within its normal historical range.".to_string()]
    );
    assert_eq!(
        explain_anomaly("chrome", &flags(true, true, true, false)),
        vec![
            "Memory usage for 'chrome' is extremely high compared to its normal behavior.".to_string(),
            "CPU usage for 'chrome' is noticeably higher than normal.".to_string(),
        ]
    );
    assert_eq!(
        explain_anomaly("x", &flags(true, false, false, true)),
        vec!["Memory usage for 'x' is significantly higher than usual".to_string()]
    );
    assert_eq!(
        explain_anomaly("x", &flags(false, true, true, true)),
        vec!["CPU usage for 'x' spiked far beyond its typical usage pattern.".to_string()]
    );
}
