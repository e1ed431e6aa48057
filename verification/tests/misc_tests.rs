use pulse::cli_core::history::unix_time_from;
use pulse::cli_core::history::{now_ts, retain_latest, MAX_ENTRIES_PER_PROCESS};
use pulse::cli_core::ui::{kv, section};
use pulse::config::ConfigChecks;
use pulse::daemon::cleanup_due;
use pulse::logging::{level_filter, LogLevel};
use pulse::storage::retention_cutoff;

fn checks(interval: u64, cpu: bool, mem: bool, top_n: usize, window: usize) -> ConfigChecks {
    ConfigChecks {
        interval,
        cpu_threshold_in_range: cpu,
        memory_threshold_in_range: mem,
        top_n,
        prediction_window: window,
    }
}

#[test]
fn validation_reports_first_problem() {
    assert_eq!(checks(5, true, true, 15, 120).validate(), Ok(()));
    assert_eq!(checks(0, false, false, 0, 0).validate(), Err("interval must be >= 1 second".to_string()));
    assert_eq!(checks(1, false, false, 0, 0).validate(), Err("cpu_threshold must be between 0 and 100".to_string()));
    assert_eq!(checks(1, true, false, 0, 0).validate(), Err("memory_threshold must be between 0 and 100".to_string()));
    assert_eq!(checks(1, true, true, 0, 0).validate(), Err("top_n must be >= 1".to_string()));
    assert_eq!(checks(1, true, true, 1, 4).validate(), Err("prediction_window must be >= 5".to_string()));
    assert_eq!(checks(1, true, true, 1, 5).validate(), Ok(()));
}

#[test]
fn cleanup_schedule_matches_formula() {
    for interval in 0u64..5000 {
        for cycles in [0u64, 1, 2, 5, 12, 60, 719, 720, 3600, 7200] {
            let per_hour = 3600 / interval.max(1);
            let expected = per_hour > 0 && cycles % per_hour == 0;
            assert_eq!(cleanup_due(cycles, interval), expected);
        }
    }
    assert!(cleanup_due(720, 5));
    assert!(!cleanup_due(721, 5));
    assert!(!cleanup_due(0, 3601));
}

#[test]
fn retention_cutoff_subtracts_days() {
    assert_eq!(retention_cutoff(1_700_000_000, 30), 1_700_000_000 - 30 * 86400);
    assert_eq!(retention_cutoff(0, 0), 0);
    assert_eq!(retention_cutoff(100, 1), 100 - 86400);
}

#[test]
fn log_levels() {
    for (name, level) in [
        ("trace", LogLevel::Trace),
        ("DEBUG", LogLevel::Debug),
        ("Info", LogLevel::Info),
        ("wArN", LogLevel::Warn),
        ("error", LogLevel::Error),
        ("verbose", LogLevel::Info),
        ("", LogLevel::Info),
        ("İnfo", LogLevel::Info),
        ("warn ", LogLevel::Info),
    ] {
        assert_eq!(level_filter(name), level, "{:?}", name);
    }
}

#[test]
fn log_levels_agree_with_unicode_lowercase() {
    let words = ["trace", "debug", "info", "warn", "error"];
    let variants = ["TRACE", "DeBuG", "İNFO", "\u{212A}", "ınfo", "WARN", "ERROR", "Error", "ſ", "info\u{307}"];
    for v in variants {
        let lower = v.to_lowercase();
        let expected = match lower.as_str() {
            "trace" => LogLevel::Trace,
            "debug" => LogLevel::Debug,
            "info" => LogLevel::Info,
            "warn" => LogLevel::Warn,
            "error" => LogLevel::Error,
            _ => LogLevel::Info,
        };
        assert_eq!(level_filter(v), expected, "{:?}", v);
    }
    for w in words {
        assert_eq!(level_filter(&w.to_uppercase()), level_filter(w));
    }
}

#[test]
fn history_keeps_latest_entries() {
    let mut v: Vec<u32> = (0..1005).collect();
    retain_latest(&mut v, MAX_ENTRIES_PER_PROCESS);
    assert_eq!(v.len(), 1000);
    assert_eq!(v[0], 5);
    assert_eq!(v[999], 1004);
    let mut w = vec![1, 2, 3];
    retain_latest(&mut w, 5);
    assert_eq!(w, vec![1, 2, 3]);
    retain_latest(&mut w, 0);
    assert!(w.is_empty());
}

#[test]
fn clock_reads_after_epoch() {
    let ts = now_ts().expect("system clock before 1970");
    assert!(ts > 1_600_000_000);
}

#[test]
fn plain_text_output() {
    assert_eq!(section("Summary: é"), vec![String::new(), "Summary: é".to_string(), "-".repeat("Summary: é".len())]);
    assert_eq!(kv("CPU", "5.0%"), format!("{:<8} {}", "CPU:", "5.0%"));
    assert_eq!(kv("Avg Memory", "1 MB"), format!("{:<8} {}", "Avg Memory:", "1 MB"));
}

#[test]
fn unix_time_conversion() {
    assert_eq!(unix_time_from(None), None);
    assert_eq!(unix_time_from(Some(0)), Some(0));
    assert_eq!(unix_time_from(Some(1_700_000_000)), Some(1_700_000_000));
    assert_eq!(unix_time_from(Some(u64::MAX)), Some(-1));
}

#[test]
fn cleanup_runs_once_per_hour_of_cycles() {
    // With a 5 s interval, 720 cycles make an hour.
    let due: Vec<u64> = (1..=2200u64).filter(|c| cleanup_due(*c, 5)).collect();
    assert_eq!(due, vec![720, 1440, 2160]);
}
