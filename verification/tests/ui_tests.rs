use pulse::storage::AnomalyRow;
use pulse::ui::components::{
    anomaly_header, anomaly_line, anomaly_table, banner, doctor_report, footer, kv,
    no_process_history, no_system_history, process_history_header, process_history_line,
    section, status_badge, system_history_header, system_history_line, BadgeKind,
};
use pulse::ui::format::{format_db_size, format_memory_bytes, format_severity, format_timestamp};

const RESET: &str = "\x1b[0m";
const BOLD: &str = "\x1b[1m";
const DIM: &str = "\x1b[2m";
const CYAN: &str = "\x1b[36m";
const WHITE: &str = "\x1b[37m";

fn reference_kv(key: &str, value: &str) -> String {
    format!("  {}{}{:<14}{} {}", BOLD, WHITE, format!("{}:", key), RESET, value)
}

fn reference_section(title: &str) -> Vec<String> {
    vec![
        String::new(),
        format!("{}{}  {}  {}", BOLD, CYAN, title, RESET),
        format!("{}{}{}", DIM, "─".repeat(title.len() + 4), RESET),
    ]
}

#[test]
fn badges() {
    assert_eq!(status_badge(BadgeKind::Good), "\x1b[42m\x1b[1m  ✓ OK  \x1b[0m");
    assert_eq!(status_badge(BadgeKind::Warn), "\x1b[43m\x1b[1m  ⚠ WARN  \x1b[0m");
    assert_eq!(status_badge(BadgeKind::Critical), "\x1b[41m\x1b[1m  ✗ CRITICAL  \x1b[0m");
    assert_eq!(status_badge(BadgeKind::Info), "\x1b[36m\x1b[1mℹ  INFO\x1b[0m");
    assert_eq!(status_badge(BadgeKind::Learning), "\x1b[34m\x1b[1m⏳ LEARNING\x1b[0m");
}

#[test]
fn section_rule_counts_bytes() {
    assert_eq!(section("Health Check"), reference_section("Health Check"));
    assert_eq!(section("Process: café (PID 7)"), reference_section("Process: café (PID 7)"));
    assert_eq!(section(""), reference_section(""));
}

#[test]
fn kv_pads_key_to_fourteen_characters() {
    assert_eq!(kv("CPU", "10%"), reference_kv("CPU", "10%"));
    assert_eq!(kv("A very long key name", "x"), reference_kv("A very long key name", "x"));
    assert_eq!(kv("Größe", "1"), reference_kv("Größe", "1"));
}

#[test]
fn banner_and_footer() {
    assert_eq!(
        banner(),
        vec![
            String::new(),
            format!(
                "  {}{}⚡ Pulse{} {}— Intelligent System Behavior Analysis{}",
                BOLD, CYAN, RESET, DIM, RESET
            ),
            format!("  {}{}{}", DIM, "━".repeat(50), RESET),
            String::new(),
        ]
    );
    assert_eq!(
        footer(),
        vec![
            String::new(),
            format!(
                "  {}{}Tip:{} Run {}pulse doctor{} for a system health check. Use {}pulse daemon start{} to begin background collection.",
                DIM, CYAN, RESET, BOLD, RESET, BOLD, RESET
            ),
            String::new(),
        ]
    );
}

fn reference_doctor(
    config_path: &str,
    db_path: &str,
    db_size: u64,
    daemon_pid: Option<u32>,
    sys: i64,
    procs: i64,
    anom: i64,
    tracked_count: usize,
) -> Vec<String> {
    let mut lines = reference_section("Health Check");
    lines.push(reference_kv("Config", config_path));
    lines.push(reference_kv("Database", db_path));
    lines.push(reference_kv("DB Size", &format_db_size(db_size)));
    let daemon = match daemon_pid {
        Some(pid) => format!("{} running (PID {})", status_badge(BadgeKind::Good), pid),
        None => format!("{} not running", status_badge(BadgeKind::Warn)),
    };
    lines.push(reference_kv("Daemon", &daemon));
    lines.extend(reference_section("Data"));
    lines.push(reference_kv("System Samples", &sys.to_string()));
    lines.push(reference_kv("Process Samples", &procs.to_string()));
    lines.push(reference_kv("Anomalies", &anom.to_string()));
    lines.push(reference_kv("Tracked Procs", &tracked_count.to_string()));
    lines
}

#[test]
fn doctor_report_lines() {
    let got = doctor_report("/home/u/.pulse/config.toml", "/home/u/.pulse/pulse.db", 2_500_000, Some(4242), 120, 3400, 7, 15);
    assert_eq!(got.len(), 14);
    assert_eq!(got, reference_doctor("/home/u/.pulse/config.toml", "/home/u/.pulse/pulse.db", 2_500_000, Some(4242), 120, 3400, 7, 15));
    let got = doctor_report("c", "d", 10, None, -1, i64::MIN, i64::MAX, 0);
    assert_eq!(got, reference_doctor("c", "d", 10, None, -1, i64::MIN, i64::MAX, 0));
}

fn row(ts: i64, name: &str, severity: &str, reason: &str) -> AnomalyRow {
    AnomalyRow {
        id: 1,
        timestamp: ts,
        pid: Some(10),
        process_name: name.to_string(),
        severity: severity.to_string(),
        reason: reason.to_string(),
    }
}

fn reference_line(r: &AnomalyRow) -> String {
    let ts = format_timestamp(r.timestamp);
    let sev = format_severity(&r.severity);
    let reason_short = if r.reason.len() > 30 {
        format!("{}…", &r.reason[..29])
    } else {
        r.reason.clone()
    };
    format!("  {:<20} {:<16} {:<10} {}", ts, r.process_name, sev, reason_short)
}

#[test]
fn anomaly_table_lines() {
    assert_eq!(anomaly_table(&vec![]), vec![format!("  {}No anomalies recorded.{}", DIM, RESET)]);
    let rows = vec![
        row(1_700_000_000, "firefox", "HIGH", "Memory usage for 'firefox' is extremely high"),
        row(i64::MAX, "a-very-long-process-name", "LOW", "short"),
        row(0, "x", "MEDIUM", "exactly thirty characters long"),
        row(5, "y", "CRITICAL", "aéééééééééééééé and more text"),
    ];
    let got = anomaly_table(&rows);
    assert_eq!(got.len(), rows.len() + 2);
    assert_eq!(
        got[0],
        format!("  {}{}{:<20} {:<16} {:<10} {}{}", BOLD, WHITE, "Timestamp", "Process", "Severity", "Reason", RESET)
    );
    assert_eq!(got[1], format!("  {}{}{}", DIM, "─".repeat(76), RESET));
    for (i, r) in rows.iter().enumerate() {
        assert_eq!(got[i + 2], reference_line(r));
    }
    assert!(got[3].starts_with("  unknown "));
}

#[test]
fn anomaly_line_cuts_long_reasons() {
    let r = row(0, "p", "LOW", "0123456789012345678901234567890123");
    assert_eq!(anomaly_line("T", &r), format!("  {:<20} {:<16} {:<10} {}", "T", "p", format_severity("LOW"), "01234567890123456789012345678…"));
}

#[test]
fn anomaly_header_is_the_table_head() {
    let rows = vec![row(0, "x", "LOW", "r")];
    let table = anomaly_table(&rows);
    assert_eq!(anomaly_header(), table[..2].to_vec());
}

#[test]
fn process_history_lines() {
    assert_eq!(no_process_history(), format!("  {}No history data available.{}", DIM, RESET));
    assert_eq!(
        process_history_header(),
        vec![
            format!("  {}{}{:<20} {:<8} {:<10} {:<10}{}", BOLD, WHITE, "Timestamp", "PID", "Memory", "CPU", RESET),
            format!("  {}{}{}", DIM, "─".repeat(52), RESET),
        ]
    );
    for (pid, mem, cpu) in [(1234i32, 104_857_600u64, "12.5%"), (i32::MIN, 0, "0.0%"), (-7, 5_000_000_000_000, "100.0%")] {
        let ts = format_timestamp(1_700_000_000);
        assert_eq!(
            process_history_line(&ts, pid, mem, cpu),
            format!("  {:<20} {:<8} {:<10} {:<10}", ts, pid, format_memory_bytes(mem), cpu)
        );
    }
    assert_eq!(
        process_history_line("unknown", 42, 2048, "1.0%"),
        format!("  {:<20} {:<8} {:<10} {:<10}", "unknown", "42", "2 KB", "1.0%")
    );
}

#[test]
fn system_history_lines() {
    assert_eq!(no_system_history(), format!("  {}No system history available.{}", DIM, RESET));
    assert_eq!(
        system_history_header(),
        vec![
            format!("  {}{}{:<20} {:<10} {:<12} {:<12}{}", BOLD, WHITE, "Timestamp", "CPU", "Memory", "Swap", RESET),
            format!("  {}{}{}", DIM, "─".repeat(58), RESET),
        ]
    );
    for (cpu, mem, swap) in [("3.4%", 1u64 << 30, 0u64), ("99.9%", u64::MAX, 123_456_789)] {
        let ts = format_timestamp(-1);
        assert_eq!(
            system_history_line(&ts, cpu, mem, swap),
            format!("  {:<20} {:<10} {:<12} {:<12}", ts, cpu, format_memory_bytes(mem), format_memory_bytes(swap))
        );
    }
}
