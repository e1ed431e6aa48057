//! Reusable terminal UI components. Each widget is built as the lines it
//! shows; printing them is left to the caller.
use vstd::prelude::*;
use vstd::string::StringSliceAdditionalSpecFns;
use vstd::utf8::{decode_utf8, encode_utf8, is_char_boundary};
use super::color::{BG_GREEN, BG_RED, BG_YELLOW, BLUE, BOLD, CYAN, DIM, RESET, WHITE};
use super::format::{db_size_text, format_db_size, format_memory_bytes, format_severity,
    format_timestamp, local_time_text, memory_bytes_text, severity_text, timestamp_in_range};
use crate::text::{
    decimal, decimal_string, pad_right, push_decimal, push_padded, push_repeat, repeat_char,
    signed_decimal, signed_decimal_string,
};
use crate::storage::AnomalyRow;

verus! {

broadcast use vstd::utf8::encode_utf8_decode_utf8;

// ── Display-level severity (different from analytics Severity) ───────

pub enum BadgeKind {
    Good,
    Warn,
    Critical,
    Info,
    Learning,
}

/// The text of a status badge.
pub open spec fn badge_text(kind: BadgeKind) -> Seq<char> {
    match kind {
        BadgeKind::Good => BG_GREEN@ + BOLD@ + "  ✓ OK  "@ + RESET@,
        BadgeKind::Warn => BG_YELLOW@ + BOLD@ + "  ⚠ WARN  "@ + RESET@,
        BadgeKind::Critical => BG_RED@ + BOLD@ + "  ✗ CRITICAL  "@ + RESET@,
        BadgeKind::Info => CYAN@ + BOLD@ + "ℹ  INFO"@ + RESET@,
        BadgeKind::Learning => BLUE@ + BOLD@ + "⏳ LEARNING"@ + RESET@,
    }
}

/// A coloured status badge.
pub fn status_badge(kind: BadgeKind) -> (s: String)
    ensures
        s@ == badge_text(kind),
{
    let mut s = String::new();
    match kind {
        BadgeKind::Good => {
            s.append(BG_GREEN);
            s.append(BOLD);
            s.append("  ✓ OK  ");
        },
        BadgeKind::Warn => {
            s.append(BG_YELLOW);
            s.append(BOLD);
            s.append("  ⚠ WARN  ");
        },
        BadgeKind::Critical => {
            s.append(BG_RED);
            s.append(BOLD);
            s.append("  ✗ CRITICAL  ");
        },
        BadgeKind::Info => {
            s.append(CYAN);
            s.append(BOLD);
            s.append("ℹ  INFO");
        },
        BadgeKind::Learning => {
            s.append(BLUE);
            s.append(BOLD);
            s.append("⏳ LEARNING");
        },
    }
    s.append(RESET);
    assert(s@ =~= badge_text(kind));
    s
}

// ── Banner, section header, key–value line, footer ───────────────────

/// The lines of the banner.
pub open spec fn banner_text() -> Seq<Seq<char>> {
    seq![
        Seq::empty(),
        "  "@ + BOLD@ + CYAN@ + "⚡ Pulse"@ + RESET@ + " "@ + DIM@
            + "— Intelligent System Behavior Analysis"@ + RESET@,
        "  "@ + DIM@ + repeat_char('━', 50) + RESET@,
        Seq::empty(),
    ]
}

/// The banner shown above every command.
pub fn banner() -> (lines: Vec<String>)
    ensures
        lines.deep_view() == banner_text(),
{
    let mut title = String::new();
    title.append("  ");
    title.append(BOLD);
    title.append(CYAN);
    title.append("⚡ Pulse");
    title.append(RESET);
    title.append(" ");
    title.append(DIM);
    title.append("— Intelligent System Behavior Analysis");
    title.append(RESET);
    let mut rule = String::new();
    rule.append("  ");
    rule.append(DIM);
    push_repeat(&mut rule, '━', 50);
    rule.append(RESET);
    let lines = vec![String::new(), title, rule, String::new()];
    assert(lines.deep_view() =~= banner_text());
    lines
}

/// The lines of a section header: a blank line, the bold title and a rule
/// as wide as the title's UTF-8 byte length plus four.
pub open spec fn section_text(title: Seq<char>) -> Seq<Seq<char>> {
    seq![
        Seq::empty(),
        BOLD@ + CYAN@ + "  "@ + title + "  "@ + RESET@,
        DIM@ + repeat_char('─', encode_utf8(title).len() + 4) + RESET@,
    ]
}

fn push_section(lines: &mut Vec<String>, title: &str)
    requires
        encode_utf8(title@).len() + 4 <= usize::MAX,
    ensures
        final(lines).deep_view() == old(lines).deep_view() + section_text(title@),
{
    let mut head = String::new();
    head.append(BOLD);
    head.append(CYAN);
    head.append("  ");
    head.append(title);
    head.append("  ");
    head.append(RESET);
    let mut rule = String::new();
    rule.append(DIM);
    push_repeat(&mut rule, '─', title.len() + 4);
    rule.append(RESET);
    lines.push(String::new());
    lines.push(head);
    lines.push(rule);
    assert(final(lines).deep_view() =~= old(lines).deep_view() + section_text(title@));
}

/// A section header.
pub fn section(title: &str) -> (lines: Vec<String>)
    requires
        encode_utf8(title@).len() + 4 <= usize::MAX,
    ensures
        lines.deep_view() == section_text(title@),
{
    let mut lines: Vec<String> = Vec::new();
    push_section(&mut lines, title);
    assert(lines.deep_view() =~= section_text(title@));
    lines
}

/// A key–value line: the key and a colon, bold, in a 14-character
/// field, then the value.
pub open spec fn kv_text(key: Seq<char>, value: Seq<char>) -> Seq<char> {
    "  "@ + BOLD@ + WHITE@ + pad_right(key + seq![':'], 14) + RESET@ + " "@ + value
}

/// A key–value line.
pub fn kv(key: &str, value: &str) -> (line: String)
    ensures
        line@ == kv_text(key@, value@),
{
    let mut label = String::new();
    label.append(key);
    label.push(':');
    let mut line = String::new();
    line.append("  ");
    line.append(BOLD);
    line.append(WHITE);
    push_padded(&mut line, label.as_str(), 14);
    line.append(RESET);
    line.append(" ");
    line.append(value);
    assert(line@ =~= kv_text(key@, value@));
    line
}

/// The lines of the footer.
pub open spec fn footer_text() -> Seq<Seq<char>> {
    seq![
        Seq::empty(),
        "  "@ + DIM@ + CYAN@ + "Tip:"@ + RESET@ + " Run "@ + BOLD@ + "pulse doctor"@ + RESET@
            + " for a system health check. Use "@ + BOLD@ + "pulse daemon start"@ + RESET@
            + " to begin background collection."@,
        Seq::empty(),
    ]
}

/// The footer shown below most commands.
pub fn footer() -> (lines: Vec<String>)
    ensures
        lines.deep_view() == footer_text(),
{
    let mut tip = String::new();
    tip.append("  ");
    tip.append(DIM);
    tip.append(CYAN);
    tip.append("Tip:");
    tip.append(RESET);
    tip.append(" Run ");
    tip.append(BOLD);
    tip.append("pulse doctor");
    tip.append(RESET);
    tip.append(" for a system health check. Use ");
    tip.append(BOLD);
    tip.append("pulse daemon start");
    tip.append(RESET);
    tip.append(" to begin background collection.");
    let lines = vec![String::new(), tip, String::new()];
    assert(lines.deep_view() =~= footer_text());
    lines
}

// ── Doctor Report ────────────────────────────────────────────────────

/// The daemon line's value in the health check.
pub open spec fn daemon_status_text(daemon_pid: Option<u32>) -> Seq<char> {
    match daemon_pid {
        Some(pid) => badge_text(BadgeKind::Good) + " running (PID "@ + decimal(pid as nat) + ")"@,
        None => badge_text(BadgeKind::Warn) + " not running"@,
    }
}

/// The lines of the health check report.
pub open spec fn doctor_report_text(
    config_path: Seq<char>,
    db_path: Seq<char>,
    db_size: nat,
    daemon_pid: Option<u32>,
    sys_metrics: int,
    proc_metrics: int,
    anomaly_count: int,
    tracked_processes: nat,
) -> Seq<Seq<char>> {
    section_text("Health Check"@) + seq![
        kv_text("Config"@, config_path),
        kv_text("Database"@, db_path),
        kv_text("DB Size"@, db_size_text(db_size)),
        kv_text("Daemon"@, daemon_status_text(daemon_pid)),
    ] + section_text("Data"@) + seq![
        kv_text("System Samples"@, signed_decimal(sys_metrics)),
        kv_text("Process Samples"@, signed_decimal(proc_metrics)),
        kv_text("Anomalies"@, signed_decimal(anomaly_count)),
        kv_text("Tracked Procs"@, decimal(tracked_processes)),
    ]
}

/// The health check report.
pub fn doctor_report(
    config_path: &str,
    db_path: &str,
    db_size: u64,
    daemon_pid: Option<u32>,
    sys_metrics: i64,
    proc_metrics: i64,
    anomaly_count: i64,
    tracked_processes: usize,
) -> (lines: Vec<String>)
    ensures
        lines.deep_view() == doctor_report_text(
            config_path@,
            db_path@,
            db_size as nat,
            daemon_pid,
            sys_metrics as int,
            proc_metrics as int,
            anomaly_count as int,
            tracked_processes as nat,
        ),
{
    proof {
        reveal_strlit("Health Check");
        reveal_strlit("Data");
        reveal_with_fuel(encode_utf8, 13);
        assert(encode_utf8("Health Check"@).len() == 12);
        assert(encode_utf8("Data"@).len() == 4);
    }
    let mut lines: Vec<String> = Vec::new();
    push_section(&mut lines, "Health Check");
    lines.push(kv("Config", config_path));
    lines.push(kv("Database", db_path));
    let size = format_db_size(db_size);
    lines.push(kv("DB Size", size.as_str()));
    let mut daemon = String::new();
    match daemon_pid {
        Some(pid) => {
            daemon.append(status_badge(BadgeKind::Good).as_str());
            daemon.append(" running (PID ");
            push_decimal(&mut daemon, pid as u128);
            daemon.append(")");
        },
        None => {
            daemon.append(status_badge(BadgeKind::Warn).as_str());
            daemon.append(" not running");
        },
    }
    assert(daemon@ =~= daemon_status_text(daemon_pid));
    lines.push(kv("Daemon", daemon.as_str()));
    let ghost first = section_text("Health Check"@) + seq![
        kv_text("Config"@, config_path@),
        kv_text("Database"@, db_path@),
        kv_text("DB Size"@, db_size_text(db_size as nat)),
        kv_text("Daemon"@, daemon_status_text(daemon_pid)),
    ];
    assert(lines.deep_view() =~= first);
    push_section(&mut lines, "Data");
    assert(lines.deep_view() =~= first + section_text("Data"@));
    let ghost l0 = lines.deep_view();
    let n1 = signed_decimal_string(sys_metrics);
    lines.push(kv("System Samples", n1.as_str()));
    let n2 = signed_decimal_string(proc_metrics);
    lines.push(kv("Process Samples", n2.as_str()));
    let n3 = signed_decimal_string(anomaly_count);
    lines.push(kv("Anomalies", n3.as_str()));
    let n4 = decimal_string(tracked_processes as u64);
    lines.push(kv("Tracked Procs", n4.as_str()));
    assert(lines.deep_view() =~= l0 + seq![
        kv_text("System Samples"@, n1@),
        kv_text("Process Samples"@, n2@),
        kv_text("Anomalies"@, n3@),
        kv_text("Tracked Procs"@, n4@),
    ]);
    let ghost second = section_text("Data"@) + seq![
        kv_text("System Samples"@, signed_decimal(sys_metrics as int)),
        kv_text("Process Samples"@, signed_decimal(proc_metrics as int)),
        kv_text("Anomalies"@, signed_decimal(anomaly_count as int)),
        kv_text("Tracked Procs"@, decimal(tracked_processes as nat)),
    ];
    assert(lines.deep_view() =~= first + second);
    assert(lines.deep_view() =~= doctor_report_text(
        config_path@,
        db_path@,
        db_size as nat,
        daemon_pid,
        sys_metrics as int,
        proc_metrics as int,
        anomaly_count as int,
        tracked_processes as nat,
    ));
    lines
}

// ── Anomaly Table ────────────────────────────────────────────────────

/// Whether a reason can be cut where the table cuts it: reasons longer
/// than 30 bytes are cut after byte 29, which must end a character.
pub open spec fn reason_cut_ok(reason: Seq<char>) -> bool {
    encode_utf8(reason).len() > 30 ==> is_char_boundary(encode_utf8(reason), 29)
}

/// A reason as the table shows it: its first 29 bytes and an ellipsis
/// when it is longer than 30 bytes, otherwise unchanged.
pub open spec fn short_reason(reason: Seq<char>) -> Seq<char> {
    let bytes = encode_utf8(reason);
    if bytes.len() > 30 {
        decode_utf8(bytes.subrange(0, 29)) + seq!['…']
    } else {
        reason
    }
}

fn shorten_reason(reason: &str) -> (s: String)
    requires
        reason_cut_ok(reason@),
    ensures
        s@ == short_reason(reason@),
{
    if reason.as_bytes().len() > 30 {
        let (head, _tail) = reason.split_at(29);
        let mut s = String::from_str(head);
        s.push('…');
        proof {
            assert(decode_utf8(head.spec_bytes()) == head@);
        }
        s
    } else {
        String::from_str(reason)
    }
}

/// The two header lines of the anomaly table.
pub open spec fn anomaly_header_text() -> Seq<Seq<char>> {
    seq![
        "  "@ + BOLD@ + WHITE@ + pad_right("Timestamp"@, 20) + " "@ + pad_right("Process"@, 16) + " "@
            + pad_right("Severity"@, 10) + " "@ + "Reason"@ + RESET@,
        "  "@ + DIM@ + repeat_char('─', 76) + RESET@,
    ]
}

/// The two header lines of the anomaly table.
pub fn anomaly_header() -> (lines: Vec<String>)
    ensures
        lines.deep_view() == anomaly_header_text(),
{
    let mut head = String::new();
    head.append("  ");
    head.append(BOLD);
    head.append(WHITE);
    push_padded(&mut head, "Timestamp", 20);
    head.append(" ");
    push_padded(&mut head, "Process", 16);
    head.append(" ");
    push_padded(&mut head, "Severity", 10);
    head.append(" ");
    head.append("Reason");
    head.append(RESET);
    let mut rule = String::new();
    rule.append("  ");
    rule.append(DIM);
    push_repeat(&mut rule, '─', 76);
    rule.append(RESET);
    let lines = vec![head, rule];
    assert(lines.deep_view() =~= anomaly_header_text());
    lines
}

/// The line shown when there are no anomalies.
pub open spec fn no_anomalies_text() -> Seq<char> {
    "  "@ + DIM@ + "No anomalies recorded."@ + RESET@
}

/// One row of the anomaly table, given the text of its timestamp.
pub open spec fn anomaly_line_text(timestamp: Seq<char>, row: AnomalyRow) -> Seq<char> {
    "  "@ + pad_right(timestamp, 20) + " "@ + pad_right(row.process_name@, 16) + " "@
        + pad_right(severity_text(row.severity@), 10) + " "@ + short_reason(row.reason@)
}

/// Whether `text` may be what the table shows for the Unix time `ts`:
/// `unknown` when chrono cannot represent it, otherwise the local date and
/// time of `ts` (whose offset from UTC depends on the machine), at least
/// 19 characters long.
pub open spec fn shows_timestamp(ts: int, text: Seq<char>) -> bool {
    &&& !timestamp_in_range(ts) ==> text == "unknown"@
    &&& timestamp_in_range(ts) ==> text.len() >= 19
    &&& timestamp_in_range(ts) ==> local_time_text(ts, text)
}

/// Whether `line` shows `row`, with a text for its timestamp that the
/// table may show.
pub open spec fn line_shows_row(line: Seq<char>, row: AnomalyRow) -> bool {
    exists|t: Seq<char>|
        shows_timestamp(row.timestamp as int, t) && line == #[trigger] anomaly_line_text(t, row)
}

/// One row of the anomaly table.
pub fn anomaly_line(timestamp: &str, row: &AnomalyRow) -> (line: String)
    requires
        reason_cut_ok(row.reason@),
    ensures
        line@ == anomaly_line_text(timestamp@, *row),
{
    let sev = format_severity(row.severity.as_str());
    let reason = shorten_reason(row.reason.as_str());
    let mut line = String::new();
    line.append("  ");
    push_padded(&mut line, timestamp, 20);
    line.append(" ");
    push_padded(&mut line, row.process_name.as_str(), 16);
    line.append(" ");
    push_padded(&mut line, sev.as_str(), 10);
    line.append(" ");
    line.append(reason.as_str());
    assert(line@ =~= anomaly_line_text(timestamp@, *row));
    line
}

/// The anomaly table: a note when there are no rows, otherwise the
/// header and one line per row, in order.
pub fn anomaly_table(rows: &Vec<AnomalyRow>) -> (lines: Vec<String>)
    requires
        forall|i: int| 0 <= i < rows.len() ==> reason_cut_ok(#[trigger] rows[i].reason@),
    ensures
        rows.len() == 0 ==> lines.deep_view() == seq![no_anomalies_text()],
        rows.len() > 0 ==> {
            &&& lines.len() == rows.len() + 2
            &&& lines.deep_view().subrange(0, 2) == anomaly_header_text()
            &&& forall|i: int|
                0 <= i < rows.len() ==> line_shows_row(#[trigger] lines.deep_view()[i + 2], rows[i])
        },
{
    if rows.len() == 0 {
        let mut lines: Vec<String> = Vec::new();
        let mut note = String::new();
        note.append("  ");
        note.append(DIM);
        note.append("No anomalies recorded.");
        note.append(RESET);
        lines.push(note);
        assert(lines.deep_view() =~= seq![no_anomalies_text()]);
        return lines;
    }
    let mut lines = anomaly_header();
    assert(lines.deep_view().subrange(0, 2) =~= anomaly_header_text());
    let mut k: usize = 0;
    while k < rows.len()
        invariant
            k <= rows.len(),
            lines.len() == k + 2,
            lines.deep_view().subrange(0, 2) == anomaly_header_text(),
            forall|i: int| 0 <= i < rows.len() ==> reason_cut_ok(#[trigger] rows[i].reason@),
            forall|i: int|
                0 <= i < k ==> line_shows_row(#[trigger] lines.deep_view()[i + 2], rows[i]),
        decreases rows.len() - k,
    {
        let row = &rows[k];
        let ts = format_timestamp(row.timestamp);
        let line = anomaly_line(ts.as_str(), row);
        let ghost before = lines.deep_view();
        lines.push(line);
        assert(lines.deep_view().subrange(0, 2) =~= before.subrange(0, 2));
        assert(shows_timestamp(rows[k as int].timestamp as int, ts@));
        assert(lines.deep_view()[k + 2] == anomaly_line_text(ts@, rows[k as int]));
        assert(line_shows_row(lines.deep_view()[k + 2], rows[k as int]));
        assert forall|i: int| 0 <= i < k + 1 implies line_shows_row(
            #[trigger] lines.deep_view()[i + 2],
            rows[i],
        ) by {
            if i < k {
                assert(lines.deep_view()[i + 2] == before[i + 2]);
            }
        }
        k = k + 1;
    }
    lines
}

// ── History Tables ───────────────────────────────────────────────────
// The CPU column is a floating-point figure; it is passed in as text.

/// The header lines of the process history table.
pub open spec fn process_history_header_text() -> Seq<Seq<char>> {
    seq![
        "  "@ + BOLD@ + WHITE@ + pad_right("Timestamp"@, 20) + " "@ + pad_right("PID"@, 8) + " "@
            + pad_right("Memory"@, 10) + " "@ + pad_right("CPU"@, 10) + RESET@,
        "  "@ + DIM@ + repeat_char('─', 52) + RESET@,
    ]
}

/// The line shown when a process has no history.
pub open spec fn no_process_history_text() -> Seq<char> {
    "  "@ + DIM@ + "No history data available."@ + RESET@
}

/// One row of the process history table.
pub open spec fn process_history_line_text(
    timestamp: Seq<char>,
    pid: int,
    memory: nat,
    cpu: Seq<char>,
) -> Seq<char> {
    "  "@ + pad_right(timestamp, 20) + " "@ + pad_right(signed_decimal(pid), 8) + " "@
        + pad_right(memory_bytes_text(memory), 10) + " "@ + pad_right(cpu, 10)
}

/// The header lines of the process history table.
pub fn process_history_header() -> (lines: Vec<String>)
    ensures
        lines.deep_view() == process_history_header_text(),
{
    let mut head = String::new();
    head.append("  ");
    head.append(BOLD);
    head.append(WHITE);
    push_padded(&mut head, "Timestamp", 20);
    head.append(" ");
    push_padded(&mut head, "PID", 8);
    head.append(" ");
    push_padded(&mut head, "Memory", 10);
    head.append(" ");
    push_padded(&mut head, "CPU", 10);
    head.append(RESET);
    let mut rule = String::new();
    rule.append("  ");
    rule.append(DIM);
    push_repeat(&mut rule, '─', 52);
    rule.append(RESET);
    let lines = vec![head, rule];
    assert(lines.deep_view() =~= process_history_header_text());
    lines
}

/// The line shown when a process has no history.
pub fn no_process_history() -> (line: String)
    ensures
        line@ == no_process_history_text(),
{
    let mut line = String::new();
    line.append("  ");
    line.append(DIM);
    line.append("No history data available.");
    line.append(RESET);
    line
}

/// One row of the process history table, given the text of its timestamp
/// and of its CPU figure.
pub fn process_history_line(timestamp: &str, pid: i32, memory: u64, cpu: &str) -> (line: String)
    ensures
        line@ == process_history_line_text(timestamp@, pid as int, memory as nat, cpu@),
{
    let pid_text = signed_decimal_string(pid as i64);
    let mem = format_memory_bytes(memory);
    let mut line = String::new();
    line.append("  ");
    push_padded(&mut line, timestamp, 20);
    line.append(" ");
    push_padded(&mut line, pid_text.as_str(), 8);
    line.append(" ");
    push_padded(&mut line, mem.as_str(), 10);
    line.append(" ");
    push_padded(&mut line, cpu, 10);
    assert(line@ =~= process_history_line_text(timestamp@, pid as int, memory as nat, cpu@));
    line
}

/// The header lines of the system history table.
pub open spec fn system_history_header_text() -> Seq<Seq<char>> {
    seq![
        "  "@ + BOLD@ + WHITE@ + pad_right("Timestamp"@, 20) + " "@ + pad_right("CPU"@, 10) + " "@
            + pad_right("Memory"@, 12) + " "@ + pad_right("Swap"@, 12) + RESET@,
        "  "@ + DIM@ + repeat_char('─', 58) + RESET@,
    ]
}

/// The line shown when there is no system history.
pub open spec fn no_system_history_text() -> Seq<char> {
    "  "@ + DIM@ + "No system history available."@ + RESET@
}

/// One row of the system history table.
pub open spec fn system_history_line_text(
    timestamp: Seq<char>,
    cpu: Seq<char>,
    memory: nat,
    swap: nat,
) -> Seq<char> {
    "  "@ + pad_right(timestamp, 20) + " "@ + pad_right(cpu, 10) + " "@ + pad_right(
        memory_bytes_text(memory),
        12,
    ) + " "@ + pad_right(memory_bytes_text(swap), 12)
}

/// The header lines of the system history table.
pub fn system_history_header() -> (lines: Vec<String>)
    ensures
        lines.deep_view() == system_history_header_text(),
{
    let mut head = String::new();
    head.append("  ");
    head.append(BOLD);
    head.append(WHITE);
    push_padded(&mut head, "Timestamp", 20);
    head.append(" ");
    push_padded(&mut head, "CPU", 10);
    head.append(" ");
    push_padded(&mut head, "Memory", 12);
    head.append(" ");
    push_padded(&mut head, "Swap", 12);
    head.append(RESET);
    let mut rule = String::new();
    rule.append("  ");
    rule.append(DIM);
    push_repeat(&mut rule, '─', 58);
    rule.append(RESET);
    let lines = vec![head, rule];
    assert(lines.deep_view() =~= system_history_header_text());
    lines
}

/// The line shown when there is no system history.
pub fn no_system_history() -> (line: String)
    ensures
        line@ == no_system_history_text(),
{
    let mut line = String::new();
    line.append("  ");
    line.append(DIM);
    line.append("No system history available.");
    line.append(RESET);
    line
}

/// One row of the system history table, given the text of its timestamp
/// and of its CPU figure.
pub fn system_history_line(timestamp: &str, cpu: &str, memory: u64, swap: u64) -> (line: String)
    ensures
        line@ == system_history_line_text(timestamp@, cpu@, memory as nat, swap as nat),
{
    let mem = format_memory_bytes(memory);
    let sw = format_memory_bytes(swap);
    let mut line = String::new();
    line.append("  ");
    push_padded(&mut line, timestamp, 20);
    line.append(" ");
    push_padded(&mut line, cpu, 10);
    line.append(" ");
    push_padded(&mut line, mem.as_str(), 12);
    line.append(" ");
    push_padded(&mut line, sw.as_str(), 12);
    assert(line@ =~= system_history_line_text(timestamp@, cpu@, memory as nat, swap as nat));
    line
}

} // verus!
