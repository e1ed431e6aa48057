use pulse::text::{decimal_string, eq_ignore_ascii_case, signed_decimal_string, str_eq};
use pulse::cli_core::format::format_memory_kb;
use pulse::ui::format::{
    format_db_size, format_duration, format_memory_bytes, format_severity, format_timestamp,
};

fn reference_memory_bytes(bytes: u64) -> String {
    let kb = bytes as f64 / 1024.0;
    if kb < 1024.0 {
        format!("{:.0} KB", kb)
    } else {
        let mb = kb / 1024.0;
        if mb < 1024.0 {
            format!("{:.1} MB", mb)
        } else {
            format!("{:.2} GB", mb / 1024.0)
        }
    }
}

fn reference_memory_kb(kb: u64) -> String {
    let mb = kb as f64 / (1024.0 * 1024.0);
    if mb < 1024.0 {
        format!("{:.1} MB", mb)
    } else {
        format!("{:.2} GB", mb / 1024.0)
    }
}

fn sample_values() -> Vec<u64> {
    let mut v: Vec<u64> = vec![
        0, 1, 511, 512, 513, 1023, 1024, 1535, 1536, 2560, 3584, 1_048_575, 1_048_576,
        1_100_000, 1_153_433, 1_153_434, 1_310_720, 1_258_291, 1_572_864, 1_073_741_823,
        1_073_741_824, 1_079_110_533, 1_084_479_242, 1_342_177_280, 5_000_000_000,
        (1u64 << 53) - 1, 1u64 << 53, (1u64 << 53) + 1, (1u64 << 53) + 3, (1u64 << 54) + 2,
        u64::MAX - 1, u64::MAX,
    ];
    // Exact ties at one and two decimals.
    for k in 0..64u64 {
        v.push(k * 1024 * 1024 + 256 * 1024);
        v.push(k * 1024 * 1024 + 768 * 1024);
        v.push((k << 30) + (1u64 << 27));
        v.push((k << 30) + (3u64 << 27));
        v.push((k << 30) + (5u64 << 26));
        v.push(k * 1024 + 512);
    }
    let mut x: u64 = 0x9E37_79B9_7F4A_7C15;
    for _ in 0..5000 {
        x ^= x << 13;
        x ^= x >> 7;
        x ^= x << 17;
        v.push(x);
        v.push(x >> (x % 64));
    }
    v
}

#[test]
fn memory_bytes_matches_float_formatting() {
    for b in sample_values() {
        assert_eq!(format_memory_bytes(b), reference_memory_bytes(b), "bytes = {}", b);
    }
}

#[test]
fn memory_kb_matches_float_formatting() {
    for k in sample_values() {
        assert_eq!(format_memory_kb(k), reference_memory_kb(k), "kb = {}", k);
    }
}

#[test]
fn memory_bytes_examples() {
    assert_eq!(format_memory_bytes(0), "0 KB");
    assert_eq!(format_memory_bytes(512), "0 KB");
    assert_eq!(format_memory_bytes(1536), "2 KB");
    assert_eq!(format_memory_bytes(2560), "2 KB");
    assert_eq!(format_memory_bytes(1_048_576), "1.0 MB");
    assert_eq!(format_memory_bytes(1_310_720), "1.2 MB");
    assert_eq!(format_memory_bytes(1_073_741_824), "1.00 GB");
    assert_eq!(format_memory_bytes(1_524_713_390), "1.42 GB");
}

#[test]
fn db_size_uses_bytes_below_a_kilobyte() {
    assert_eq!(format_db_size(0), "0 B");
    assert_eq!(format_db_size(1023), "1023 B");
    assert_eq!(format_db_size(1024), "1 KB");
    assert_eq!(format_db_size(4096), format_memory_bytes(4096));
}

#[test]
fn duration_examples() {
    assert_eq!(format_duration(0), "0s");
    assert_eq!(format_duration(59), "59s");
    assert_eq!(format_duration(-5), "-5s");
    assert_eq!(format_duration(i64::MIN), format!("{}s", i64::MIN));
    assert_eq!(format_duration(60), "1m 0s");
    assert_eq!(format_duration(3599), "59m 59s");
    assert_eq!(format_duration(3600), "1h 0m");
    assert_eq!(format_duration(7325), "2h 2m");
    assert_eq!(format_duration(i64::MAX), format!("{}h {}m", i64::MAX / 3600, (i64::MAX % 3600) / 60));
}

#[test]
fn severity_colours() {
    assert_eq!(format_severity("CRITICAL"), "\x1b[1m\x1b[31mCRITICAL\x1b[0m");
    assert_eq!(format_severity("HIGH"), "\x1b[1m\x1b[31mHIGH\x1b[0m");
    assert_eq!(format_severity("MEDIUM"), "\x1b[1m\x1b[33mMEDIUM\x1b[0m");
    assert_eq!(format_severity("LOW"), "\x1b[32mLOW\x1b[0m");
    assert_eq!(format_severity("low"), "low");
    assert_eq!(format_severity(""), "");
}

#[test]
fn timestamp_out_of_range_is_unknown() {
    assert_eq!(format_timestamp(i64::MAX), "unknown");
    assert_eq!(format_timestamp(i64::MIN), "unknown");
    assert_eq!(format_timestamp(8_210_266_876_800), "unknown");
    assert_eq!(format_timestamp(-8_334_601_228_801), "unknown");
    assert_ne!(format_timestamp(8_210_266_876_799), "unknown");
    assert_ne!(format_timestamp(-8_334_601_228_800), "unknown");
    assert_eq!(format_timestamp(0).len(), 19);
    for ts in [8_210_266_876_799i64, -8_334_601_228_800, -1, 1_700_000_000] {
        assert!(format_timestamp(ts).chars().count() >= 19, "ts = {}", ts);
    }
}

#[test]
fn timestamp_range_matches_chrono() {
    for ts in [8_210_266_876_799i64, 8_210_266_876_800, -8_334_601_228_800, -8_334_601_228_801, 0] {
        let chrono_some = chrono::DateTime::from_timestamp(ts, 0).is_some();
        assert_eq!(format_timestamp(ts) != "unknown", chrono_some, "ts = {}", ts);
    }
}

#[test]
fn text_helpers() {
    assert_eq!(decimal_string(0), "0");
    assert_eq!(decimal_string(u64::MAX), u64::MAX.to_string());
    assert_eq!(signed_decimal_string(-42), "-42");
    assert_eq!(signed_decimal_string(i64::MIN), i64::MIN.to_string());
    assert!(str_eq("abc", "abc"));
    assert!(!str_eq("abc", "abd"));
    assert!(!str_eq("abc", "ab"));
    assert!(eq_ignore_ascii_case("HeLLo", "hello"));
    assert!(!eq_ignore_ascii_case("É", "é"));
    assert!(!eq_ignore_ascii_case("a", "ab"));
}
