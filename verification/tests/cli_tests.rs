use pulse::cli::{parse_pid_file, pid_file_content, process_target};

#[test]
fn pid_file_examples() {
    assert_eq!(parse_pid_file("4242\n"), Some(4242));
    assert_eq!(parse_pid_file("  17  "), Some(17));
    assert_eq!(parse_pid_file("+8"), Some(8));
    assert_eq!(parse_pid_file("4294967295"), Some(u32::MAX));
    assert_eq!(parse_pid_file("4294967296"), None);
    assert_eq!(parse_pid_file(""), None);
    assert_eq!(parse_pid_file("   "), None);
    assert_eq!(parse_pid_file("-1"), None);
    assert_eq!(parse_pid_file("+"), None);
    assert_eq!(parse_pid_file("12 34"), None);
    assert_eq!(parse_pid_file("0x10"), None);
    assert_eq!(parse_pid_file("\u{3000}99\u{2029}"), Some(99));
}

#[test]
fn pid_file_matches_std_for_every_padding_char() {
    for code in 0u32..=0x10FFFF {
        if let Some(c) = char::from_u32(code) {
            let s = format!("{c}42{c}");
            assert_eq!(parse_pid_file(&s), s.trim().parse::<u32>().ok(), "char {:#x}", code);
        }
    }
}

#[test]
fn pid_file_matches_std_on_assorted_inputs() {
    let inputs = [
        "0", "00042", "+0", "++1", "1+", " +12 ", "\t\n123\r\n", "99999999999999999999",
        "4294967295 ", "٣", "1_000", "12a", "a12", "\u{85}7", "\u{a0}\u{1680}5\u{205f}",
        "\u{200b}5", "\u{feff}5",
    ];
    for s in inputs {
        assert_eq!(parse_pid_file(s), s.trim().parse::<u32>().ok(), "input {:?}", s);
    }
}

#[test]
fn pid_file_round_trips() {
    for pid in [0u32, 1, 9, 10, 4242, 65535, 1_000_000, u32::MAX] {
        let content = pid_file_content(pid);
        assert_eq!(content, pid.to_string());
        assert_eq!(parse_pid_file(&content), Some(pid));
    }
}

#[test]
fn process_target_matches_i32_parse() {
    let inputs = [
        "1234", "firefox", "-1", "+5", "-", "+", "", "2147483647", "2147483648", "-2147483648",
        "-2147483649", " 12", "12 ", "-0", "007", "1e3", "--1", "+-1",
    ];
    for s in inputs {
        assert_eq!(process_target(s), s.parse::<i32>().ok(), "input {:?}", s);
    }
}
