use secmon::display::{keep_latest, select_next, select_on_arrival, select_previous, KEPT_EVENTS};
use secmon::history::{extract_timestamp_text, parse_time_span, span_seconds, TimeUnit};
use secmon::notify::alert_log_line;
use secmon::lifecycle::{parse_pid, pid_file_state, PidFileState};
use secmon::numeral::{
    is_space_char, parse_digits, parse_i64, parse_u32, parse_unsigned, trim_bounds,
};
use secmon::text::{decimal, lower_hex};

#[test]
fn pid_files() {
    assert_eq!(parse_pid("1234\n"), Some(1234));
    assert_eq!(parse_pid("  42  "), Some(42));
    assert_eq!(parse_pid("+7"), Some(7));
    assert_eq!(parse_pid("4294967295"), Some(u32::MAX));
    assert_eq!(parse_pid("4294967296"), None);
    assert_eq!(parse_pid("-1"), None);
    assert_eq!(parse_pid("12 34"), None);
    assert_eq!(parse_pid("0x10"), None);
    assert_eq!(parse_pid(""), None);
    assert_eq!(parse_pid("\n"), None);
    assert_eq!(pid_file_state(None, false), PidFileState::Absent);
    assert_eq!(pid_file_state(None, true), PidFileState::Absent);
    assert_eq!(pid_file_state(Some("junk"), true), PidFileState::Invalid);
    assert_eq!(pid_file_state(Some("77\n"), false), PidFileState::Stale(77));
    assert_eq!(pid_file_state(Some("77\n"), true), PidFileState::Live(77));
    assert!(PidFileState::Live(1).is_running());
    assert!(!PidFileState::Stale(1).is_running());
    assert!(!PidFileState::Absent.is_running());
    assert!(PidFileState::Stale(1).must_remove());
    assert!(PidFileState::Invalid.must_remove());
    assert!(!PidFileState::Live(1).must_remove());
    assert!(!PidFileState::Absent.must_remove());
}

#[test]
fn numbers_are_read_as_the_standard_library_reads_them() {
    for text in [
        "0", "007", "+12", "-12", "--1", "+-1", "-+1", "+", "-", "", " 1", "1 ", "12a", "٣",
        "9223372036854775807", "9223372036854775808", "-9223372036854775808",
        "-9223372036854775809", "18446744073709551615", "18446744073709551616",
        "99999999999999999999999999", "-0", "+0",
    ] {
        let chars: Vec<char> = text.chars().collect();
        assert_eq!(parse_i64(&chars, 0, chars.len()), text.parse::<i64>().ok(), "{:?}", text);
        assert_eq!(
            parse_unsigned(&chars, 0, chars.len(), 10, u64::MAX),
            text.parse::<u64>().ok(),
            "{:?}",
            text
        );
        assert_eq!(parse_u32(text), text.trim().parse::<u32>().ok(), "{:?}", text);
    }
    let chars: Vec<char> = "x17f".chars().collect();
    assert_eq!(parse_digits(&chars, 1, 4, 16, 1000), Some(0x17f));
    assert_eq!(parse_digits(&chars, 1, 4, 16, 0x17e), None);
    assert_eq!(parse_digits(&chars, 1, 3, 8, 1000), Some(0o17));
    assert_eq!(parse_digits(&chars, 1, 3, 2, 1000), None);
    assert_eq!(parse_digits(&chars, 0, 3, 16, 1000), None);
    assert_eq!(parse_digits(&chars, 2, 2, 10, 1000), None);
}

#[test]
fn white_space_is_trimmed() {
    for text in ["", " ", "  a b \t", "a", "\u{3000}x\u{a0}", "\n\n", "x  ", "  x"] {
        let chars: Vec<char> = text.chars().collect();
        let (a, b) = trim_bounds(&chars);
        let got: String = chars[a..b].iter().collect();
        assert_eq!(got, text.trim(), "{:?}", text);
    }
}

#[test]
fn time_spans() {
    assert_eq!(parse_time_span("1h"), Some((TimeUnit::Hours, 1)));
    assert_eq!(parse_time_span("30m"), Some((TimeUnit::Minutes, 30)));
    assert_eq!(parse_time_span("7d"), Some((TimeUnit::Days, 7)));
    assert_eq!(parse_time_span("12hh"), Some((TimeUnit::Hours, 12)));
    assert_eq!(parse_time_span("-3d"), Some((TimeUnit::Days, -3)));
    assert_eq!(parse_time_span("+3m"), Some((TimeUnit::Minutes, 3)));
    assert_eq!(parse_time_span("h"), None);
    assert_eq!(parse_time_span(""), None);
    assert_eq!(parse_time_span("5"), None);
    assert_eq!(parse_time_span("5s"), None);
    assert_eq!(parse_time_span("5mh"), None);
    assert_eq!(parse_time_span("1.5h"), None);
    assert_eq!(parse_time_span(" 1h"), None);
    assert_eq!(parse_time_span("5H"), None);
    assert_eq!(parse_time_span("9223372036854775808d"), None);
    assert_eq!(span_seconds(TimeUnit::Hours, 2), Some(7200));
    assert_eq!(span_seconds(TimeUnit::Minutes, -3), Some(-180));
    assert_eq!(span_seconds(TimeUnit::Days, 1), Some(86400));
    assert_eq!(span_seconds(TimeUnit::Days, i64::MAX), None);
    assert_eq!(span_seconds(TimeUnit::Minutes, i64::MIN), None);
    assert_eq!(span_seconds(TimeUnit::Minutes, i64::MAX / 60), Some(i64::MAX / 60 * 60));
    assert_eq!(span_seconds(TimeUnit::Minutes, i64::MAX / 60 + 1), None);
}

#[test]
fn selection_wraps_around() {
    assert_eq!(select_next(None, 0), None);
    assert_eq!(select_next(Some(3), 0), Some(3));
    assert_eq!(select_next(None, 3), Some(0));
    assert_eq!(select_next(Some(0), 3), Some(1));
    assert_eq!(select_next(Some(2), 3), Some(0));
    assert_eq!(select_next(Some(9), 3), Some(0));
    assert_eq!(select_previous(None, 0), None);
    assert_eq!(select_previous(None, 3), Some(0));
    assert_eq!(select_previous(Some(0), 3), Some(2));
    assert_eq!(select_previous(Some(2), 3), Some(1));
    assert_eq!(select_on_arrival(None, 5), Some(4));
    assert_eq!(select_on_arrival(Some(1), 5), Some(1));
    assert_eq!(select_on_arrival(None, 0), None);
}

#[test]
fn list_keeps_the_latest_events() {
    let mut list = Vec::new();
    for n in 0..1005 {
        keep_latest(&mut list, n, KEPT_EVENTS);
    }
    assert_eq!(list.len(), 1000);
    assert_eq!(list[0], 5);
    assert_eq!(list[999], 1004);
    let mut small = vec![1, 2];
    keep_latest(&mut small, 3, 2);
    assert_eq!(small, vec![2, 3]);
    keep_latest(&mut small, 4, 5);
    assert_eq!(small, vec![2, 3, 4]);
    let mut none: Vec<u8> = Vec::new();
    keep_latest(&mut none, 1, 0);
    assert!(none.is_empty());
}

#[test]
fn alert_log_lines() {
    let line = alert_log_line("2024-05-12 18:04:11", "/dev/video0", "Camera device access detected");
    assert_eq!(line, "[2024-05-12 18:04:11] CRITICAL: /dev/video0 - Camera device access detected");
    assert_eq!(extract_timestamp_text(&line).unwrap(), "2024-05-12 18:04:11");
    assert_eq!(extract_timestamp_text("[]").unwrap(), "");
    assert_eq!(extract_timestamp_text("a [b] [c]").unwrap(), "b");
    assert_eq!(extract_timestamp_text("a [b [c] d]").unwrap(), "b [c");
    assert_eq!(extract_timestamp_text("] then [x]"), None);
    assert_eq!(extract_timestamp_text("[open"), None);
    assert_eq!(extract_timestamp_text("close]"), None);
    assert_eq!(extract_timestamp_text(""), None);
}

#[test]
fn white_space_is_what_the_standard_library_calls_so() {
    let mut c = '\0';
    loop {
        assert_eq!(is_space_char(c), c.is_whitespace(), "{:?}", c);
        if c == char::MAX {
            break;
        }
        c = match char::from_u32(c as u32 + 1) {
            Some(next) => next,
            None => '\u{e000}',
        };
    }
}

#[test]
fn numbers_are_written() {
    for n in [0u64, 1, 9, 10, 11, 99, 100, 255, 65535, 4_294_967_295, u64::MAX] {
        assert_eq!(decimal(n), n.to_string());
        assert_eq!(lower_hex(n), format!("{:x}", n));
    }
}
