use gbandit::lines::{joined, lines_of, replaced, split_at};
use gbandit::numbers::{decimal_text, padded, parse_signed, run_text, signed_text, two_digit_text};
use gbandit::outside::WallClock;
use gbandit::printer::{
    confirm_typed, confirm_yes, format_clock, format_event_timestamp, local_timestamp, Notice,
    Printer,
};
use gbandit::text::{
    after_prefix, before_suffix, begins, cut, ends, find_in, is_control, is_white, lowered,
    mentions, same, trimmed,
};

const PLAIN: Printer = Printer { verbose: false, timestamps: false, json: false };

fn is_clock(text: &str) -> bool {
    let b = text.as_bytes();
    b.len() == 11
        && b[2] == b':'
        && b[5] == b':'
        && b[8] == b'.'
        && [0, 1, 3, 4, 6, 7, 9, 10].iter().all(|i| b[*i].is_ascii_digit())
}

#[test]
fn clocks_show_hundredths() {
    let clock = |hour, minute, second, millis| WallClock { hour, minute, second, millis };
    assert_eq!(format_clock(clock(7, 8, 9, 123)), "07:08:09.12");
    assert_eq!(format_clock(clock(23, 59, 59, 999)), "23:59:59.99");
    assert_eq!(format_clock(clock(0, 0, 0, 0)), "00:00:00.00");
    // A leap second counts on.
    assert_eq!(format_clock(clock(23, 59, 59, 1500)), "23:59:60.150");
    assert!(is_clock(&local_timestamp()));
}

#[test]
fn event_times_are_those_of_chrono() {
    let raw = "2024-05-06T07:08:09.129Z";
    let local = chrono::DateTime::parse_from_rfc3339(raw).unwrap().with_timezone(&chrono::Local);
    let wanted = format!("{}.12", local.format("%H:%M:%S"));
    assert_eq!(format_event_timestamp(raw), Some(wanted));
    assert_eq!(format_event_timestamp("yesterday"), None);
}

#[test]
fn times_stand_in_front_of_lines() {
    let timed = Printer { verbose: false, timestamps: true, json: false };
    let line = timed.progress("hello").text;
    assert!(is_clock(&line[..11]));
    assert_eq!(&line[11..], " hello");
    let event = Notice::Event {
        stage: "build".to_string(),
        created_at: Some("2024-05-06T07:08:09.129Z".to_string()),
        line: "x".to_string(),
        with_label: true,
    };
    let text = timed.render(&event).text;
    let clock = format_event_timestamp("2024-05-06T07:08:09.129Z").unwrap();
    assert_eq!(text, format!("{clock} [build] x"));
    let undated = Notice::Event {
        stage: "build".to_string(),
        created_at: Some("soon".to_string()),
        line: "x".to_string(),
        with_label: false,
    };
    let text = timed.render(&undated).text;
    assert!(is_clock(&text[..11]));
    assert_eq!(&text[11..], " x");
    assert_eq!(timed.render(&Notice::Plain("p".to_string())).text, "p");
    assert_eq!(PLAIN.render(&event).text, "[build] x");
    assert_eq!(PLAIN.progress("hello").text, "hello");
}

#[test]
fn machine_readable_output_keeps_its_stream() {
    let json = Printer { verbose: false, timestamps: false, json: true };
    assert!(json.progress("x").to_stderr);
    assert!(!PLAIN.progress("x").to_stderr);
    assert!(!json.render(&Notice::Plain("x".to_string())).to_stderr);
    assert!(json.print_event_line("s", None, "x", false).to_stderr);
}

#[test]
fn log_lines_follow_verbosity() {
    let verbose = Printer { verbose: true, timestamps: false, json: false };
    let texts = |p: &Printer, list: Vec<Notice>| {
        list.iter().map(|n| p.render(n).text).collect::<Vec<String>>()
    };
    assert_eq!(texts(&PLAIN, PLAIN.info("s", None, "a\r\nb\n")), vec!["a", "b"]);
    assert_eq!(texts(&verbose, verbose.info("s", None, "a")), vec!["[s] a"]);
    assert!(PLAIN.debug("s", None, "a").is_empty());
    assert_eq!(texts(&verbose, verbose.debug("s", None, "a\n\nb")), vec!["[s] a", "[s] ", "[s] b"]);
    assert!(PLAIN.status("s", None, "k", Some("d")).is_empty());
    assert_eq!(texts(&verbose, verbose.status("s", None, "k", Some("d"))), vec!["[s] k: d"]);
    assert_eq!(texts(&verbose, verbose.status("s", None, "k", Some(""))), vec!["[s] k"]);
    assert_eq!(texts(&verbose, verbose.status("s", None, "k", None)), vec!["[s] k"]);
}

#[test]
fn answers_are_taken_as_meant() {
    for yes in ["", "\n", "y", "Y\n", " yes ", "YES"] {
        assert!(confirm_yes(yes), "{yes:?}");
    }
    for no in ["n", "no", "yep", "q", "ja"] {
        assert!(!confirm_yes(no), "{no:?}");
    }
    assert!(confirm_typed(" p\n", "p", "m").is_ok());
    assert_eq!(confirm_typed("P", "p", "m").unwrap_err(), "m");
}

#[test]
fn characters_are_classed_as_std_classes_them() {
    for c in '\u{0}'..='\u{10ffff}' {
        assert_eq!(is_white(c), c.is_whitespace(), "{:x}", c as u32);
        assert_eq!(is_control(c), c.is_control(), "{:x}", c as u32);
    }
}

#[test]
fn texts_are_searched_as_std_searches_them() {
    let samples = ["", "a", "ab", "aab", "a-b-c", "--", " é x ", "x\r\ny\n\nz\r", "abcabc", "\n", "\u{2003}q\u{85}"];
    let patterns = ["a", "ab", "-", "é", "bc", "\n", " "];
    for s in samples {
        assert_eq!(trimmed(s), s.trim(), "{s:?}");
        assert_eq!(lowered(s), s.to_ascii_lowercase());
        assert_eq!(lines_of(s), s.lines().collect::<Vec<&str>>(), "{s:?}");
        assert_eq!(split_at(s, '-'), s.split('-').collect::<Vec<&str>>(), "{s:?}");
        assert_eq!(joined(&split_at(s, '-'), "-"), s);
        for p in patterns {
            assert_eq!(mentions(s, p), s.contains(p), "{s:?} {p:?}");
            assert_eq!(find_in(s, p), s.find(p).map(|i| s[..i].chars().count()));
            assert_eq!(begins(s, p), s.starts_with(p));
            assert_eq!(ends(s, p), s.ends_with(p));
            assert_eq!(after_prefix(s, p), s.strip_prefix(p).map(str::to_string));
            assert_eq!(before_suffix(s, p), s.strip_suffix(p).map(str::to_string));
            assert_eq!(
                cut(s, p),
                s.split_once(p).map(|(a, b)| (a.to_string(), b.to_string()))
            );
            assert_eq!(replaced(s, p, "<>"), s.replace(p, "<>"), "{s:?} {p:?}");
            assert_eq!(same(s, p), s == p);
        }
    }
}

#[test]
fn numbers_are_written_and_read_back() {
    for n in [0i64, 7, 10, -1, -10, 123456789, i64::MAX, i64::MIN] {
        assert_eq!(signed_text(n), n.to_string());
        assert_eq!(parse_signed(&signed_text(n)), Some(n));
    }
    assert_eq!(decimal_text(u64::MAX), u64::MAX.to_string());
    for s in ["", "+", "-", "+5", "-0", "00", "1 ", "x", "9223372036854775807", "9223372036854775808", "-9223372036854775808", "-9223372036854775809", "99999999999999999999999", "５"] {
        assert_eq!(parse_signed(s), s.parse::<i64>().ok(), "{s:?}");
    }
    assert_eq!(two_digit_text(5), "05");
    assert_eq!(two_digit_text(150), "150");
    assert_eq!(run_text('-', 3), "---");
    for (s, w) in [("ab", 4), ("ab", 2), ("abc", 1), ("é", 3), ("", 0)] {
        assert_eq!(padded(s, w), format!("{s:w$}"));
    }
}
