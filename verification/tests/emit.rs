use awstail::emit::{emit_line, emit_lines, print_date, print_date_at, trim, Line};
use awstail::event::LogEvent;
use awstail::window::{CALENDAR_FIRST_SEC, CALENDAR_LAST_SEC};
use chrono::{Local, TimeZone};

fn shown(secs: i64) -> String {
    Local.timestamp_opt(secs, 0).unwrap().format("%Y-%m-%d %H:%M:%S").to_string()
}

#[test]
fn trim_cuts_white_space_at_both_ends_only() {
    assert_eq!(trim("  hello world \n"), "hello world");
    assert_eq!(trim("hello"), "hello");
    assert_eq!(trim(""), "");
    assert_eq!(trim(" \t\r\n"), "");
    assert_eq!(trim("a"), "a");
    assert_eq!(trim(" a"), "a");
    assert_eq!(trim("a "), "a");
    assert_eq!(trim("\u{3000}día\u{a0}\u{2003}"), "día");
    assert_eq!(trim("x \u{85} y"), "x \u{85} y");
}

#[test]
fn trim_agrees_with_the_standard_library_on_every_character() {
    for code in 0u32..=0x3100 {
        if let Some(c) = char::from_u32(code) {
            let text = format!("{}a{}b{}", c, c, c);
            assert_eq!(trim(&text), text.trim(), "U+{:04X}", code);
        }
    }
    for code in [0xFEFFu32, 0x180E, 0x200B, 0x200C, 0x2060, 0xE000, 0x1F600, 0x10FFFF] {
        let c = char::from_u32(code).unwrap();
        let text = format!("{} a {}", c, c);
        assert_eq!(trim(&text), text.trim(), "U+{:04X}", code);
    }
}

#[test]
fn no_timestamp_no_date() {
    assert_eq!(print_date(None), "");
}

#[test]
fn date_is_that_of_the_whole_second_on_the_local_clock() {
    assert_eq!(print_date(Some(0)), shown(0));
    assert_eq!(print_date(Some(1_600_000_000_999)), shown(1_600_000_000));
    assert_eq!(print_date(Some(1_600_000_001_000)), shown(1_600_000_001));
    assert_eq!(print_date(Some(-1)), shown(0));
    assert_eq!(print_date(Some(-999)), shown(0));
    assert_eq!(print_date(Some(-1000)), shown(-1));
    assert_eq!(print_date(Some(-1500)), shown(-1));
    assert_eq!(print_date(Some(1_600_000_000_000)).len(), 19);
}

#[test]
fn timestamp_out_of_the_calendar_has_no_date() {
    assert_eq!(print_date(Some(i64::MAX)), "");
    assert_eq!(print_date(Some(i64::MIN)), "");
    assert_eq!(print_date(Some((CALENDAR_LAST_SEC + 1) * 1000)), "");
    assert_eq!(print_date(Some((CALENDAR_FIRST_SEC - 1) * 1000)), "");
    assert_ne!(print_date(Some(CALENDAR_LAST_SEC * 1000 + 999)), "");
    assert_ne!(print_date(Some(CALENDAR_FIRST_SEC * 1000)), "");
}

#[test]
fn line_shows_date_and_trimmed_message() {
    let event = LogEvent { timestamp: Some(1_600_000_000_123), message: Some("  boom \n".into()) };
    let line = emit_line(&event);
    assert_eq!(line.timestamp, Some(1_600_000_000_123));
    assert_eq!(line.date, shown(1_600_000_000));
    assert_eq!(line.text, "boom");
    assert_eq!(line.plain(), format!("{} boom", shown(1_600_000_000)));
}

#[test]
fn line_of_an_event_without_parts() {
    let line = emit_line(&LogEvent { timestamp: None, message: None });
    assert_eq!(line.timestamp, None);
    assert_eq!(line.date, "");
    assert_eq!(line.text, "");
    assert_eq!(line.plain(), " ");
}

#[test]
fn lines_follow_the_batch() {
    let batch = vec![
        LogEvent { timestamp: Some(1000), message: Some("one ".into()) },
        LogEvent { timestamp: None, message: Some(" two".into()) },
        LogEvent { timestamp: Some(3000), message: None },
    ];
    let lines = emit_lines(&batch);
    assert_eq!(lines.len(), 3);
    assert_eq!(lines[0].text, "one");
    assert_eq!(lines[1].text, "two");
    assert_eq!(lines[2].text, "");
    assert_eq!(lines[0].date, shown(1));
    assert_eq!(lines[1].date, "");
    assert_eq!(lines[2].date, shown(3));
    assert!(emit_lines(&Vec::new()).is_empty());
}

#[test]
fn line_under_a_given_date() {
    let event = LogEvent { timestamp: Some(5), message: Some("\t spaced  out \r\n".into()) };
    let line = Line::of(&event, String::from("2020-09-13 12:26:40"));
    assert_eq!(line.timestamp, Some(5));
    assert_eq!(line.date, "2020-09-13 12:26:40");
    assert_eq!(line.text, "spaced  out");
    assert_eq!(line.plain(), "2020-09-13 12:26:40 spaced  out");
    let bare = Line::of(&LogEvent { timestamp: None, message: None }, String::new());
    assert_eq!((bare.date.as_str(), bare.text.as_str()), ("", ""));
}

#[test]
fn date_on_a_given_clock() {
    assert_eq!(print_date_at(Some(1_600_000_000_000), 0), "2020-09-13 12:26:40");
    assert_eq!(print_date_at(Some(1_600_000_000_000), 7200), "2020-09-13 14:26:40");
    assert_eq!(print_date_at(Some(1_600_000_000_000), -45_000), "2020-09-12 23:56:40");
    assert_eq!(print_date_at(Some(0), 0), "1970-01-01 00:00:00");
    assert_eq!(print_date_at(Some(0), -1), "1969-12-31 23:59:59");
    assert_eq!(print_date_at(Some(253_402_300_799_000), 0), "9999-12-31 23:59:59");
    assert_eq!(print_date_at(Some(253_402_300_800_000), 0), "+10000-01-01 00:00:00");
    assert_eq!(print_date_at(Some(-62_167_219_200_000), 0), "0000-01-01 00:00:00");
    assert_eq!(print_date_at(Some(-62_167_219_201_000), 0), "-0001-12-31 23:59:59");
}

#[test]
fn date_leaves_the_milliseconds_out() {
    for offset in [0, 3600, -3600] {
        let whole = print_date_at(Some(1_600_000_000_000), offset);
        assert_eq!(print_date_at(Some(1_600_000_000_001), offset), whole);
        assert_eq!(print_date_at(Some(1_600_000_000_999), offset), whole);
        assert_ne!(print_date_at(Some(1_600_000_001_000), offset), whole);
    }
    assert_eq!(print_date_at(Some(-1), 0), "1970-01-01 00:00:00");
    assert_eq!(print_date_at(Some(-999), 0), "1970-01-01 00:00:00");
    assert_eq!(print_date_at(Some(-1000), 0), "1969-12-31 23:59:59");
    assert_eq!(print_date_at(Some(-1999), 0), "1969-12-31 23:59:59");
    for x in [0i64, 1, 999, 1000, 1_600_000_000_123, 86_399_999] {
        assert_eq!(print_date(Some(x)), print_date(Some(x - x % 1000)));
    }
}

#[test]
fn date_needs_a_timestamp_a_calendar_and_a_clock() {
    assert_eq!(print_date_at(None, 0), "");
    assert_eq!(print_date_at(Some(0), 86_400), "");
    assert_eq!(print_date_at(Some(0), -86_400), "");
    assert_eq!(print_date_at(Some(0), i32::MAX), "");
    assert_eq!(print_date_at(Some(0), i32::MIN), "");
    assert_eq!(print_date_at(Some(0), 86_399), "1970-01-01 23:59:59");
    assert_eq!(print_date_at(Some(0), -86_399), "1969-12-31 00:00:01");
    assert_eq!(print_date_at(Some(i64::MAX), 0), "");
    assert_eq!(print_date_at(Some(i64::MIN), 0), "");
    assert_eq!(print_date_at(Some((CALENDAR_LAST_SEC + 1) * 1000), 0), "");
    assert_eq!(print_date_at(Some((CALENDAR_FIRST_SEC - 1) * 1000), 0), "");
    assert_eq!(
        print_date_at(Some(CALENDAR_LAST_SEC * 1000 + 999), 0),
        "+262142-12-31 23:59:59"
    );
    assert_eq!(print_date_at(Some(CALENDAR_FIRST_SEC * 1000), 0), "-262143-01-01 00:00:00");
    assert_eq!(
        print_date_at(Some(CALENDAR_LAST_SEC * 1000), 86_399),
        "+262143-01-01 23:59:58"
    );
    assert_eq!(
        print_date_at(Some(CALENDAR_FIRST_SEC * 1000), -86_399),
        "-262144-12-31 00:00:01"
    );
}

#[test]
fn local_date_is_the_date_on_the_local_clock() {
    for millis in [0i64, 1_600_000_000_123, -86_400_000, 1_711_846_800_000, 4_102_444_800_000] {
        let offset =
            Local.timestamp_opt(millis / 1000, 0).unwrap().offset().local_minus_utc();
        assert_eq!(print_date(Some(millis)), print_date_at(Some(millis), offset));
    }
}

#[test]
fn trimming_twice_is_trimming_once() {
    for text in ["", " ", "a", " a b ", "\u{2028}x\u{2029}", "\n\n", " \u{feff} "] {
        let once = trim(text);
        assert_eq!(trim(&once), once);
    }
}
