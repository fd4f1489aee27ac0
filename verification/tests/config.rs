use awstail::cli::{CliOptions, CommandOptions, LogsOptions};
use awstail::config::{read_duration, settle, ConfigError};
use awstail::span::Span;

fn span(secs: u64, nanos: u32) -> Span {
    Span::new(secs, nanos).unwrap()
}

fn options() -> LogsOptions {
    LogsOptions {
        help: false,
        group: Some(String::from("grp")),
        watch: None,
        since: None,
        filter: None,
        timeout: None,
    }
}

#[test]
fn durations_are_read_as_humantime_reads_them() {
    assert_eq!(read_duration("5min"), Some(span(300, 0)));
    assert_eq!(read_duration("1d"), Some(span(86_400, 0)));
    assert_eq!(read_duration(" 30s"), Some(span(30, 0)));
    assert_eq!(read_duration("1h 30m 15s"), Some(span(5415, 0)));
    assert_eq!(read_duration("1500ms"), Some(span(1, 500_000_000)));
    assert_eq!(read_duration("1.5s"), Some(span(1, 500_000_000)));
    assert_eq!(read_duration("0"), Some(span(0, 0)));
    assert_eq!(read_duration("2 weeks 7ns"), Some(span(1_209_600, 7)));
    for text in ["5min", "90s", "3h 2m 1s", "250ms", "1y", "12345678901ns"] {
        let d = humantime::parse_duration(text).unwrap();
        assert_eq!(read_duration(text), Some(span(d.as_secs(), d.subsec_nanos())));
    }
}

#[test]
fn what_is_no_duration_is_not_read() {
    assert_eq!(read_duration(""), None);
    assert_eq!(read_duration("soon"), None);
    assert_eq!(read_duration("5"), None);
    assert_eq!(read_duration("5 parsecs"), None);
    assert_eq!(read_duration("-5s"), None);
    assert_eq!(read_duration("ten s"), None);
}

#[test]
fn long_texts_of_small_numbers_are_read() {
    assert_eq!(read_duration("12h 30min 15s 500ms 250us"), Some(span(45_015, 500_250_000)));
    assert_eq!(read_duration("1s 2s 3s 4s 5s 6s 7s 8s 9s 1s 2s 3s"), Some(span(51, 0)));
    assert_eq!(
        read_duration("1year 2months 3weeks 4days 5hours 6min 7s 8ms 9us 10ns"),
        humantime::parse_duration("1year 2months 3weeks 4days 5hours 6min 7s 8ms 9us 10ns")
            .ok()
            .map(|d| span(d.as_secs(), d.subsec_nanos()))
    );
    assert_eq!(read_duration("1 0s"), Some(span(10, 0)));
    assert_eq!(read_duration("0.000000001s"), Some(span(0, 1)));
}

#[test]
fn numbers_that_weigh_too_much_are_not_read() {
    assert_eq!(read_duration("12345678901s"), Some(span(12_345_678_901, 0)));
    assert_eq!(read_duration("99999999999y"), Some(span(99_999_999_999 * 31_557_600, 0)));
    assert_eq!(read_duration("123456789012s"), None);
    assert_eq!(read_duration("1 2 3 4 5 6 7 8 9 0 1 2s"), None);
    assert_eq!(read_duration("100000000000ns"), None);
    assert_eq!(read_duration("1.000000000000s"), None);
    let eleven = "10000000000s";
    let five = [eleven; 5].join(" ");
    let six = [eleven; 6].join(" ");
    assert_eq!(read_duration(&five), Some(span(50_000_000_000, 0)));
    assert_eq!(read_duration(&six), None);
    let fifty = ["1000000000s"; 50].join("");
    let fifty_one = ["1000000000s"; 51].join("");
    assert_eq!(read_duration(&fifty), Some(span(50_000_000_000, 0)));
    assert_eq!(read_duration(&fifty_one), None);
}

#[test]
fn texts_that_the_parser_fails_on_are_not_read() {
    assert_eq!(read_duration("18446744073709551615s 1000ms"), None);
    assert_eq!(read_duration("18446744073709551615s 500ms 500ms"), None);
    assert_eq!(read_duration("18446744073709551615s0.5s0.5s"), None);
}

#[test]
fn settings_fill_in_what_was_not_given() {
    let s = settle(Some(String::from("grp")), None, None, None, None).unwrap();
    assert_eq!(s.group, "grp");
    assert_eq!(s.filter, None);
    assert_eq!(s.lookback, span(300, 0));
    assert_eq!(s.timeout, span(60, 0));
    assert_eq!(s.watch, None);
}

#[test]
fn settings_carry_what_was_given() {
    let s = settle(
        Some(String::from("grp")),
        Some(String::from("pat")),
        Some(Some(span(3600, 0))),
        Some(Some(span(30, 5))),
        Some(Some(span(10, 0))),
    )
    .unwrap();
    assert_eq!(s.group, "grp");
    assert_eq!(s.filter.as_deref(), Some("pat"));
    assert_eq!(s.lookback, span(3600, 0));
    assert_eq!(s.timeout, span(30, 5));
    assert_eq!(s.watch, Some(span(10, 0)));
}

#[test]
fn first_fault_decides() {
    let good = Some(Some(span(1, 0)));
    let bad: Option<Option<Span>> = Some(None);
    let group = || Some(String::from("g"));
    assert_eq!(settle(None, None, bad, bad, bad).err(), Some(ConfigError::MissingGroup));
    assert_eq!(settle(None, None, None, None, None).err(), Some(ConfigError::MissingGroup));
    assert_eq!(settle(group(), None, bad, bad, bad).err(), Some(ConfigError::MalformedSince));
    assert_eq!(settle(group(), None, good, bad, bad).err(), Some(ConfigError::MalformedTimeout));
    assert_eq!(settle(group(), None, None, bad, None).err(), Some(ConfigError::MalformedTimeout));
    assert_eq!(settle(group(), None, good, good, bad).err(), Some(ConfigError::MalformedWatch));
    assert_eq!(settle(group(), None, None, None, bad).err(), Some(ConfigError::MalformedWatch));
}

#[test]
fn options_of_logs_become_settings() {
    let mut o = options();
    o.since = Some(String::from("1h"));
    o.timeout = Some(String::from("45s"));
    o.watch = Some(String::from(" 30s"));
    o.filter = Some(String::from(" \"Pattern\""));
    let s = o.settings().unwrap();
    assert_eq!(s.group, "grp");
    assert_eq!(s.filter.as_deref(), Some(" \"Pattern\""));
    assert_eq!(s.lookback, span(3600, 0));
    assert_eq!(s.timeout, span(45, 0));
    assert_eq!(s.watch, Some(span(30, 0)));

    let s = options().settings().unwrap();
    assert_eq!(s.lookback, span(300, 0));
    assert_eq!(s.timeout, span(60, 0));
    assert_eq!(s.watch, None);
}

#[test]
fn malformed_options_of_logs_are_configuration_errors() {
    let mut o = options();
    o.group = None;
    o.since = Some(String::from("x"));
    assert_eq!(o.settings().err(), Some(ConfigError::MissingGroup));
    let mut o = options();
    o.since = Some(String::from("yesterday"));
    assert_eq!(o.settings().err(), Some(ConfigError::MalformedSince));
    let mut o = options();
    o.timeout = Some(String::from("30"));
    assert_eq!(o.settings().err(), Some(ConfigError::MalformedTimeout));
    let mut o = options();
    o.watch = Some(String::from(""));
    assert_eq!(o.settings().err(), Some(ConfigError::MalformedWatch));
}

#[test]
fn command_line_to_settings() {
    let cli = CliOptions::parse_args_default(&[
        "logs",
        "-g /aws/lambda/Pepe",
        "-f \"Pattern\"",
        "-w 30s",
    ])
    .unwrap();
    let logs = match cli.commands {
        Some(CommandOptions::Logs(l)) => l,
        other => panic!("expected logs, got {:?}", other),
    };
    let s = logs.settings().unwrap();
    assert_eq!(s.group, " /aws/lambda/Pepe");
    assert_eq!(s.watch, Some(span(30, 0)));
    assert_eq!(s.lookback, span(300, 0));
    assert_eq!(s.timeout, span(60, 0));
}
