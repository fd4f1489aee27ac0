use awstail::cli::{CliOptions, CommandOptions, OptName, ParseError};
use gumdrop::{Error, Opt, Parser, ParsingStyle};

/// What a command line came to, in a form that both readers can be put in.
#[derive(Debug, Default, PartialEq)]
struct Outcome {
    help: bool,
    region: Option<String>,
    profile: Option<String>,
    command: Option<String>,
    command_help: bool,
    group: Option<String>,
    watch: Option<String>,
    since: Option<String>,
    filter: Option<String>,
    timeout: Option<String>,
}

/// The options of one level: short name, long name, and whether the option
/// takes a value.
type Table = [(char, &'static str, bool)];

const TOP: &Table = &[('h', "help", false), ('r', "region", true), ('p', "profile", true)];
const LIST: &Table = &[('h', "help", false)];
const LOGS: &Table = &[
    ('h', "help", false),
    ('g', "group", true),
    ('w', "watch", true),
    ('s', "since", true),
    ('f', "filter", true),
    ('t', "timeout", true),
];
const VERSION: &Table = &[];

/// Reads the options of one level with gumdrop's parser, as a derived
/// `Options` does: up to the end, or up to the first free argument.
fn level<'a>(
    parser: &mut Parser<'a, &'a str>,
    table: &Table,
    takes_command: bool,
) -> Result<(Vec<(&'static str, Option<String>)>, Option<&'a str>), Error> {
    let mut set = Vec::new();
    while let Some(opt) = parser.next_opt() {
        let entry = match opt {
            Opt::Short(c) => table.iter().find(|e| e.0 == c),
            Opt::Long(name) | Opt::LongWithArg(name, _) => table.iter().find(|e| e.1 == name),
            Opt::Free(free) => {
                if takes_command {
                    return Ok((set, Some(free)));
                }
                return Err(Error::unexpected_free(free));
            }
        };
        let entry = match entry {
            Some(entry) => entry,
            None => return Err(Error::unrecognized_option(opt)),
        };
        match (opt, entry.2) {
            (Opt::LongWithArg(_, value), true) => set.push((entry.1, Some(value.to_string()))),
            (Opt::LongWithArg(_, _), false) => return Err(Error::unexpected_argument(opt)),
            (_, true) => {
                let value = parser.next_arg().ok_or_else(|| Error::missing_argument(opt))?;
                set.push((entry.1, Some(value.to_string())));
            }
            (_, false) => set.push((entry.1, None)),
        }
    }
    Ok((set, None))
}

fn with_gumdrop(args: &[&str]) -> Result<Outcome, String> {
    let mut out = Outcome::default();
    let mut parser = Parser::new(args, ParsingStyle::default());
    let (set, command) = level(&mut parser, TOP, true).map_err(|e| e.to_string())?;
    for (name, value) in set {
        match name {
            "help" => out.help = true,
            "region" => out.region = value,
            _ => out.profile = value,
        }
    }
    let name = match command {
        Some(name) => name,
        None => return Ok(out),
    };
    let table = match name {
        "list" => LIST,
        "logs" => LOGS,
        "version" => VERSION,
        _ => return Err(Error::unrecognized_command(name).to_string()),
    };
    out.command = Some(name.to_string());
    let (set, _) = level(&mut parser, table, false).map_err(|e| e.to_string())?;
    for (name, value) in set {
        match name {
            "help" => out.command_help = true,
            "group" => out.group = value,
            "watch" => out.watch = value,
            "since" => out.since = value,
            "filter" => out.filter = value,
            _ => out.timeout = value,
        }
    }
    Ok(out)
}

fn in_gumdrops_words(error: ParseError) -> String {
    let error = match &error {
        ParseError::MissingArgument(OptName::Short(c)) => Error::missing_argument(Opt::Short(*c)),
        ParseError::MissingArgument(OptName::Long(name)) => {
            Error::missing_argument(Opt::Long(name))
        }
        ParseError::UnexpectedArgument(name) => Error::unexpected_argument(Opt::Long(name)),
        ParseError::UnexpectedFree(arg) => Error::unexpected_free(arg),
        ParseError::UnrecognizedCommand(name) => Error::unrecognized_command(name),
        ParseError::UnrecognizedLongOption(name) => Error::unrecognized_long(name),
        ParseError::UnrecognizedShortOption(c) => Error::unrecognized_short(*c),
    };
    error.to_string()
}

fn with_library(args: &[&str]) -> Result<Outcome, String> {
    let cli = CliOptions::parse_args_default(args).map_err(in_gumdrops_words)?;
    let mut out = Outcome {
        help: cli.help,
        region: cli.region,
        profile: cli.profile,
        ..Outcome::default()
    };
    match cli.commands {
        None => {}
        Some(CommandOptions::List(list)) => {
            out.command = Some("list".to_string());
            out.command_help = list.help;
        }
        Some(CommandOptions::Version(_)) => out.command = Some("version".to_string()),
        Some(CommandOptions::Logs(logs)) => {
            out.command = Some("logs".to_string());
            out.command_help = logs.help;
            out.group = logs.group;
            out.watch = logs.watch;
            out.since = logs.since;
            out.filter = logs.filter;
            out.timeout = logs.timeout;
        }
    }
    Ok(out)
}

const WORDS: &[&str] = &[
    "logs", "list", "version", "tail", "", "-", "--", "x", "=", "-h", "--help", "--help=", "--help=1",
    "-g", "-gx", "-g x", "-hg", "-gh", "-hx", "--group", "--group=x", "--group=", "--group=a=b",
    "--grou", "--groups", "--=", "--=x", "---", "-r", "-reu", "--region", "--region=eu", "-p",
    "--profile=p", "-w 30s", "-s", "-f", "-t", "--since=1h", "--watch", "--filter", "--timeout=3",
    "-é", "-gé", "--é", "-=", "-h=", "- ", " -h", "-hh", "-hrp", "-wsft",
];

fn same(args: &[&str]) {
    assert_eq!(with_library(args), with_gumdrop(args), "{:?}", args);
}

#[test]
fn every_short_command_line_is_read_as_gumdrop_reads_it() {
    same(&[]);
    for a in WORDS {
        same(&[a]);
        for b in WORDS {
            same(&[a, b]);
        }
    }
}

#[test]
fn command_lines_of_three_words_are_read_as_gumdrop_reads_them() {
    for a in WORDS {
        for b in WORDS {
            for c in WORDS {
                same(&[a, b, c]);
            }
        }
    }
}

#[test]
fn longer_command_lines_are_read_as_gumdrop_reads_them() {
    let mut seed: u64 = 0x9E3779B97F4A7C15;
    let mut next = move || {
        seed ^= seed << 13;
        seed ^= seed >> 7;
        seed ^= seed << 17;
        seed
    };
    for _ in 0..20000 {
        let len = 4 + (next() % 5) as usize;
        let mut args: Vec<&str> = Vec::new();
        for i in 0..len {
            let lead = i < 2 && next() % 2 == 0;
            let pick = if lead { next() % 3 } else { next() % WORDS.len() as u64 };
            args.push(WORDS[pick as usize]);
        }
        same(&args);
    }
}

#[test]
fn the_readers_are_not_trivially_alike() {
    let got = with_library(&["-peu", "logs", "-g", "x", "--since=1h", "-h"]).unwrap();
    assert_eq!(got, with_gumdrop(&["-peu", "logs", "-g", "x", "--since=1h", "-h"]).unwrap());
    assert_eq!(got.profile.as_deref(), Some("eu"));
    assert_eq!(got.command.as_deref(), Some("logs"));
    assert_eq!(got.group.as_deref(), Some("x"));
    assert_eq!(got.since.as_deref(), Some("1h"));
    assert!(got.command_help && !got.help);
    assert_eq!(
        with_library(&["logs", "-g"]),
        Err("missing argument to option `-g`".to_string())
    );
    assert_eq!(with_gumdrop(&["--nope"]), Err("unrecognized option `--nope`".to_string()));
}
