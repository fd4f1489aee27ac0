//! What a run is configured with, once the command line has been read.

use vstd::prelude::*;
use vstd::string::*;
use crate::cli::{LogsOptions, LogsOptionsView};
use crate::emit::{is_white_space, white_space};
use crate::request::{copy_text, text_of};
use crate::span::Span;

verus! {

/// Why a run cannot start. Each is found before the first query goes out.
#[derive(Clone, Copy, Debug, PartialEq, Eq, Structural)]
pub enum ConfigError {
    /// No log group was named.
    MissingGroup,
    /// The lookback is not a duration.
    MalformedSince,
    /// The fetch timeout is not a duration.
    MalformedTimeout,
    /// The poll interval is not a duration.
    MalformedWatch,
    /// The lookback leads out of the calendar.
    LookbackOutOfRange,
}

/// The fixed parameters of a run: they go into every query and never change
/// while it lasts.
#[derive(Clone, Debug)]
pub struct TailSettings {
    /// The log group to read.
    pub group: String,
    /// The pattern that events must match, if any.
    pub filter: Option<String>,
    /// How far the first window looks back.
    pub lookback: Span,
    /// The bound on one fetch.
    pub timeout: Span,
    /// The pause between chains; without it the run ends with the first
    /// chain.
    pub watch: Option<Span>,
}

/// Settings as a mathematical record, spans in nanoseconds.
pub struct SettingsView {
    pub group: Seq<char>,
    pub filter: Option<Seq<char>>,
    pub lookback: nat,
    pub timeout: nat,
    pub watch: Option<nat>,
}

/// The length of a span that may be absent.
pub open spec fn span_of(span: Option<Span>) -> Option<nat> {
    match span {
        Some(s) => Some(s@),
        None => None,
    }
}

impl View for TailSettings {
    type V = SettingsView;

    open spec fn view(&self) -> SettingsView {
        SettingsView {
            group: self.group@,
            filter: text_of(self.filter),
            lookback: self.lookback@,
            timeout: self.timeout@,
            watch: span_of(self.watch),
        }
    }
}

/// How far the first window looks back where the command line does not say:
/// five minutes.
pub const DEFAULT_LOOKBACK_SECS: u64 = 300;

/// The bound on one fetch where the command line does not say: one minute.
pub const DEFAULT_TIMEOUT_SECS: u64 = 60;

/// The most that the numbers in the text of a duration may weigh together.
/// The longest unit is the year, of 31 557 600 seconds, so a text within this
/// weight stands for less than 2^64 seconds, whatever its units.
pub const MAX_DURATION_WEIGHT: u64 = 500_000_000_000;

/// Ten to the power of `n`.
pub open spec fn ten_to(n: nat) -> nat
    decreases n,
{
    if n == 0 {
        1
    } else {
        10 * ten_to((n - 1) as nat)
    }
}

/// Whether `c` is one of the digits 0 to 9.
pub open spec fn is_digit(c: char) -> bool {
    '0' <= c <= '9'
}

/// The weight of a number of `digits` digits: ten to that power, which no
/// number of so many digits reaches. What has no digit is no number.
pub open spec fn weight_of(digits: nat) -> nat {
    if digits == 0 {
        0
    } else {
        ten_to(digits)
    }
}

/// The weight of the numbers in `text`, where `pending` digits of a number
/// have been read before it. A number is a stretch of digits, with or
/// without white space among them; any other character ends it.
pub open spec fn weight_from(text: Seq<char>, pending: nat) -> nat
    decreases text.len(),
{
    if text.len() == 0 {
        weight_of(pending)
    } else if is_digit(text.first()) {
        weight_from(text.drop_first(), pending + 1)
    } else if is_white_space(text.first()) {
        weight_from(text.drop_first(), pending)
    } else {
        weight_of(pending) + weight_from(text.drop_first(), 0)
    }
}

/// The weight of the numbers in `text`, added up.
pub open spec fn number_weight(text: Seq<char>) -> nat {
    weight_from(text, 0)
}

/// What humantime's `parse_duration` makes of a text: the whole seconds of
/// the duration and the nanoseconds beyond them, or nothing where it finds
/// no duration in the text.
pub uninterp spec fn parsed_duration(text: Seq<char>) -> Option<(u64, u32)>;

/// The error of humantime's `parse_duration`.
#[verifier::external_type_specification]
#[verifier::external_body]
pub struct ExDurationError(humantime::DurationError);

/// Calls humantime's `parse_duration`. Believed of it: the result depends on
/// the text alone, and the nanoseconds of a duration stay below one second.
/// Texts whose numbers weigh more than `MAX_DURATION_WEIGHT` are kept from
/// it: among them are some on which it does not return.
#[verifier::external_body]
fn parse_duration(text: &str) -> (parsed: Result<(u64, u32), humantime::DurationError>)
    requires
        number_weight(text@) <= MAX_DURATION_WEIGHT,
    ensures
        match parsed {
            Ok(parts) => parsed_duration(text@) == Some(parts) && parts.1 < 1_000_000_000,
            Err(_) => parsed_duration(text@) is None,
        },
{
    let duration = humantime::parse_duration(text)?;
    Ok((duration.as_secs(), duration.subsec_nanos()))
}

/// The length in nanoseconds of the duration that `text` gives: what
/// `parsed_duration` finds in it, unless its numbers weigh too much.
pub open spec fn duration_in(text: Seq<char>) -> Option<nat> {
    if number_weight(text) > MAX_DURATION_WEIGHT {
        None
    } else {
        match parsed_duration(text) {
            Some((secs, nanos)) => Some((secs * 1_000_000_000 + nanos) as nat),
            None => None,
        }
    }
}

/// Ten to any power is at least one.
proof fn lemma_ten_to_is_positive(n: nat)
    ensures
        ten_to(n) >= 1,
    decreases n,
{
    if n > 0 {
        lemma_ten_to_is_positive((n - 1) as nat);
    }
}

/// The numbers of a text weigh at least as much as the one that has begun.
proof fn lemma_weight_covers_pending(text: Seq<char>, pending: nat)
    ensures
        weight_from(text, pending) >= weight_of(pending),
    decreases text.len(),
{
    if text.len() > 0 {
        if is_digit(text.first()) {
            lemma_weight_covers_pending(text.drop_first(), pending + 1);
            lemma_ten_to_is_positive(pending);
        } else if is_white_space(text.first()) {
            lemma_weight_covers_pending(text.drop_first(), pending);
        }
    }
}

/// Whether the numbers in `text` stay within the weight.
fn within_weight(text: &str) -> (within: bool)
    ensures
        within == (number_weight(text@) <= MAX_DURATION_WEIGHT),
{
    let n = text.unicode_len();
    let mut weight: u64 = 0;
    let mut power: u64 = 1;
    let ghost mut pending: nat = 0;
    let mut i: usize = 0;
    proof {
        assert(text@.subrange(0, n as int) =~= text@);
    }
    while i < n
        invariant
            0 <= i <= n,
            n == text@.len(),
            weight <= MAX_DURATION_WEIGHT,
            power == ten_to(pending),
            power < 1_000_000_000_000,
            number_weight(text@) == weight + weight_from(text@.subrange(i as int, n as int), pending),
        decreases n - i,
    {
        let c = text.get_char(i);
        proof {
            let rest = text@.subrange(i as int, n as int);
            assert(rest.first() == c);
            assert(rest.drop_first() =~= text@.subrange(i + 1, n as int));
            lemma_ten_to_is_positive(pending);
        }
        if '0' <= c && c <= '9' {
            if power >= 100_000_000_000 {
                proof {
                    lemma_weight_covers_pending(text@.subrange(i + 1, n as int), pending + 1);
                }
                return false;
            }
            power = power * 10;
            proof {
                pending = pending + 1;
            }
        } else if !white_space(c) {
            if power > 1 {
                weight = weight + power;
                if weight > MAX_DURATION_WEIGHT {
                    return false;
                }
            }
            power = 1;
            proof {
                pending = 0;
            }
        }
        i = i + 1;
    }
    proof {
        assert(text@.subrange(n as int, n as int).len() == 0);
        lemma_ten_to_is_positive(pending);
    }
    power == 1 || weight + power <= MAX_DURATION_WEIGHT
}

/// Reads a duration such as `5min` or `1h 30s`. There is none where the text
/// is no duration, or its numbers weigh more than `MAX_DURATION_WEIGHT`: a
/// number of twelve digits does, and so do six of eleven.
pub fn read_duration(text: &str) -> (span: Option<Span>)
    ensures
        span_of(span) == duration_in(text@),
{
    if !within_weight(text) {
        return None;
    }
    match parse_duration(text) {
        Ok((secs, nanos)) => Span::new(secs, nanos),
        Err(_) => None,
    }
}

/// The settings that a command line comes to, given what reading its
/// durations gave; each of `since`, `timeout` and `watch` is absent where the
/// option was not given, and holds nothing where its text was no duration.
/// The first fault decides: no group, then a malformed lookback, timeout, or
/// poll interval.
pub open spec fn settled(
    group: Option<Seq<char>>,
    filter: Option<Seq<char>>,
    since: Option<Option<nat>>,
    timeout: Option<Option<nat>>,
    watch: Option<Option<nat>>,
) -> Result<SettingsView, ConfigError> {
    if group is None {
        Err(ConfigError::MissingGroup)
    } else if since == Some(None::<nat>) {
        Err(ConfigError::MalformedSince)
    } else if timeout == Some(None::<nat>) {
        Err(ConfigError::MalformedTimeout)
    } else if watch == Some(None::<nat>) {
        Err(ConfigError::MalformedWatch)
    } else {
        Ok(
            SettingsView {
                group: group->0,
                filter,
                lookback: match since {
                    Some(Some(span)) => span,
                    _ => (DEFAULT_LOOKBACK_SECS * 1_000_000_000) as nat,
                },
                timeout: match timeout {
                    Some(Some(span)) => span,
                    _ => (DEFAULT_TIMEOUT_SECS * 1_000_000_000) as nat,
                },
                watch: match watch {
                    Some(Some(span)) => Some(span),
                    _ => None,
                },
            },
        )
    }
}

/// The length of what reading an option's duration gave.
pub open spec fn reading_of(reading: Option<Option<Span>>) -> Option<Option<nat>> {
    match reading {
        Some(span) => Some(span_of(span)),
        None => None,
    }
}

/// Settles the parameters of a run, given what reading the durations gave.
/// Without a lookback the run looks back five minutes, without a timeout a
/// fetch may take a minute, and without a poll interval the run does not
/// watch.
pub fn settle(
    group: Option<String>,
    filter: Option<String>,
    since: Option<Option<Span>>,
    timeout: Option<Option<Span>>,
    watch: Option<Option<Span>>,
) -> (settings: Result<TailSettings, ConfigError>)
    ensures
        match settings {
            Ok(s) => settled(
                text_of(group),
                text_of(filter),
                reading_of(since),
                reading_of(timeout),
                reading_of(watch),
            ) == Ok::<SettingsView, ConfigError>(s@),
            Err(e) => settled(
                text_of(group),
                text_of(filter),
                reading_of(since),
                reading_of(timeout),
                reading_of(watch),
            ) == Err::<SettingsView, ConfigError>(e),
        },
{
    let group = match group {
        Some(group) => group,
        None => {
            return Err(ConfigError::MissingGroup);
        },
    };
    let lookback = match since {
        Some(Some(span)) => span,
        Some(None) => {
            return Err(ConfigError::MalformedSince);
        },
        None => Span::from_secs(DEFAULT_LOOKBACK_SECS),
    };
    let timeout = match timeout {
        Some(Some(span)) => span,
        Some(None) => {
            return Err(ConfigError::MalformedTimeout);
        },
        None => Span::from_secs(DEFAULT_TIMEOUT_SECS),
    };
    let watch = match watch {
        Some(Some(span)) => Some(span),
        Some(None) => {
            return Err(ConfigError::MalformedWatch);
        },
        None => None,
    };
    Ok(TailSettings { group, filter, lookback, timeout, watch })
}

/// What reading the duration of an option gives: nothing where the option
/// was not given.
pub open spec fn read_option(text: Option<Seq<char>>) -> Option<Option<nat>> {
    match text {
        Some(text) => Some(duration_in(text)),
        None => None,
    }
}

fn read_if_given(text: &Option<String>) -> (reading: Option<Option<Span>>)
    ensures
        reading_of(reading) == read_option(text_of(*text)),
{
    match text {
        Some(text) => Some(read_duration(text.as_str())),
        None => None,
    }
}

impl LogsOptions {
    /// The settings that the options of `logs` come to.
    pub open spec fn settled(options: LogsOptionsView) -> Result<SettingsView, ConfigError> {
        settled(
            options.group,
            options.filter,
            read_option(options.since),
            read_option(options.timeout),
            read_option(options.watch),
        )
    }

    /// Settles the parameters of a run from the options of `logs`: reads the
    /// durations among them and fills in what was not given.
    pub fn settings(&self) -> (settings: Result<TailSettings, ConfigError>)
        ensures
            match settings {
                Ok(s) => LogsOptions::settled(self@) == Ok::<SettingsView, ConfigError>(s@),
                Err(e) => LogsOptions::settled(self@) == Err::<SettingsView, ConfigError>(e),
            },
    {
        settle(
            copy_text(&self.group),
            copy_text(&self.filter),
            read_if_given(&self.since),
            read_if_given(&self.timeout),
            read_if_given(&self.watch),
        )
    }
}

} // verus!
