//! What is shown of an event: the date of its timestamp on the local clock,
//! and its message without the white space around it.

use vstd::prelude::*;
use vstd::string::*;
use crate::event::LogEvent;
use crate::request::text_of;
use crate::window::{CALENDAR_FIRST_SEC, CALENDAR_LAST_SEC};

verus! {

/// Whether `c` is white space: a character with the Unicode property
/// White_Space.
pub open spec fn is_white_space(c: char) -> bool {
    let n = c as u32;
    ||| 0x09 <= n <= 0x0D
    ||| n == 0x20
    ||| n == 0x85
    ||| n == 0xA0
    ||| n == 0x1680
    ||| 0x2000 <= n <= 0x200A
    ||| n == 0x2028
    ||| n == 0x2029
    ||| n == 0x202F
    ||| n == 0x205F
    ||| n == 0x3000
}

/// `text` without the white space it begins with.
pub open spec fn without_leading_space(text: Seq<char>) -> Seq<char>
    decreases text.len(),
{
    if text.len() > 0 && is_white_space(text.first()) {
        without_leading_space(text.drop_first())
    } else {
        text
    }
}

/// `text` without the white space it ends with.
pub open spec fn without_trailing_space(text: Seq<char>) -> Seq<char>
    decreases text.len(),
{
    if text.len() > 0 && is_white_space(text.last()) {
        without_trailing_space(text.drop_last())
    } else {
        text
    }
}

/// `text` without the white space at either end.
pub open spec fn trimmed(text: Seq<char>) -> Seq<char> {
    without_trailing_space(without_leading_space(text))
}

/// Where the white space that `text` begins with ends.
proof fn leading_cut(text: Seq<char>) -> (from: int)
    ensures
        0 <= from <= text.len(),
        without_leading_space(text) == text.subrange(from, text.len() as int),
        forall|i: int| 0 <= i < from ==> is_white_space(#[trigger] text[i]),
        from < text.len() ==> !is_white_space(text[from]),
    decreases text.len(),
{
    if text.len() > 0 && is_white_space(text.first()) {
        let rest = text.drop_first();
        let from = leading_cut(rest);
        assert(rest.subrange(from, rest.len() as int) =~= text.subrange(from + 1, text.len() as int));
        assert forall|i: int| 0 <= i < from + 1 implies is_white_space(#[trigger] text[i]) by {
            if i > 0 {
                assert(text[i] == rest[i - 1]);
            }
        }
        if from < rest.len() {
            assert(text[from + 1] == rest[from]);
        }
        from + 1
    } else {
        assert(text.subrange(0, text.len() as int) =~= text);
        0
    }
}

/// Where the white space that `text` ends with begins.
proof fn trailing_cut(text: Seq<char>) -> (to: int)
    ensures
        0 <= to <= text.len(),
        without_trailing_space(text) == text.subrange(0, to),
        forall|i: int| to <= i < text.len() ==> is_white_space(#[trigger] text[i]),
        0 < to ==> !is_white_space(text[to - 1]),
    decreases text.len(),
{
    if text.len() > 0 && is_white_space(text.last()) {
        let rest = text.drop_last();
        let to = trailing_cut(rest);
        assert(rest.subrange(0, to) =~= text.subrange(0, to));
        assert forall|i: int| to <= i < text.len() implies is_white_space(#[trigger] text[i]) by {
            if i < rest.len() {
                assert(text[i] == rest[i]);
            }
        }
        if 0 < to {
            assert(text[to - 1] == rest[to - 1]);
        }
        to
    } else {
        assert(text.subrange(0, text.len() as int) =~= text);
        text.len() as int
    }
}

/// Trimming cuts white space and nothing else: what is left is a stretch of
/// the text, all that stands before it and behind it is white space, and
/// unless it is empty it neither begins nor ends with white space.
pub proof fn lemma_trimmed_is_the_core(text: Seq<char>)
    ensures
        exists|from: int, to: int|
            {
                &&& 0 <= from <= to <= text.len()
                &&& #[trigger] text.subrange(from, to) == trimmed(text)
                &&& forall|i: int| 0 <= i < from ==> is_white_space(#[trigger] text[i])
                &&& forall|i: int| to <= i < text.len() ==> is_white_space(#[trigger] text[i])
                &&& from < to ==> !is_white_space(text[from]) && !is_white_space(text[to - 1])
            },
{
    let from = leading_cut(text);
    let body = text.subrange(from, text.len() as int);
    let cut = trailing_cut(body);
    let to = from + cut;
    assert(body.subrange(0, cut) =~= text.subrange(from, to));
    assert forall|i: int| to <= i < text.len() implies is_white_space(#[trigger] text[i]) by {
        assert(text[i] == body[i - from]);
    }
    if from < to {
        assert(body[cut - 1] == text[to - 1]);
    }
    assert(text.subrange(from, to) == trimmed(text));
}

pub(crate) fn white_space(c: char) -> (yes: bool)
    ensures
        yes == is_white_space(c),
{
    let n: u32 = c as u32;
    (0x09 <= n && n <= 0x0D) || n == 0x20 || n == 0x85 || n == 0xA0 || n == 0x1680 || (0x2000 <= n
        && n <= 0x200A) || n == 0x2028 || n == 0x2029 || n == 0x202F || n == 0x205F || n == 0x3000
}

/// Cuts the white space off both ends of `text`.
pub fn trim(text: &str) -> (cut: String)
    ensures
        cut@ == trimmed(text@),
{
    let n = text.unicode_len();
    let mut from: usize = 0;
    proof {
        assert(text@.subrange(0, n as int) =~= text@);
    }
    while from < n && white_space(text.get_char(from))
        invariant
            0 <= from <= n,
            n == text@.len(),
            without_leading_space(text@) == without_leading_space(text@.subrange(from as int, n as int)),
        decreases n - from,
    {
        proof {
            let rest = text@.subrange(from as int, n as int);
            assert(rest.first() == text@[from as int]);
            assert(rest.drop_first() =~= text@.subrange(from + 1, n as int));
        }
        from = from + 1;
    }
    let ghost body = text@.subrange(from as int, n as int);
    proof {
        if from < n {
            assert(body.first() == text@[from as int]);
        }
        assert(without_leading_space(text@) == body);
    }
    let mut to: usize = n;
    while to > from && white_space(text.get_char(to - 1))
        invariant
            from <= to <= n,
            n == text@.len(),
            body == text@.subrange(from as int, n as int),
            without_trailing_space(body) == without_trailing_space(text@.subrange(from as int, to as int)),
        decreases to,
    {
        proof {
            let rest = text@.subrange(from as int, to as int);
            assert(rest.last() == text@[to - 1]);
            assert(rest.drop_last() =~= text@.subrange(from as int, to - 1));
        }
        to = to - 1;
    }
    proof {
        let rest = text@.subrange(from as int, to as int);
        if to > from {
            assert(rest.last() == text@[to - 1]);
        }
        assert(without_trailing_space(body) == rest);
    }
    text.substring_char(from, to).to_owned()
}

/// The whole seconds of a timestamp in milliseconds, rounded towards the
/// epoch.
pub open spec fn whole_seconds(millis: i64) -> int {
    if millis >= 0 {
        millis / 1000
    } else {
        -((-millis) / 1000)
    }
}

/// Whether the calendar reaches the second `secs` after the epoch, so that
/// it has a date.
pub open spec fn has_date(secs: int) -> bool {
    CALENDAR_FIRST_SEC <= secs <= CALENDAR_LAST_SEC
}

/// Whether a timestamp has a date to show: it is there, and the calendar
/// reaches its second.
pub open spec fn is_dated(time: Option<i64>) -> bool {
    time is Some && has_date(whole_seconds(time->0))
}

/// Whether a clock can be `offset` seconds ahead of UTC: by less than a day,
/// either way.
pub open spec fn is_offset(offset: int) -> bool {
    -86_400 < offset < 86_400
}

/// What chrono writes for the second `secs` after the epoch on a clock that
/// is `offset` seconds ahead of UTC, year-month-day hour:minute:second
/// (`%Y-%m-%d %H:%M:%S`), with no fraction of the second; nothing where it
/// has no such date or no such clock.
pub uninterp spec fn date_text_at(secs: int, offset: int) -> Option<Seq<char>>;

/// Whether `text` is the date that a clock shows for the timestamp `time`:
/// for one that has a date, what is written for its whole second on a clock
/// some seconds ahead of UTC, and that is never empty; else the empty text.
pub open spec fn is_date_of(text: Seq<char>, time: Option<i64>) -> bool {
    if is_dated(time) {
        &&& text.len() > 0
        &&& exists|offset: int|
            is_offset(offset) && #[trigger] date_text_at(whole_seconds(time->0), offset) == Some(
                text,
            )
    } else {
        text.len() == 0
    }
}

/// Timestamps within one second are shown as the same date: the
/// milliseconds beyond the whole second do not enter.
pub proof fn lemma_date_is_that_of_the_whole_second(text: Seq<char>, one: i64, other: i64)
    requires
        whole_seconds(one) == whole_seconds(other),
    ensures
        is_date_of(text, Some(one)) == is_date_of(text, Some(other)),
{
}

/// Calls chrono: `DateTime::<Utc>::from_timestamp` makes the instant,
/// `DateTime::with_timezone` moves it to the zone of this machine, and
/// `FixedOffset::local_minus_utc` reads how far that zone is ahead of UTC
/// then. Believed of them: there is an offset exactly where chrono's
/// calendar reaches the second, and it is less than a day. Which offset it
/// is depends on the machine, and nothing is claimed of it.
#[verifier::external_body]
fn local_offset_at(secs: i64) -> (offset: Option<i32>)
    ensures
        offset is Some <==> has_date(secs as int),
        offset is Some ==> is_offset(offset->0 as int),
{
    let at = chrono::DateTime::<chrono::Utc>::from_timestamp(secs, 0)?;
    Some(at.with_timezone(&chrono::Local).offset().local_minus_utc())
}

/// Calls chrono: `FixedOffset::east_opt` makes the clock,
/// `DateTime::<Utc>::from_timestamp` the instant, `DateTime::with_timezone`
/// puts the instant on the clock and `DateTime::format` writes it.
/// Believed of them: the text depends on the second and the offset alone,
/// there is one exactly where chrono's calendar reaches the second and the
/// offset is less than a day, and it is not empty.
#[verifier::external_body]
fn date_text_in(secs: i64, offset: i32) -> (text: Option<String>)
    ensures
        text_of(text) == date_text_at(secs as int, offset as int),
        text is Some <==> (has_date(secs as int) && is_offset(offset as int)),
        text is Some ==> text->0@.len() > 0,
{
    let clock = chrono::FixedOffset::east_opt(offset)?;
    let at = chrono::DateTime::<chrono::Utc>::from_timestamp(secs, 0)?;
    Some(at.with_timezone(&clock).format("%Y-%m-%d %H:%M:%S").to_string())
}

/// The date of a timestamp as a clock `offset` seconds ahead of UTC shows
/// it, to the second. Without a timestamp, with one that the calendar does
/// not reach, or with an offset of a day or more, the text is empty.
pub fn print_date_at(time: Option<i64>, offset: i32) -> (text: String)
    ensures
        is_dated(time) && is_offset(offset as int) ==> text@.len() > 0 && date_text_at(
            whole_seconds(time->0),
            offset as int,
        ) == Some(text@),
        !(is_dated(time) && is_offset(offset as int)) ==> text@.len() == 0,
{
    match time {
        Some(millis) => {
            match date_text_in(millis / 1000, offset) {
                Some(text) => text,
                None => String::new(),
            }
        },
        None => String::new(),
    }
}

/// The date of a timestamp as the local clock shows it, to the second.
/// Without a timestamp, or with one that the calendar does not reach, the
/// text is empty.
pub fn print_date(time: Option<i64>) -> (text: String)
    ensures
        is_date_of(text@, time),
{
    match time {
        Some(millis) => {
            match local_offset_at(millis / 1000) {
                Some(offset) => print_date_at(time, offset),
                None => String::new(),
            }
        },
        None => String::new(),
    }
}

/// One line of output: the event's timestamp, its date as shown, and its
/// message as shown.
#[derive(Clone, Debug)]
pub struct Line {
    pub timestamp: Option<i64>,
    pub date: String,
    pub text: String,
}

/// The characters of a message, none where the event has no message.
pub open spec fn message_text(message: Option<Seq<char>>) -> Seq<char> {
    match message {
        Some(m) => m,
        None => Seq::empty(),
    }
}

impl Line {
    /// The line is what is shown of `event`: it carries the event's
    /// timestamp, the date of that timestamp on a clock, and the event's
    /// message, trimmed.
    pub open spec fn shows(&self, event: LogEvent) -> bool {
        &&& self.timestamp == event.timestamp
        &&& self.text@ == trimmed(message_text(text_of(event.message)))
        &&& is_date_of(self.date@, event.timestamp)
    }

    /// The line of `event` under `date`, the text that its timestamp is
    /// shown as: the message is trimmed, and an event without a message has
    /// an empty one.
    pub fn of(event: &LogEvent, date: String) -> (line: Line)
        ensures
            line.timestamp == event.timestamp,
            line.date == date,
            line.text@ == trimmed(message_text(text_of(event.message))),
    {
        let text = match &event.message {
            Some(m) => trim(m.as_str()),
            None => String::new(),
        };
        proof {
            assert(trimmed(Seq::<char>::empty()) == Seq::<char>::empty());
        }
        Line { timestamp: event.timestamp, date, text }
    }

    /// The line as plain text: date, one space, message.
    pub fn plain(&self) -> (text: String)
        ensures
            text@ == self.date@ + seq![' '] + self.text@,
    {
        proof {
            reveal_strlit(" ");
        }
        let mut text = self.date.clone();
        text.append(" ");
        text.append(self.text.as_str());
        assert(" "@ =~= seq![' ']);
        text
    }
}

/// What is shown of one event.
pub fn emit_line(event: &LogEvent) -> (line: Line)
    ensures
        line.shows(*event),
{
    Line::of(event, print_date(event.timestamp))
}

/// What is shown of a batch, line for line in the order of the batch.
pub fn emit_lines(batch: &Vec<LogEvent>) -> (lines: Vec<Line>)
    ensures
        lines@.len() == batch@.len(),
        forall|i: int| 0 <= i < batch@.len() ==> (#[trigger] lines@[i]).shows(batch@[i]),
{
    let mut lines: Vec<Line> = Vec::new();
    let mut i: usize = 0;
    while i < batch.len()
        invariant
            0 <= i <= batch@.len(),
            lines@.len() == i,
            forall|j: int| 0 <= j < i ==> (#[trigger] lines@[j]).shows(batch@[j]),
        decreases batch@.len() - i,
    {
        let line = emit_line(&batch[i]);
        lines.push(line);
        i = i + 1;
    }
    lines
}

} // verus!
