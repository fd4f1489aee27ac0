//! The command line: options before a command, the command, and the
//! command's own options.
//!
//! An argument that begins with two dashes names a long option, with its
//! value behind `=` where it has one. An argument that begins with one dash
//! holds short options, one character each; an option that takes a value
//! takes the rest of the argument, or the next argument where nothing is
//! left. A bare `--` ends the options. The first argument that is no option
//! names the command.

use vstd::prelude::*;
use vstd::string::*;
use crate::request::text_of;

verus! {

/// The options that stand before the command.
#[derive(Debug)]
pub struct CliOptions {
    /// `-h`, `--help`
    pub help: bool,
    /// `-r`, `--region`
    pub region: Option<String>,
    /// `-p`, `--profile`
    pub profile: Option<String>,
    /// `list`, `logs` or `version`, with what follows it
    pub commands: Option<CommandOptions>,
}

/// The command and its options.
#[derive(Debug)]
pub enum CommandOptions {
    /// `list`: name the log groups.
    List(ListOpts),
    /// `logs`: read the events of a group.
    Logs(LogsOptions),
    /// `version`: say which program this is.
    Version(Version),
}

/// `version` takes no options.
#[derive(Debug)]
pub struct Version {}

/// The options of `list`.
#[derive(Debug)]
pub struct ListOpts {
    /// `-h`, `--help`
    pub help: bool,
}

/// The options of `logs`.
#[derive(Debug)]
pub struct LogsOptions {
    /// `-h`, `--help`
    pub help: bool,
    /// `-g`, `--group`: the log group
    pub group: Option<String>,
    /// `-w`, `--watch`: keep reading, with this pause between chains
    pub watch: Option<String>,
    /// `-s`, `--since`: how far the first window looks back
    pub since: Option<String>,
    /// `-f`, `--filter`: the pattern that events must match
    pub filter: Option<String>,
    /// `-t`, `--timeout`: the bound on one fetch
    pub timeout: Option<String>,
}

/// The name by which an option was given.
#[derive(Debug)]
pub enum OptName {
    Short(char),
    Long(String),
}

/// Why a command line is refused.
#[derive(Debug)]
pub enum ParseError {
    /// The option takes a value, and the command line ends behind it.
    MissingArgument(OptName),
    /// The long option of this name takes no value, and was given one.
    UnexpectedArgument(String),
    /// The argument is no option, and the command takes none such.
    UnexpectedFree(String),
    /// There is no command of this name.
    UnrecognizedCommand(String),
    /// There is no long option of this name here.
    UnrecognizedLongOption(String),
    /// There is no short option of this name here.
    UnrecognizedShortOption(char),
}

pub struct ListOptsView {
    pub help: bool,
}

pub struct LogsOptionsView {
    pub help: bool,
    pub group: Option<Seq<char>>,
    pub watch: Option<Seq<char>>,
    pub since: Option<Seq<char>>,
    pub filter: Option<Seq<char>>,
    pub timeout: Option<Seq<char>>,
}

pub enum CommandView {
    List(ListOptsView),
    Logs(LogsOptionsView),
    Version,
}

pub struct CliOptionsView {
    pub help: bool,
    pub region: Option<Seq<char>>,
    pub profile: Option<Seq<char>>,
    pub commands: Option<CommandView>,
}

pub enum OptNameView {
    Short(char),
    Long(Seq<char>),
}

pub enum ParseErrorView {
    MissingArgument(OptNameView),
    UnexpectedArgument(Seq<char>),
    UnexpectedFree(Seq<char>),
    UnrecognizedCommand(Seq<char>),
    UnrecognizedLongOption(Seq<char>),
    UnrecognizedShortOption(char),
}

impl View for ListOpts {
    type V = ListOptsView;

    open spec fn view(&self) -> ListOptsView {
        ListOptsView { help: self.help }
    }
}

impl View for LogsOptions {
    type V = LogsOptionsView;

    open spec fn view(&self) -> LogsOptionsView {
        LogsOptionsView {
            help: self.help,
            group: text_of(self.group),
            watch: text_of(self.watch),
            since: text_of(self.since),
            filter: text_of(self.filter),
            timeout: text_of(self.timeout),
        }
    }
}

impl View for CommandOptions {
    type V = CommandView;

    open spec fn view(&self) -> CommandView {
        match self {
            CommandOptions::List(opts) => CommandView::List(opts@),
            CommandOptions::Logs(opts) => CommandView::Logs(opts@),
            CommandOptions::Version(_) => CommandView::Version,
        }
    }
}

impl View for CliOptions {
    type V = CliOptionsView;

    open spec fn view(&self) -> CliOptionsView {
        CliOptionsView {
            help: self.help,
            region: text_of(self.region),
            profile: text_of(self.profile),
            commands: match self.commands {
                Some(command) => Some(command@),
                None => None,
            },
        }
    }
}

impl View for OptName {
    type V = OptNameView;

    open spec fn view(&self) -> OptNameView {
        match self {
            OptName::Short(c) => OptNameView::Short(*c),
            OptName::Long(name) => OptNameView::Long(name@),
        }
    }
}

impl View for ParseError {
    type V = ParseErrorView;

    open spec fn view(&self) -> ParseErrorView {
        match self {
            ParseError::MissingArgument(name) => ParseErrorView::MissingArgument(name@),
            ParseError::UnexpectedArgument(name) => ParseErrorView::UnexpectedArgument(name@),
            ParseError::UnexpectedFree(arg) => ParseErrorView::UnexpectedFree(arg@),
            ParseError::UnrecognizedCommand(name) => ParseErrorView::UnrecognizedCommand(name@),
            ParseError::UnrecognizedLongOption(name) => ParseErrorView::UnrecognizedLongOption(
                name@,
            ),
            ParseError::UnrecognizedShortOption(c) => ParseErrorView::UnrecognizedShortOption(*c),
        }
    }
}

/// How far the command line has been read: the number of arguments taken,
/// the short options left over in the last of them, and whether a bare `--`
/// has ended the options.
pub struct Progress {
    pub taken: int,
    pub cluster: Seq<char>,
    pub ended: bool,
}

/// One item of the command line.
pub enum Item {
    /// A short option.
    Short(char),
    /// A long option without a value.
    Long(Seq<char>),
    /// A long option with the value behind its `=`.
    LongWithArg(Seq<char>, Seq<char>),
    /// An argument that is no option.
    Free(Seq<char>),
}

/// Where the first `=` stands in `arg`, or its length where it holds none.
pub open spec fn equals_at(arg: Seq<char>) -> int
    decreases arg.len(),
{
    if arg.len() == 0 || arg.first() == '=' {
        0
    } else {
        1 + equals_at(arg.drop_first())
    }
}

/// The item that `arg` begins while options are still read.
pub open spec fn item_in(arg: Seq<char>) -> Item {
    if arg.len() >= 2 && arg[0] == '-' && arg[1] == '-' {
        let at = equals_at(arg);
        if at < arg.len() {
            Item::LongWithArg(arg.subrange(2, at), arg.subrange(at + 1, arg.len() as int))
        } else {
            Item::Long(arg.subrange(2, arg.len() as int))
        }
    } else if arg.len() >= 2 && arg[0] == '-' {
        Item::Short(arg[1])
    } else {
        Item::Free(arg)
    }
}

/// The next item of `args` from `at` on, with the progress behind it; none
/// at the end of the command line.
pub open spec fn next_item(args: Seq<Seq<char>>, at: Progress) -> Option<(Item, Progress)> {
    if at.cluster.len() > 0 {
        Some((Item::Short(at.cluster.first()), Progress { cluster: at.cluster.drop_first(), ..at }))
    } else if !(0 <= at.taken < args.len()) {
        None
    } else {
        let arg = args[at.taken];
        let behind = Progress { taken: at.taken + 1, cluster: Seq::empty(), ended: at.ended };
        if at.ended {
            Some((Item::Free(arg), behind))
        } else if arg.len() == 2 && arg[0] == '-' && arg[1] == '-' {
            if at.taken + 1 < args.len() {
                Some(
                    (
                        Item::Free(args[at.taken + 1]),
                        Progress { taken: at.taken + 2, cluster: Seq::empty(), ended: true },
                    ),
                )
            } else {
                None
            }
        } else {
            match item_in(arg) {
                Item::Short(c) => Some(
                    (
                        Item::Short(c),
                        Progress { cluster: arg.subrange(2, arg.len() as int), ..behind },
                    ),
                ),
                item => Some((item, behind)),
            }
        }
    }
}

/// The value of an option that takes one, with the progress behind it: what
/// is left of the cluster that the option stood in, or else the next
/// argument, whatever it looks like; none at the end of the command line.
pub open spec fn next_value(args: Seq<Seq<char>>, at: Progress) -> Option<(Seq<char>, Progress)> {
    if at.cluster.len() > 0 {
        Some((at.cluster, Progress { cluster: Seq::empty(), ..at }))
    } else if 0 <= at.taken < args.len() {
        Some((args[at.taken], Progress { taken: at.taken + 1, cluster: Seq::empty(), ..at }))
    } else {
        None
    }
}

/// Where options are read: before the command, or behind one of the
/// commands.
#[derive(Clone, Copy, Debug, PartialEq, Eq, Structural)]
pub enum Level {
    Top,
    List,
    Logs,
    Version,
}

/// What an option sets.
#[derive(Clone, Copy, Debug, PartialEq, Eq, Structural)]
pub enum Field {
    Help,
    Region,
    Profile,
    Group,
    Watch,
    Since,
    Filter,
    Timeout,
}

/// What the long option `name` sets at `level`, if there is such an option.
pub open spec fn long_field(level: Level, name: Seq<char>) -> Option<Field> {
    match level {
        Level::Top => if name == "help"@ {
            Some(Field::Help)
        } else if name == "region"@ {
            Some(Field::Region)
        } else if name == "profile"@ {
            Some(Field::Profile)
        } else {
            None
        },
        Level::List => if name == "help"@ {
            Some(Field::Help)
        } else {
            None
        },
        Level::Logs => if name == "help"@ {
            Some(Field::Help)
        } else if name == "group"@ {
            Some(Field::Group)
        } else if name == "watch"@ {
            Some(Field::Watch)
        } else if name == "since"@ {
            Some(Field::Since)
        } else if name == "filter"@ {
            Some(Field::Filter)
        } else if name == "timeout"@ {
            Some(Field::Timeout)
        } else {
            None
        },
        Level::Version => None,
    }
}

/// What the short option `c` sets at `level`, if there is such an option.
pub open spec fn short_field(level: Level, c: char) -> Option<Field> {
    match level {
        Level::Top => if c == 'h' {
            Some(Field::Help)
        } else if c == 'r' {
            Some(Field::Region)
        } else if c == 'p' {
            Some(Field::Profile)
        } else {
            None
        },
        Level::List => if c == 'h' {
            Some(Field::Help)
        } else {
            None
        },
        Level::Logs => if c == 'h' {
            Some(Field::Help)
        } else if c == 'g' {
            Some(Field::Group)
        } else if c == 'w' {
            Some(Field::Watch)
        } else if c == 's' {
            Some(Field::Since)
        } else if c == 'f' {
            Some(Field::Filter)
        } else if c == 't' {
            Some(Field::Timeout)
        } else {
            None
        },
        Level::Version => None,
    }
}

/// What the options read so far have set.
pub struct Found {
    pub help: bool,
    pub region: Option<Seq<char>>,
    pub profile: Option<Seq<char>>,
    pub group: Option<Seq<char>>,
    pub watch: Option<Seq<char>>,
    pub since: Option<Seq<char>>,
    pub filter: Option<Seq<char>>,
    pub timeout: Option<Seq<char>>,
}

impl Found {
    /// Nothing has been set.
    pub open spec fn nothing() -> Found {
        Found {
            help: false,
            region: None,
            profile: None,
            group: None,
            watch: None,
            since: None,
            filter: None,
            timeout: None,
        }
    }

    /// `self` with `field` set to `value`; a later value replaces an earlier
    /// one.
    pub open spec fn put(self, field: Field, value: Seq<char>) -> Found {
        match field {
            Field::Help => Found { help: true, ..self },
            Field::Region => Found { region: Some(value), ..self },
            Field::Profile => Found { profile: Some(value), ..self },
            Field::Group => Found { group: Some(value), ..self },
            Field::Watch => Found { watch: Some(value), ..self },
            Field::Since => Found { since: Some(value), ..self },
            Field::Filter => Found { filter: Some(value), ..self },
            Field::Timeout => Found { timeout: Some(value), ..self },
        }
    }
}

/// How reading the options of one level ends.
pub enum Scan {
    /// The command line ended.
    Ended(Found),
    /// An argument that is no option came up: with its text and the progress
    /// behind it.
    Free(Found, Seq<char>, Progress),
    /// The command line is refused.
    Refused(ParseErrorView),
}

/// Reads options of `level` from `at` on, adding to `found`, until the
/// command line ends, an argument that is no option comes up, or an item is
/// refused.
pub open spec fn scan(args: Seq<Seq<char>>, at: Progress, level: Level, found: Found) -> Scan
    decreases args.len() - at.taken, at.cluster.len(),
{
    match next_item(args, at) {
        None => Scan::Ended(found),
        Some((Item::Free(arg), behind)) => Scan::Free(found, arg, behind),
        Some((Item::Short(c), behind)) => match short_field(level, c) {
            None => Scan::Refused(ParseErrorView::UnrecognizedShortOption(c)),
            Some(Field::Help) => scan(args, behind, level, found.put(Field::Help, Seq::empty())),
            Some(field) => match next_value(args, behind) {
                None => Scan::Refused(ParseErrorView::MissingArgument(OptNameView::Short(c))),
                Some((value, beyond)) => scan(args, beyond, level, found.put(field, value)),
            },
        },
        Some((Item::Long(name), behind)) => match long_field(level, name) {
            None => Scan::Refused(ParseErrorView::UnrecognizedLongOption(name)),
            Some(Field::Help) => scan(args, behind, level, found.put(Field::Help, Seq::empty())),
            Some(field) => match next_value(args, behind) {
                None => Scan::Refused(ParseErrorView::MissingArgument(OptNameView::Long(name))),
                Some((value, beyond)) => scan(args, beyond, level, found.put(field, value)),
            },
        },
        Some((Item::LongWithArg(name, value), behind)) => match long_field(level, name) {
            None => Scan::Refused(ParseErrorView::UnrecognizedLongOption(name)),
            Some(Field::Help) => Scan::Refused(ParseErrorView::UnexpectedArgument(name)),
            Some(field) => scan(args, behind, level, found.put(field, value)),
        },
    }
}

/// The argument that ends the reading of a level is one of the command
/// line, further on than where the reading began, and the progress stands
/// right behind it.
pub proof fn lemma_scan_stops_at_an_argument(
    args: Seq<Seq<char>>,
    at: Progress,
    level: Level,
    found: Found,
)
    requires
        0 <= at.taken <= args.len(),
    ensures
        scan(args, at, level, found) matches Scan::Free(_, arg, behind) ==> {
            &&& at.taken < behind.taken <= args.len()
            &&& behind.cluster.len() == 0
            &&& arg == args[behind.taken - 1]
        },
    decreases args.len() - at.taken, at.cluster.len(),
{
    match next_item(args, at) {
        None => {},
        Some((Item::Free(_), _)) => {},
        Some((Item::Short(c), behind)) => match short_field(level, c) {
            None => {},
            Some(Field::Help) => {
                lemma_scan_stops_at_an_argument(
                    args,
                    behind,
                    level,
                    found.put(Field::Help, Seq::empty()),
                );
            },
            Some(field) => match next_value(args, behind) {
                None => {},
                Some((value, beyond)) => {
                    lemma_scan_stops_at_an_argument(args, beyond, level, found.put(field, value));
                },
            },
        },
        Some((Item::Long(name), behind)) => match long_field(level, name) {
            None => {},
            Some(Field::Help) => {
                lemma_scan_stops_at_an_argument(
                    args,
                    behind,
                    level,
                    found.put(Field::Help, Seq::empty()),
                );
            },
            Some(field) => match next_value(args, behind) {
                None => {},
                Some((value, beyond)) => {
                    lemma_scan_stops_at_an_argument(args, beyond, level, found.put(field, value));
                },
            },
        },
        Some((Item::LongWithArg(name, value), behind)) => match long_field(level, name) {
            None => {},
            Some(Field::Help) => {},
            Some(field) => {
                lemma_scan_stops_at_an_argument(args, behind, level, found.put(field, value));
            },
        },
    }
}

/// The command that `name` names, read from `at` on.
pub open spec fn command(args: Seq<Seq<char>>, name: Seq<char>, at: Progress) -> Result<
    CommandView,
    ParseErrorView,
> {
    let level = if name == "list"@ {
        Some(Level::List)
    } else if name == "logs"@ {
        Some(Level::Logs)
    } else if name == "version"@ {
        Some(Level::Version)
    } else {
        None
    };
    match level {
        None => Err(ParseErrorView::UnrecognizedCommand(name)),
        Some(level) => match scan(args, at, level, Found::nothing()) {
            Scan::Refused(error) => Err(error),
            Scan::Free(_, arg, _) => Err(ParseErrorView::UnexpectedFree(arg)),
            Scan::Ended(found) => Ok(
                match level {
                    Level::List => CommandView::List(ListOptsView { help: found.help }),
                    Level::Logs => CommandView::Logs(
                        LogsOptionsView {
                            help: found.help,
                            group: found.group,
                            watch: found.watch,
                            since: found.since,
                            filter: found.filter,
                            timeout: found.timeout,
                        },
                    ),
                    _ => CommandView::Version,
                },
            ),
        },
    }
}

/// What the command line `args` says, or why it is refused.
pub open spec fn parsed(args: Seq<Seq<char>>) -> Result<CliOptionsView, ParseErrorView> {
    let start = Progress { taken: 0, cluster: Seq::empty(), ended: false };
    match scan(args, start, Level::Top, Found::nothing()) {
        Scan::Refused(error) => Err(error),
        Scan::Ended(found) => Ok(
            CliOptionsView {
                help: found.help,
                region: found.region,
                profile: found.profile,
                commands: None,
            },
        ),
        Scan::Free(found, name, behind) => match command(args, name, behind) {
            Err(error) => Err(error),
            Ok(command) => Ok(
                CliOptionsView {
                    help: found.help,
                    region: found.region,
                    profile: found.profile,
                    commands: Some(command),
                },
            ),
        },
    }
}

/// The texts of the arguments.
pub open spec fn texts(args: Seq<&str>) -> Seq<Seq<char>> {
    Seq::new(args.len(), |i: int| args[i]@)
}

/// Progress as the reader holds it: the short options left over are those of
/// the last argument taken, from `offset` on; no offset, no cluster.
#[derive(Clone, Copy)]
struct Reader {
    taken: usize,
    offset: usize,
    ended: bool,
}

impl Reader {
    spec fn fits(self, args: Seq<&str>) -> bool {
        &&& self.taken <= args.len()
        &&& self.offset > 0 ==> self.taken > 0 && self.offset <= args[self.taken - 1]@.len()
    }

    spec fn progress(self, args: Seq<&str>) -> Progress {
        Progress {
            taken: self.taken as int,
            cluster: if self.offset > 0 {
                let arg = args[self.taken - 1]@;
                arg.subrange(self.offset as int, arg.len() as int)
            } else {
                Seq::empty()
            },
            ended: self.ended,
        }
    }
}

/// An item as the reader holds it: texts are parts of the arguments.
enum Token<'a> {
    Short(char),
    Long(&'a str),
    LongWithArg(&'a str, &'a str),
    Free(&'a str),
}

impl<'a> Token<'a> {
    spec fn item(self) -> Item {
        match self {
            Token::Short(c) => Item::Short(c),
            Token::Long(name) => Item::Long(name@),
            Token::LongWithArg(name, value) => Item::LongWithArg(name@, value@),
            Token::Free(arg) => Item::Free(arg@),
        }
    }
}

/// Finds the first `=` of `arg`.
fn find_equals(arg: &str, len: usize) -> (at: usize)
    requires
        len == arg@.len(),
    ensures
        at == equals_at(arg@),
        at <= len,
        forall|j: int| 0 <= j < at ==> arg@[j] != '=',
        at < len ==> arg@[at as int] == '=',
{
    let mut at: usize = 0;
    proof {
        assert(arg@.subrange(0, len as int) =~= arg@);
    }
    while at < len && arg.get_char(at) != '='
        invariant
            0 <= at <= len,
            len == arg@.len(),
            equals_at(arg@) == at + equals_at(arg@.subrange(at as int, len as int)),
            forall|j: int| 0 <= j < at ==> arg@[j] != '=',
        decreases len - at,
    {
        proof {
            let rest = arg@.subrange(at as int, len as int);
            assert(rest.first() == arg@[at as int]);
            assert(rest.drop_first() =~= arg@.subrange(at + 1, len as int));
        }
        at = at + 1;
    }
    proof {
        let rest = arg@.subrange(at as int, len as int);
        if at < len {
            assert(rest.first() == arg@[at as int]);
        }
    }
    at
}

fn read_item<'a>(args: &'a [&'a str], at: Reader) -> (next: Option<(Token<'a>, Reader)>)
    requires
        at.fits(args@),
    ensures
        match next {
            Some((token, behind)) => behind.fits(args@) && next_item(
                texts(args@),
                at.progress(args@),
            ) == Some((token.item(), behind.progress(args@))),
            None => next_item(texts(args@), at.progress(args@)) is None,
        },
{
    if at.offset > 0 {
        let last = args[at.taken - 1];
        let len = last.unicode_len();
        if at.offset < len {
            let c = last.get_char(at.offset);
            let behind = Reader { offset: at.offset + 1, ..at };
            proof {
                let cluster = at.progress(args@).cluster;
                assert(cluster.first() == c);
                assert(cluster.drop_first() =~= behind.progress(args@).cluster);
            }
            return Some((Token::Short(c), behind));
        }
    }
    if at.taken >= args.len() {
        return None;
    }
    let arg = args[at.taken];
    let len = arg.unicode_len();
    let behind = Reader { taken: at.taken + 1, offset: 0, ended: at.ended };
    assert(texts(args@)[at.taken as int] == arg@);
    if at.ended {
        return Some((Token::Free(arg), behind));
    }
    if len >= 2 && arg.get_char(0) == '-' {
        if arg.get_char(1) == '-' {
            if len == 2 {
                if at.taken + 1 < args.len() {
                    let free = args[at.taken + 1];
                    assert(texts(args@)[at.taken + 1] == free@);
                    Some((Token::Free(free), Reader { taken: at.taken + 2, offset: 0, ended: true }))
                } else {
                    None
                }
            } else {
                let eq = find_equals(arg, len);
                proof {
                    if eq < 2 {
                        assert(arg@[eq as int] == '-');
                    }
                }
                if eq < len {
                    Some(
                        (
                            Token::LongWithArg(
                                arg.substring_char(2, eq),
                                arg.substring_char(eq + 1, len),
                            ),
                            behind,
                        ),
                    )
                } else {
                    Some((Token::Long(arg.substring_char(2, len)), behind))
                }
            }
        } else {
            let c = arg.get_char(1);
            let inside = Reader { taken: at.taken + 1, offset: 2, ended: at.ended };
            Some((Token::Short(c), inside))
        }
    } else {
        Some((Token::Free(arg), behind))
    }
}

fn read_value<'a>(args: &'a [&'a str], at: Reader) -> (next: Option<(&'a str, Reader)>)
    requires
        at.fits(args@),
    ensures
        match next {
            Some((value, behind)) => behind.fits(args@) && next_value(
                texts(args@),
                at.progress(args@),
            ) == Some((value@, behind.progress(args@))),
            None => next_value(texts(args@), at.progress(args@)) is None,
        },
{
    if at.offset > 0 {
        let last = args[at.taken - 1];
        let len = last.unicode_len();
        if at.offset < len {
            return Some((last.substring_char(at.offset, len), Reader { offset: 0, ..at }));
        }
    }
    if at.taken < args.len() {
        let arg = args[at.taken];
        assert(texts(args@)[at.taken as int] == arg@);
        Some((arg, Reader { taken: at.taken + 1, offset: 0, ended: at.ended }))
    } else {
        None
    }
}

fn same_text(a: &str, b: &str) -> (same: bool)
    ensures
        same == (a@ == b@),
{
    let n = a.unicode_len();
    if n != b.unicode_len() {
        return false;
    }
    let mut i: usize = 0;
    while i < n
        invariant
            0 <= i <= n,
            n == a@.len(),
            n == b@.len(),
            forall|j: int| 0 <= j < i ==> a@[j] == b@[j],
        decreases n - i,
    {
        if a.get_char(i) != b.get_char(i) {
            return false;
        }
        i = i + 1;
    }
    assert(a@ =~= b@);
    true
}

fn long_field_of(level: Level, name: &str) -> (field: Option<Field>)
    ensures
        field == long_field(level, name@),
{
    match level {
        Level::Top => if same_text(name, "help") {
            Some(Field::Help)
        } else if same_text(name, "region") {
            Some(Field::Region)
        } else if same_text(name, "profile") {
            Some(Field::Profile)
        } else {
            None
        },
        Level::List => if same_text(name, "help") {
            Some(Field::Help)
        } else {
            None
        },
        Level::Logs => if same_text(name, "help") {
            Some(Field::Help)
        } else if same_text(name, "group") {
            Some(Field::Group)
        } else if same_text(name, "watch") {
            Some(Field::Watch)
        } else if same_text(name, "since") {
            Some(Field::Since)
        } else if same_text(name, "filter") {
            Some(Field::Filter)
        } else if same_text(name, "timeout") {
            Some(Field::Timeout)
        } else {
            None
        },
        Level::Version => None,
    }
}

fn short_field_of(level: Level, c: char) -> (field: Option<Field>)
    ensures
        field == short_field(level, c),
{
    match level {
        Level::Top => if c == 'h' {
            Some(Field::Help)
        } else if c == 'r' {
            Some(Field::Region)
        } else if c == 'p' {
            Some(Field::Profile)
        } else {
            None
        },
        Level::List => if c == 'h' {
            Some(Field::Help)
        } else {
            None
        },
        Level::Logs => if c == 'h' {
            Some(Field::Help)
        } else if c == 'g' {
            Some(Field::Group)
        } else if c == 'w' {
            Some(Field::Watch)
        } else if c == 's' {
            Some(Field::Since)
        } else if c == 'f' {
            Some(Field::Filter)
        } else if c == 't' {
            Some(Field::Timeout)
        } else {
            None
        },
        Level::Version => None,
    }
}

/// What the options read so far have set, as the reader holds it.
struct Settings {
    help: bool,
    region: Option<String>,
    profile: Option<String>,
    group: Option<String>,
    watch: Option<String>,
    since: Option<String>,
    filter: Option<String>,
    timeout: Option<String>,
}

impl Settings {
    spec fn found(self) -> Found {
        Found {
            help: self.help,
            region: text_of(self.region),
            profile: text_of(self.profile),
            group: text_of(self.group),
            watch: text_of(self.watch),
            since: text_of(self.since),
            filter: text_of(self.filter),
            timeout: text_of(self.timeout),
        }
    }

    fn nothing() -> (none: Settings)
        ensures
            none.found() == Found::nothing(),
    {
        Settings {
            help: false,
            region: None,
            profile: None,
            group: None,
            watch: None,
            since: None,
            filter: None,
            timeout: None,
        }
    }

    fn put(self, field: Field, value: &str) -> (set: Settings)
        ensures
            set.found() == self.found().put(field, value@),
    {
        let mut set = self;
        match field {
            Field::Help => {
                set.help = true;
            },
            Field::Region => {
                set.region = Some(value.to_owned());
            },
            Field::Profile => {
                set.profile = Some(value.to_owned());
            },
            Field::Group => {
                set.group = Some(value.to_owned());
            },
            Field::Watch => {
                set.watch = Some(value.to_owned());
            },
            Field::Since => {
                set.since = Some(value.to_owned());
            },
            Field::Filter => {
                set.filter = Some(value.to_owned());
            },
            Field::Timeout => {
                set.timeout = Some(value.to_owned());
            },
        }
        set
    }
}

/// How reading one level ended, as the reader holds it.
enum Scanned<'a> {
    Ended(Settings),
    Free(Settings, &'a str, Reader),
    Refused(ParseError),
}

impl<'a> Scanned<'a> {
    spec fn outcome(self, args: Seq<&str>) -> Scan {
        match self {
            Scanned::Ended(set) => Scan::Ended(set.found()),
            Scanned::Free(set, arg, behind) => Scan::Free(set.found(), arg@, behind.progress(args)),
            Scanned::Refused(error) => Scan::Refused(error@),
        }
    }
}

fn scan_level<'a>(args: &'a [&'a str], from: Reader, level: Level) -> (end: Scanned<'a>)
    requires
        from.fits(args@),
    ensures
        end.outcome(args@) == scan(texts(args@), from.progress(args@), level, Found::nothing()),
        end matches Scanned::Free(_, _, behind) ==> behind.fits(args@),
{
    let ghost whole = scan(texts(args@), from.progress(args@), level, Found::nothing());
    let mut at = from;
    let mut set = Settings::nothing();
    loop
        invariant
            at.fits(args@),
            whole == scan(texts(args@), from.progress(args@), level, Found::nothing()),
            scan(texts(args@), at.progress(args@), level, set.found()) == whole,
        decreases args@.len() - at.taken, at.progress(args@).cluster.len(),
    {
        match read_item(args, at) {
            None => {
                return Scanned::Ended(set);
            },
            Some((Token::Free(arg), behind)) => {
                return Scanned::Free(set, arg, behind);
            },
            Some((Token::Short(c), behind)) => {
                match short_field_of(level, c) {
                    None => {
                        return Scanned::Refused(ParseError::UnrecognizedShortOption(c));
                    },
                    Some(Field::Help) => {
                        set = set.put(Field::Help, "");
                        at = behind;
                    },
                    Some(field) => {
                        match read_value(args, behind) {
                            None => {
                                return Scanned::Refused(
                                    ParseError::MissingArgument(OptName::Short(c)),
                                );
                            },
                            Some((value, beyond)) => {
                                set = set.put(field, value);
                                at = beyond;
                            },
                        }
                    },
                }
            },
            Some((Token::Long(name), behind)) => {
                match long_field_of(level, name) {
                    None => {
                        return Scanned::Refused(
                            ParseError::UnrecognizedLongOption(name.to_owned()),
                        );
                    },
                    Some(Field::Help) => {
                        set = set.put(Field::Help, "");
                        at = behind;
                    },
                    Some(field) => {
                        match read_value(args, behind) {
                            None => {
                                return Scanned::Refused(
                                    ParseError::MissingArgument(OptName::Long(name.to_owned())),
                                );
                            },
                            Some((value, beyond)) => {
                                set = set.put(field, value);
                                at = beyond;
                            },
                        }
                    },
                }
            },
            Some((Token::LongWithArg(name, value), behind)) => {
                match long_field_of(level, name) {
                    None => {
                        return Scanned::Refused(
                            ParseError::UnrecognizedLongOption(name.to_owned()),
                        );
                    },
                    Some(Field::Help) => {
                        return Scanned::Refused(ParseError::UnexpectedArgument(name.to_owned()));
                    },
                    Some(field) => {
                        set = set.put(field, value);
                        at = behind;
                    },
                }
            },
        }
    }
}

fn read_command<'a>(args: &'a [&'a str], name: &'a str, at: Reader) -> (read: Result<
    CommandOptions,
    ParseError,
>)
    requires
        at.fits(args@),
    ensures
        match read {
            Ok(options) => command(texts(args@), name@, at.progress(args@)) == Ok::<
                CommandView,
                ParseErrorView,
            >(options@),
            Err(error) => command(texts(args@), name@, at.progress(args@)) == Err::<
                CommandView,
                ParseErrorView,
            >(error@),
        },
{
    let level = if same_text(name, "list") {
        Level::List
    } else if same_text(name, "logs") {
        Level::Logs
    } else if same_text(name, "version") {
        Level::Version
    } else {
        return Err(ParseError::UnrecognizedCommand(name.to_owned()));
    };
    match scan_level(args, at, level) {
        Scanned::Refused(error) => Err(error),
        Scanned::Free(_, arg, _) => Err(ParseError::UnexpectedFree(arg.to_owned())),
        Scanned::Ended(set) => Ok(
            match level {
                Level::List => CommandOptions::List(ListOpts { help: set.help }),
                Level::Logs => CommandOptions::Logs(
                    LogsOptions {
                        help: set.help,
                        group: set.group,
                        watch: set.watch,
                        since: set.since,
                        filter: set.filter,
                        timeout: set.timeout,
                    },
                ),
                _ => CommandOptions::Version(Version {  }),
            },
        ),
    }
}

/// The profile that is used where the command line names none.
pub open spec fn default_profile() -> Seq<char> {
    "default"@
}

impl CliOptionsView {
    /// Whether help was asked for, before the command or behind it.
    pub open spec fn help_requested(self) -> bool {
        self.help || match self.commands {
            Some(CommandView::List(opts)) => opts.help,
            Some(CommandView::Logs(opts)) => opts.help,
            _ => false,
        }
    }

    /// The profile to take the credentials from.
    pub open spec fn profile_name(self) -> Seq<char> {
        match self.profile {
            Some(name) => name,
            None => default_profile(),
        }
    }
}

impl CliOptions {
    /// Whether help was asked for, before the command or behind it.
    pub fn help_requested(&self) -> (asked: bool)
        ensures
            asked == self@.help_requested(),
    {
        self.help || match &self.commands {
            Some(CommandOptions::List(opts)) => opts.help,
            Some(CommandOptions::Logs(opts)) => opts.help,
            _ => false,
        }
    }

    /// The profile to take the credentials from: the one that the command
    /// line names, or `default`.
    pub fn profile_name(&self) -> (name: String)
        ensures
            name@ == self@.profile_name(),
    {
        match &self.profile {
            Some(name) => name.clone(),
            None => "default".to_owned(),
        }
    }

    /// Reads a command line, the program's own name left out.
    pub fn parse_args_default(args: &[&str]) -> (read: Result<CliOptions, ParseError>)
        ensures
            match read {
                Ok(options) => parsed(texts(args@)) == Ok::<CliOptionsView, ParseErrorView>(
                    options@,
                ),
                Err(error) => parsed(texts(args@)) == Err::<CliOptionsView, ParseErrorView>(
                    error@,
                ),
            },
    {
        let start = Reader { taken: 0, offset: 0, ended: false };
        match scan_level(args, start, Level::Top) {
            Scanned::Refused(error) => Err(error),
            Scanned::Ended(set) => Ok(
                CliOptions {
                    help: set.help,
                    region: set.region,
                    profile: set.profile,
                    commands: None,
                },
            ),
            Scanned::Free(set, name, behind) => match read_command(args, name, behind) {
                Err(error) => Err(error),
                Ok(command) => Ok(
                    CliOptions {
                        help: set.help,
                        region: set.region,
                        profile: set.profile,
                        commands: Some(command),
                    },
                ),
            },
        }
    }
}

} // verus!
