//! The code-point listing: what was asked for on the command line, and the
//! lines that answer it.

use crate::text::{chars_of, split_first};
use crate::unicode::{
    chars_between, parse_pair, parse_unicode_bounds, push_records, records, scalars_between,
    texts, unicode_bounds_spec,
};
use vstd::prelude::*;

verus! {

/// What separates the two ends of a range on the command line.
pub const RANGE_SEPARATOR: char = '-';

/// Why nothing can be listed.
#[derive(Clone, Copy, Debug, PartialEq, Eq, Structural)]
pub enum ListingError {
    /// A range has no separator, or an end that is no code point.
    InvalidCharRange,
    /// An end of a character range is empty.
    EmptyChar,
    /// An end of a character range holds more than one character.
    TooManyChars,
}

impl ListingError {
    /// What to tell the user.
    pub fn message(&self) -> (text: String)
        ensures
            text@ == (match *self {
                ListingError::InvalidCharRange => "invalid character range"@,
                ListingError::EmptyChar => "cannot parse char from empty string"@,
                ListingError::TooManyChars => "too many characters in string"@,
            }),
    {
        match self {
            ListingError::InvalidCharRange => "invalid character range".to_owned(),
            ListingError::EmptyChar => "cannot parse char from empty string".to_owned(),
            ListingError::TooManyChars => "too many characters in string".to_owned(),
        }
    }
}

/// What to list, as a mathematical value.
pub struct ConfigView {
    pub ascii: bool,
    pub unicode_range: Option<Seq<char>>,
    pub char_range: Option<Seq<char>>,
    pub text: Option<Seq<char>>,
}

/// What to list.
#[derive(Debug)]
pub struct Config {
    ascii: bool,
    unicode_range: Option<String>,
    char_range: Option<String>,
    text: Option<String>,
}

impl View for Config {
    type V = ConfigView;

    closed spec fn view(&self) -> ConfigView {
        ConfigView {
            ascii: self.ascii,
            unicode_range: self.unicode_range.deep_view(),
            char_range: self.char_range.deep_view(),
            text: self.text.deep_view(),
        }
    }
}

impl Config {
    /// A request to list: the ASCII characters if `ascii`; the range
    /// `unicode_range` of hexadecimal code points; the range `char_range` of
    /// characters; and the characters of `text`.
    pub fn new(
        ascii: bool,
        unicode_range: Option<String>,
        char_range: Option<String>,
        text: Option<String>,
    ) -> (config: Config)
        ensures
            config@ == (ConfigView {
                ascii,
                unicode_range: unicode_range.deep_view(),
                char_range: char_range.deep_view(),
                text: text.deep_view(),
            }),
    {
        Config { ascii, unicode_range, char_range, text }
    }

    /// Whether the ASCII characters are asked for.
    pub fn ascii(&self) -> (b: bool)
        ensures
            b == self@.ascii,
    {
        self.ascii
    }

    /// The range of hexadecimal code points, as it was written.
    pub fn unicode_range(&self) -> (r: &Option<String>)
        ensures
            r.deep_view() == self@.unicode_range,
    {
        &self.unicode_range
    }

    /// The range of characters, as it was written.
    pub fn char_range(&self) -> (r: &Option<String>)
        ensures
            r.deep_view() == self@.char_range,
    {
        &self.char_range
    }

    /// The text whose characters are asked for.
    pub fn text(&self) -> (r: &Option<String>)
        ensures
            r.deep_view() == self@.text,
    {
        &self.text
    }
}

/// The one character that `s` holds; an error if it holds none or several.
pub open spec fn single_char_spec(s: Seq<char>) -> Result<char, ListingError> {
    if s.len() == 0 {
        Err(ListingError::EmptyChar)
    } else if s.len() == 1 {
        Ok(s[0])
    } else {
        Err(ListingError::TooManyChars)
    }
}

/// The two ends of the range that `s` writes as two characters with the
/// first `sep` between them. Without a `sep` the range is invalid; of two
/// bad ends the first is reported.
pub open spec fn char_bounds_spec(s: Seq<char>, sep: char) -> Result<(char, char), ListingError> {
    match split_first(s, sep) {
        Some((left, right)) => match single_char_spec(left) {
            Ok(low) => match single_char_spec(right) {
                Ok(high) => Ok((low, high)),
                Err(e) => Err(e),
            },
            Err(e) => Err(e),
        },
        None => Err(ListingError::InvalidCharRange),
    }
}

/// The characters that `c` picks by a range. A range of code points goes
/// before a range of characters, and either goes before the ASCII
/// characters; without any of the three there are none.
pub open spec fn listed_chars(c: ConfigView) -> Result<Seq<char>, ListingError> {
    if let Some(code) = c.unicode_range {
        match unicode_bounds_spec(code, RANGE_SEPARATOR) {
            Some((low, high)) => Ok(scalars_between(low as int, high as int)),
            None => Err(ListingError::InvalidCharRange),
        }
    } else if let Some(code) = c.char_range {
        match char_bounds_spec(code, RANGE_SEPARATOR) {
            Ok((low, high)) => Ok(scalars_between(low as int, high as int)),
            Err(e) => Err(e),
        }
    } else if c.ascii {
        Ok(scalars_between(0, 0x7F))
    } else {
        Ok(Seq::empty())
    }
}

/// The lines that answer `c`: one for each character picked by a range, then
/// one for each character of the text, control characters left out. A bad
/// range gives its error and no line at all.
pub open spec fn listing(c: ConfigView) -> Result<Seq<Seq<char>>, ListingError> {
    match listed_chars(c) {
        Ok(chars) => Ok(
            records(chars) + records(
                match c.text {
                    Some(text) => text,
                    None => Seq::empty(),
                },
            ),
        ),
        Err(e) => Err(e),
    }
}

/// Reads `s` as one character.
pub fn parse_char(s: &str) -> (r: Result<char, ListingError>)
    ensures
        r == single_char_spec(s@),
{
    let n = s.unicode_len();
    if n == 0 {
        Err(ListingError::EmptyChar)
    } else if n == 1 {
        Ok(s.get_char(0))
    } else {
        Err(ListingError::TooManyChars)
    }
}

/// Reads `s` as two characters with `separator` between them.
pub fn parse_char_bounds(s: &str, separator: char) -> (r: Result<(char, char), ListingError>)
    ensures
        r == char_bounds_spec(s@, separator),
{
    match parse_pair(s, separator) {
        Some((left, right)) => {
            let low = match parse_char(left.as_str()) {
                Ok(c) => c,
                Err(e) => {
                    return Err(e);
                },
            };
            match parse_char(right.as_str()) {
                Ok(high) => Ok((low, high)),
                Err(e) => Err(e),
            }
        },
        None => Err(ListingError::InvalidCharRange),
    }
}

/// The lines to print for `config`, in order.
pub fn run(config: Config) -> (r: Result<Vec<String>, ListingError>)
    ensures
        match r {
            Ok(lines) => listing(config@) == Ok::<Seq<Seq<char>>, ListingError>(texts(lines@)),
            Err(e) => listing(config@) == Err::<Seq<Seq<char>>, ListingError>(e),
        },
{
    let chars: Vec<char> = match &config.unicode_range {
        Some(code) => match parse_unicode_bounds(code.as_str(), RANGE_SEPARATOR) {
            Some((low, high)) => chars_between(low, high),
            None => {
                return Err(ListingError::InvalidCharRange);
            },
        },
        None => match &config.char_range {
            Some(code) => match parse_char_bounds(code.as_str(), RANGE_SEPARATOR) {
                Ok((low, high)) => chars_between(low, high),
                Err(e) => {
                    return Err(e);
                },
            },
            None => if config.ascii {
                chars_between('\x00', '\x7F')
            } else {
                Vec::new()
            },
        },
    };
    assert(listed_chars(config@) == Ok::<Seq<char>, ListingError>(chars@));
    let mut lines: Vec<String> = Vec::new();
    assert(texts(lines@) =~= Seq::<Seq<char>>::empty());
    push_records(&mut lines, &chars);
    match &config.text {
        Some(text) => {
            let text_chars = chars_of(text.as_str());
            push_records(&mut lines, &text_chars);
        },
        None => {
            assert(records(Seq::<char>::empty()) =~= Seq::<Seq<char>>::empty());
        },
    }
    assert(texts(lines@) =~= records(chars@) + records(
        match config@.text {
            Some(text) => text,
            None => Seq::empty(),
        },
    ));
    Ok(lines)
}

/// Exit code for a command line that only asked for the help or the
/// version.
pub const EXIT_SHOWN: i32 = 0;

/// Exit code for a command line that could not be understood.
pub const EXIT_USAGE: i32 = 2;

/// Why a command line gave no request: it asked for the help or the version
/// text, or it could not be understood.
#[derive(Debug)]
pub struct ArgsError {
    exit_code: i32,
    message: String,
}

impl ArgsError {
    /// The code to end the process with: [`EXIT_SHOWN`] after the help or the
    /// version, [`EXIT_USAGE`] after a mistake.
    pub closed spec fn code(&self) -> i32 {
        self.exit_code
    }

    /// The text that the command-line parser wrote for the user: the help,
    /// the version, or what was wrong.
    pub closed spec fn text(&self) -> Seq<char> {
        self.message@
    }

    /// The code to end the process with.
    pub fn exit_code(&self) -> (code: i32)
        ensures
            code == self.code(),
    {
        self.exit_code
    }

    /// Whether the message belongs on the error stream rather than on the
    /// output.
    pub fn is_mistake(&self) -> (b: bool)
        ensures
            b == (self.code() != EXIT_SHOWN),
    {
        self.exit_code != EXIT_SHOWN
    }

    /// The text to show the user, as the command-line parser wrote it.
    pub fn message(&self) -> (text: &String)
        ensures
            text@ == self.text(),
    {
        &self.message
    }
}

/// What the command-line parser makes of `args`, the program's name first:
/// the flag `-a`/`--ascii`, the values of `-u`/`--unicode` and `-c`/`--char`
/// and the one free argument, or else the exit code that goes with the
/// help, the version or a mistake.
pub uninterp spec fn command_line_outcome(args: Seq<Seq<char>>) -> Result<
    (bool, Option<Seq<char>>, Option<Seq<char>>, Option<Seq<char>>),
    i32,
>;

/// `clap::Command::try_get_matches_from`, on the command of this tool: the
/// flag `-a`/`--ascii`, the options `-u`/`--unicode` and `-c`/`--char` with
/// one value each, one optional free argument, and clap's own `--help` and
/// `--version`. What clap matched comes back as plain values; where clap
/// stops, its exit code (`Error::exit_code`: 0 for help and version, 2 for
/// anything else) and its message come back instead. The contract names the
/// outcome as a function of `args`; of the message it says nothing.
#[verifier::external_body]
fn match_command_line(args: &Vec<String>) -> (r: Result<
    (bool, Option<String>, Option<String>, Option<String>),
    (i32, String),
>)
    ensures
        command_line_outcome(args.deep_view()) == (match r {
            Ok((ascii, unicode, chars, text)) => Ok(
                (ascii, unicode.deep_view(), chars.deep_view(), text.deep_view()),
            ),
            Err((code, _)) => Err(code),
        }),
        r matches Err((code, _)) ==> code == EXIT_SHOWN || code == EXIT_USAGE,
{
    let mut m = clap::Command::new("unicode")
        .version("0.1.0")
        .arg(clap::Arg::new("ascii").short('a').long("ascii").help("ASCII").action(clap::ArgAction::SetTrue))
        .arg(clap::Arg::new("unicode_range").short('u').long("unicode").help("print specified unicode range"))
        .arg(clap::Arg::new("char_range").short('c').long("char").help("print specified character range"))
        .arg(clap::Arg::new("text").help("print text"))
        .try_get_matches_from(args)
        .map_err(|e| (e.exit_code(), e.to_string()))?;
    Ok((m.get_flag("ascii"), m.remove_one("unicode_range"), m.remove_one("char_range"), m.remove_one("text")))
}

/// Reads the command line `args`, the program's name first, into a request.
pub fn get_args(args: Vec<String>) -> (r: Result<Config, ArgsError>)
    ensures
        match r {
            Ok(config) => command_line_outcome(args.deep_view()) == Ok::<
                (bool, Option<Seq<char>>, Option<Seq<char>>, Option<Seq<char>>),
                i32,
            >((config@.ascii, config@.unicode_range, config@.char_range, config@.text)),
            Err(e) => {
                &&& command_line_outcome(args.deep_view()) == Err::<
                    (bool, Option<Seq<char>>, Option<Seq<char>>, Option<Seq<char>>),
                    i32,
                >(e.code())
                &&& e.code() == EXIT_SHOWN || e.code() == EXIT_USAGE
            },
        },
{
    match match_command_line(&args) {
        Ok((ascii, unicode_range, char_range, text)) => Ok(
            Config::new(ascii, unicode_range, char_range, text),
        ),
        Err((exit_code, message)) => Err(ArgsError { exit_code, message }),
    }
}

} // verus!
