//! The first lines or bytes of each input.

use vstd::prelude::*;
use vstd::slice::slice_subrange;
use vstd::string::StringExecFns;
use vstd::utf8::{decode_utf8, valid_utf8};
use crate::lines::{find_line_start, take_lines};
use crate::text::{decimal_value, decode_lossy, is_numeral, is_utf8, parse_numeral, to_chars, utf8_lossy};

verus! {

/// The positive number that `s` denotes: a numeral, which a single `+` may
/// precede, whose value is neither zero nor too large for `usize`.
pub open spec fn positive_int(s: Seq<char>) -> Option<usize> {
    let digits = if s.len() > 0 && s[0] == '+' {
        s.drop_first()
    } else {
        s
    };
    if is_numeral(digits) && 0 < decimal_value(digits) <= usize::MAX {
        Some(decimal_value(digits) as usize)
    } else {
        None
    }
}

/// Parses a count: a positive decimal number. The text comes back as the
/// error where it is anything else.
pub fn parse_positive_int(val: &str) -> (result: Result<usize, String>)
    ensures
        positive_int(val@) matches Some(n) ==> result == Ok::<usize, String>(n),
        positive_int(val@) is None ==> (result matches Err(text) && text@ == val@),
{
    let chars = to_chars(val);
    let n: usize = chars.len();
    let from: usize = if n > 0 && chars[0] == '+' {
        1
    } else {
        0
    };
    let digits = slice_subrange(chars.as_slice(), from, n);
    assert(digits@ == if from == 1 { val@.drop_first() } else { val@ });
    match parse_numeral(digits, usize::MAX as u64) {
        Some(value) => if value > 0 {
            Ok(value as usize)
        } else {
            Err(val.to_owned())
        },
        None => Err(val.to_owned()),
    }
}

/// Settings of one run.
#[derive(Debug)]
pub struct Config {
    /// The inputs to read, in the order given.
    pub files: Vec<String>,
    /// How many lines to show; used where `bytes` is absent.
    pub lines: usize,
    /// How many bytes to show, where a byte count was asked for.
    pub bytes: Option<usize>,
}

/// Which of the two counts was refused, and its text.
#[derive(Debug)]
pub enum ConfigError {
    /// The line count is not a positive number.
    IllegalLineCount(String),
    /// The byte count is not a positive number.
    IllegalByteCount(String),
}

/// The message that goes with a refusal of the settings.
pub open spec fn config_message(e: ConfigError) -> Seq<char> {
    match e {
        ConfigError::IllegalLineCount(text) => "illegal line count -- "@ + text@,
        ConfigError::IllegalByteCount(text) => "illegal byte count -- "@ + text@,
    }
}

impl ConfigError {
    /// The message of this error.
    pub fn to_string(&self) -> (text: String)
        ensures
            text@ == config_message(*self),
    {
        match self {
            ConfigError::IllegalLineCount(value) => {
                let mut text = String::from_str("illegal line count -- ");
                text.append(value.as_str());
                text
            },
            ConfigError::IllegalByteCount(value) => {
                let mut text = String::from_str("illegal byte count -- ");
                text.append(value.as_str());
                text
            },
        }
    }
}

/// Why the head of an input could not be shown.
#[derive(Debug, Clone, Copy, PartialEq, Eq, Structural)]
pub enum HeadError {
    /// The lines asked for are not valid UTF-8.
    DecodingError,
}

/// The first `count` bytes of `content`, decoded leniently.
pub open spec fn head_bytes(content: Seq<u8>, count: nat) -> Seq<char> {
    utf8_lossy(first_bytes_of(content, count))
}

/// The first `count` bytes of `content`, or all of it where it is shorter.
pub open spec fn first_bytes_of(content: Seq<u8>, count: nat) -> Seq<u8> {
    if count <= content.len() {
        content.take(count as int)
    } else {
        content
    }
}

/// The first `count` lines of `content` as text, or the error where they
/// are not valid UTF-8. What follows those lines is not looked at.
pub open spec fn head_lines(content: Seq<u8>, count: nat) -> Result<Seq<char>, HeadError> {
    if valid_utf8(take_lines(content, count)) {
        Ok(decode_utf8(take_lines(content, count)))
    } else {
        Err(HeadError::DecodingError)
    }
}

/// The first `count` bytes of `content`, or all of it where it is shorter.
pub fn first_bytes(content: &[u8], count: usize) -> (prefix: &[u8])
    ensures
        prefix@ == first_bytes_of(content@, count as nat),
{
    if count <= content.len() {
        slice_subrange(content, 0, count)
    } else {
        slice_subrange(content, 0, content.len())
    }
}

/// The first `count` lines of `content`, line feeds included.
pub fn first_lines(content: &[u8], count: usize) -> (prefix: &[u8])
    ensures
        prefix@ == take_lines(content@, count as nat),
{
    let end: usize = find_line_start(content, count as u64);
    slice_subrange(content, 0, end)
}

impl Config {
    /// The line count that applies where none is given.
    pub open spec fn default_lines() -> usize {
        10
    }

    /// Builds the settings from the raw option values.
    ///
    /// The line count is looked at first, so where both are refused the line
    /// count is the one reported.
    pub fn from_args(files: Vec<String>, lines: Option<&str>, bytes: Option<&str>) -> (result:
        Result<Config, ConfigError>)
        ensures
            match result {
                Ok(config) => {
                    &&& config.files == files
                    &&& match lines {
                        Some(text) => positive_int(text@) == Some(config.lines),
                        None => config.lines == Config::default_lines(),
                    }
                    &&& match bytes {
                        Some(text) => config.bytes is Some && positive_int(text@) == config.bytes,
                        None => config.bytes is None,
                    }
                },
                Err(ConfigError::IllegalLineCount(value)) => {
                    &&& lines matches Some(text)
                    &&& positive_int(text@) is None
                    &&& value@ == text@
                },
                Err(ConfigError::IllegalByteCount(value)) => {
                    &&& lines matches Some(text) ==> positive_int(text@) is Some
                    &&& bytes matches Some(text)
                    &&& positive_int(text@) is None
                    &&& value@ == text@
                },
            },
    {
        let lines_value: usize = match lines {
            Some(text) => match parse_positive_int(text) {
                Ok(value) => value,
                Err(e) => {
                    return Err(ConfigError::IllegalLineCount(e));
                },
            },
            None => 10,
        };
        let bytes_value: Option<usize> = match bytes {
            Some(text) => match parse_positive_int(text) {
                Ok(value) => Some(value),
                Err(e) => {
                    return Err(ConfigError::IllegalByteCount(e));
                },
            },
            None => None,
        };
        Ok(Config { files, lines: lines_value, bytes: bytes_value })
    }

    /// What is shown of one input: its first bytes where a byte count was
    /// asked for, else its first lines.
    pub fn head(&self, content: &[u8]) -> (result: Result<String, HeadError>)
        ensures
            match self.bytes {
                Some(count) => result matches Ok(text) && text@ == head_bytes(
                    content@,
                    count as nat,
                ),
                None => match head_lines(content@, self.lines as nat) {
                    Ok(expected) => result matches Ok(text) && text@ == expected,
                    Err(e) => result == Err::<String, HeadError>(e),
                },
            },
    {
        match self.bytes {
            Some(count) => Ok(decode_lossy(first_bytes(content, count))),
            None => {
                let prefix = first_lines(content, self.lines);
                if is_utf8(prefix) {
                    Ok(decode_lossy(prefix))
                } else {
                    Err(HeadError::DecodingError)
                }
            },
        }
    }

    /// The banner that precedes input number `index` (from zero), or `None`
    /// where there is only one input, or no such input.
    pub fn header(&self, index: usize) -> (banner: Option<String>)
        ensures
            banner is Some <==> self.files@.len() > 1 && index < self.files@.len(),
            banner matches Some(text) ==> text@ == "==> "@ + self.files@[index as int]@ + " <=="@,
    {
        if self.files.len() <= 1 || index >= self.files.len() {
            return None;
        }
        let mut text = String::from_str("==> ");
        text.append(self.files[index].as_str());
        text.append(" <==");
        Some(text)
    }

    /// Whether an empty line follows what is shown of input number `index`:
    /// it does between inputs, not after the last.
    pub fn separator_follows(&self, index: usize) -> (follows: bool)
        ensures
            follows <==> self.files@.len() > 1 && index + 1 < self.files@.len(),
    {
        self.files.len() > 1 && index < self.files.len() - 1
    }
}

} // verus!
