//! Offset resolution and windowed extraction for a `tail`-style tool.
//!
//! An offset text is parsed once into a [`TakeValue`]; for each resource the
//! offset is resolved against the number of lines or bytes the resource holds,
//! giving the index of the first unit to emit; the window from that index to
//! the end is then taken out of the resource's content, by scanning lines or
//! by indexing bytes.

use vstd::prelude::*;
use vstd::slice::slice_subrange;
use vstd::utf8::valid_utf8;
use vstd::string::StringExecFns;
use crate::lines::{
    count_lines, find_line_start, lemma_line_start_bound, lemma_skip_lines_leaves_the_rest,
    line_count, skip_lines,
};
use crate::text::{decimal_value, is_numeral, is_utf8, parse_numeral, to_chars};

verus! {

/// A requested offset into a resource, counted in lines or bytes.
#[derive(Debug, Clone, Copy, PartialEq, Eq, Structural)]
pub enum TakeValue {
    /// The text `+0`: everything, starting at the very first unit.
    PlusZero,
    /// A signed count. A positive `n` starts at unit `n` counted from the
    /// beginning (1-based); a negative `n` starts `|n|` units before the end;
    /// zero selects nothing.
    TakeNum(i64),
}

/// An offset text that is neither `+0` nor a decimal integer that fits.
#[derive(Debug)]
pub struct InvalidOffset {
    /// The text as it was given.
    pub text: String,
}

impl InvalidOffset {
    /// The rejected text, for the caller's message.
    pub fn to_string(&self) -> (text: String)
        ensures
            text@ == self.text@,
    {
        self.text.clone()
    }
}

/// The largest magnitude a count may have: that of the most negative `i64`.
pub open spec fn max_magnitude() -> nat {
    0x8000_0000_0000_0000
}

/// What an offset text means, or `None` where it is not a valid offset.
///
/// * `+0` alone is the sentinel [`TakeValue::PlusZero`].
/// * `+` followed by a numeral is that number, counted from the start.
/// * `-` followed by a numeral, or a numeral with no sign, is the negated
///   number, counted from the end. The magnitude is read in a wider type, so
///   `9223372036854775808` and `-9223372036854775808` both denote the most
///   negative count.
///
/// Anything else, and any number outside the range of `i64`, is invalid.
pub open spec fn parse_offset(s: Seq<char>) -> Option<TakeValue> {
    if s.len() == 2 && s[0] == '+' && s[1] == '0' {
        Some(TakeValue::PlusZero)
    } else if s.len() > 0 && s[0] == '+' {
        let digits = s.drop_first();
        if is_numeral(digits) && decimal_value(digits) <= i64::MAX {
            Some(TakeValue::TakeNum(decimal_value(digits) as i64))
        } else {
            None
        }
    } else {
        let digits = if s.len() > 0 && s[0] == '-' {
            s.drop_first()
        } else {
            s
        };
        if is_numeral(digits) && decimal_value(digits) <= max_magnitude() {
            Some(TakeValue::TakeNum((-(decimal_value(digits) as int)) as i64))
        } else {
            None
        }
    }
}

/// Parses an offset text. An invalid text comes back inside the error.
pub fn parse_count(s: &str) -> (result: Result<TakeValue, InvalidOffset>)
    ensures
        parse_offset(s@) matches Some(v) ==> result == Ok::<TakeValue, InvalidOffset>(v),
        parse_offset(s@) is None ==> (result matches Err(e) && e.text@ == s@),
{
    let chars = to_chars(s);
    let n: usize = chars.len();
    if n == 2 && chars[0] == '+' && chars[1] == '0' {
        return Ok(TakeValue::PlusZero);
    }
    let signed: bool = n > 0 && (chars[0] == '+' || chars[0] == '-');
    let from: usize = if signed { 1 } else { 0 };
    let digits = slice_subrange(chars.as_slice(), from, n);
    assert(digits@ == if signed { s@.drop_first() } else { s@ });
    if signed && chars[0] == '+' {
        match parse_numeral(digits, 0x7fff_ffff_ffff_ffffu64) {
            Some(m) => Ok(TakeValue::TakeNum(m as i64)),
            None => Err(InvalidOffset { text: s.to_owned() }),
        }
    } else {
        match parse_numeral(digits, 0x8000_0000_0000_0000u64) {
            Some(m) => {
                if m == 0x8000_0000_0000_0000u64 {
                    Ok(TakeValue::TakeNum(i64::MIN))
                } else {
                    Ok(TakeValue::TakeNum(-(m as i64)))
                }
            },
            None => Err(InvalidOffset { text: s.to_owned() }),
        }
    }
}

/// The absolute value of `v`, widened so that the most negative value has one.
pub open spec fn magnitude(v: i64) -> nat {
    if v < 0 {
        (-v) as nat
    } else {
        v as nat
    }
}

/// Computes `|v|` without overflow, also for the most negative value.
pub fn magnitude_of(v: i64) -> (m: u64)
    ensures
        m == magnitude(v),
{
    if v == i64::MIN {
        0x8000_0000_0000_0000u64
    } else if v < 0 {
        (-v) as u64
    } else {
        v as u64
    }
}

/// The zero-based index of the first unit of the window that `offset` selects
/// in a resource of `total` units, or `None` where nothing is selected.
///
/// The first rule that applies decides:
/// an empty resource selects nothing; `+0` starts at index 0; a negative
/// count starts that many units before the end, or at index 0 where the
/// resource is no longer than that; a positive count `v <= total` starts at
/// index `v - 1`; a positive count past the end and the count zero select
/// nothing.
pub open spec fn resolve_window(offset: TakeValue, total: nat) -> Option<nat> {
    if total == 0 {
        None
    } else {
        match offset {
            TakeValue::PlusZero => Some(0),
            TakeValue::TakeNum(v) => if v < 0 {
                if magnitude(v) < total {
                    Some((total - magnitude(v)) as nat)
                } else {
                    Some(0)
                }
            } else if 0 < v && v <= total {
                Some((v - 1) as nat)
            } else {
                None
            },
        }
    }
}

/// Resolves an offset against the number of units in a resource.
///
/// The result follows [`resolve_window`]; the further clauses spell out what
/// that means case by case.
pub fn get_start_index(take_val: &TakeValue, total: u64) -> (start: Option<u64>)
    ensures
        start is Some <==> resolve_window(*take_val, total as nat) is Some,
        start matches Some(s) ==> resolve_window(*take_val, total as nat) == Some(s as nat),
        start matches Some(s) ==> s < total,
        total == 0 ==> start is None,
        total > 0 && *take_val == TakeValue::PlusZero ==> start == Some(0u64),
        *take_val matches TakeValue::TakeNum(v) ==> {
            &&& (1 <= v <= total ==> start == Some((v - 1) as u64))
            &&& (v > total || v == 0 ==> start is None)
            &&& (v < 0 && magnitude(v) < total ==> start == Some((total - magnitude(v)) as u64))
            &&& (v < 0 && magnitude(v) >= total > 0 ==> start == Some(0u64))
        },
{
    if total == 0 {
        return None;
    }
    match take_val {
        TakeValue::PlusZero => Some(0),
        TakeValue::TakeNum(v) => {
            let v: i64 = *v;
            if v < 0 {
                let back: u64 = magnitude_of(v);
                if back < total {
                    Some(total - back)
                } else {
                    Some(0)
                }
            } else if v > 0 && magnitude_of(v) <= total {
                Some(magnitude_of(v) - 1)
            } else {
                None
            }
        },
    }
}

/// An empty resource yields no window, whatever the offset.
pub proof fn lemma_empty_resource_selects_nothing(offset: TakeValue)
    ensures
        resolve_window(offset, 0) is None,
{
}

/// `+0` selects a non-empty resource from its first unit, and nothing of an
/// empty one.
pub proof fn lemma_plus_zero_selects_everything(total: nat)
    ensures
        total > 0 ==> resolve_window(TakeValue::PlusZero, total) == Some(0nat),
        total == 0 ==> resolve_window(TakeValue::PlusZero, total) is None,
{
}

/// A positive count within the resource starts at the index one below it.
pub proof fn lemma_from_start_within(v: i64, total: nat)
    requires
        total > 0,
        1 <= v <= total,
    ensures
        resolve_window(TakeValue::TakeNum(v), total) == Some((v - 1) as nat),
{
}

/// A positive count past the end selects nothing, and so does the count zero.
pub proof fn lemma_from_start_beyond(v: i64, total: nat)
    requires
        v > total || v == 0,
    ensures
        resolve_window(TakeValue::TakeNum(v), total) is None,
{
}

/// A negative count of fewer units than the resource holds starts that many
/// units before the end.
pub proof fn lemma_from_end_within(v: i64, total: nat)
    requires
        v < 0,
        magnitude(v) < total,
    ensures
        resolve_window(TakeValue::TakeNum(v), total) == Some((total - magnitude(v)) as nat),
{
}

/// A negative count of at least as many units as a non-empty resource holds
/// selects the whole resource.
pub proof fn lemma_from_end_beyond(v: i64, total: nat)
    requires
        v < 0,
        magnitude(v) >= total > 0,
    ensures
        resolve_window(TakeValue::TakeNum(v), total) == Some(0nat),
{
}

/// Resolution never points past the last unit.
pub proof fn lemma_window_starts_inside(offset: TakeValue, total: nat)
    ensures
        resolve_window(offset, total) matches Some(start) ==> start < total,
{
}

/// The unit in which a resource is measured and a window is cut.
#[derive(Debug, Clone, Copy, PartialEq, Eq, Structural)]
pub enum Unit {
    /// Lines: found by scanning forward for line feeds.
    Line,
    /// Bytes: addressed directly.
    Byte,
}

/// Why a window could not be taken out of a resource.
#[derive(Debug, Clone, Copy, PartialEq, Eq, Structural)]
pub enum ExtractionError {
    /// The content is not valid UTF-8, so it cannot be read line by line.
    DecodingError,
}

/// What is left of `s` from byte `n` on. Nothing is left where `n` lies past
/// the end.
pub open spec fn skip_bytes(s: Seq<u8>, n: nat) -> Seq<u8> {
    if n <= s.len() {
        s.skip(n as int)
    } else {
        Seq::empty()
    }
}

/// Counts the lines and the bytes of a resource, in that order.
pub fn count_lines_bytes(content: &[u8]) -> (totals: (u64, u64))
    ensures
        totals.0 == line_count(content@),
        totals.1 == content@.len(),
{
    (count_lines(content), content.len() as u64)
}

/// The line strategy: scans forward over `start_index` whole lines and hands
/// out everything after them, byte for byte.
///
/// Lines can only be told apart in valid UTF-8: any other content is refused.
pub fn line_window<'a>(content: &'a [u8], start_index: u64) -> (result: Result<
    &'a [u8],
    ExtractionError,
>)
    ensures
        valid_utf8(content@) ==> (result matches Ok(window) && window@ == skip_lines(
            content@,
            start_index as nat,
        )),
        !valid_utf8(content@) ==> result == Err::<&[u8], ExtractionError>(
            ExtractionError::DecodingError,
        ),
{
    if !is_utf8(content) {
        return Err(ExtractionError::DecodingError);
    }
    let from: usize = find_line_start(content, start_index);
    Ok(slice_subrange(content, from, content.len()))
}

/// The byte strategy: goes straight to byte `start_index` and hands out
/// everything from there on, byte for byte, valid text or not.
pub fn byte_window<'a>(content: &'a [u8], start_index: u64) -> (window: &'a [u8])
    ensures
        window@ == skip_bytes(content@, start_index as nat),
{
    let n: usize = content.len();
    if start_index <= n as u64 {
        slice_subrange(content, start_index as usize, n)
    } else {
        slice_subrange(content, n, n)
    }
}

/// The window of `content` that begins at `start_index`, counted in `unit`.
pub open spec fn window_from(content: Seq<u8>, start_index: nat, unit: Unit) -> Result<
    Seq<u8>,
    ExtractionError,
> {
    match unit {
        Unit::Byte => Ok(skip_bytes(content, start_index)),
        Unit::Line => if valid_utf8(content) {
            Ok(skip_lines(content, start_index))
        } else {
            Err(ExtractionError::DecodingError)
        },
    }
}

/// Takes the trailing window that begins at `start_index` out of `content`,
/// with the strategy that belongs to `unit`.
pub fn extract_from<'a>(content: &'a [u8], start_index: u64, unit: Unit) -> (result: Result<
    &'a [u8],
    ExtractionError,
>)
    ensures
        match window_from(content@, start_index as nat, unit) {
            Ok(window) => result matches Ok(w) && w@ == window,
            Err(e) => result == Err::<&[u8], ExtractionError>(e),
        },
{
    match unit {
        Unit::Line => line_window(content, start_index),
        Unit::Byte => Ok(byte_window(content, start_index)),
    }
}

/// What a `tail` of `content` emits: the window that `bytes` selects among
/// the bytes where it is given, else the window that `lines` selects among
/// the lines. Where the offset selects nothing, nothing is emitted and the
/// content is not looked at.
pub open spec fn tail_of(content: Seq<u8>, lines: TakeValue, bytes: Option<TakeValue>) -> Result<
    Seq<u8>,
    ExtractionError,
> {
    match bytes {
        Some(count) => match resolve_window(count, content.len()) {
            Some(start) => window_from(content, start, Unit::Byte),
            None => Ok(Seq::empty()),
        },
        None => match resolve_window(lines, line_count(content)) {
            Some(start) => window_from(content, start, Unit::Line),
            None => Ok(Seq::empty()),
        },
    }
}

/// A negative count of lines, where the resource has that many, selects
/// exactly that many lines: the last ones.
pub proof fn lemma_tail_emits_last_lines(content: Seq<u8>, v: i64)
    requires
        v < 0,
        magnitude(v) <= line_count(content),
        valid_utf8(content),
    ensures
        tail_of(content, TakeValue::TakeNum(v), None) matches Ok(window) && line_count(window)
            == magnitude(v) && window == content.skip(content.len() - window.len()),
{
    let start = (line_count(content) - magnitude(v)) as nat;
    lemma_line_start_bound(content, start);
    lemma_skip_lines_leaves_the_rest(content, start);
}

/// A negative count of bytes, where the resource has that many, selects
/// exactly that many bytes: the last ones.
pub proof fn lemma_tail_emits_last_bytes(content: Seq<u8>, lines: TakeValue, v: i64)
    requires
        v < 0,
        magnitude(v) <= content.len(),
    ensures
        tail_of(content, lines, Some(TakeValue::TakeNum(v))) == Ok::<Seq<u8>, ExtractionError>(
            content.skip(content.len() - magnitude(v)),
        ),
{
}

/// A positive count within the resource selects everything from the line of
/// that number on: all but the lines before it.
pub proof fn lemma_tail_emits_from_line(content: Seq<u8>, v: i64)
    requires
        0 < v <= line_count(content),
        valid_utf8(content),
    ensures
        tail_of(content, TakeValue::TakeNum(v), None) matches Ok(window) && window == skip_lines(
            content,
            (v - 1) as nat,
        ) && line_count(window) == line_count(content) - (v - 1),
{
    lemma_skip_lines_leaves_the_rest(content, (v - 1) as nat);
}

/// Settings of one run.
#[derive(Debug)]
pub struct Config {
    /// The resources to read, in the order given.
    pub files: Vec<String>,
    /// The offset in lines; used where `bytes` is absent.
    pub lines: TakeValue,
    /// The offset in bytes, where one was asked for.
    pub bytes: Option<TakeValue>,
    /// Whether the banners between resources are left out.
    pub quiet: bool,
}

/// Which of the two offsets was refused, and its text.
#[derive(Debug)]
pub enum ConfigError {
    /// The line offset is not a valid offset.
    IllegalLineCount(InvalidOffset),
    /// The byte offset is not a valid offset.
    IllegalByteCount(InvalidOffset),
}

impl Config {
    /// The line offset that applies where none is given: the last ten lines.
    pub open spec fn default_lines() -> TakeValue {
        TakeValue::TakeNum((-10) as i64)
    }

    /// Builds the settings from the raw option values.
    ///
    /// The line offset is looked at first, so where both are invalid the
    /// line offset is the one reported.
    pub fn from_args(
        files: Vec<String>,
        lines: Option<&str>,
        bytes: Option<&str>,
        quiet: bool,
    ) -> (result: Result<Config, ConfigError>)
        ensures
            match result {
                Ok(config) => {
                    &&& config.files == files
                    &&& config.quiet == quiet
                    &&& match lines {
                        Some(text) => parse_offset(text@) == Some(config.lines),
                        None => config.lines == Config::default_lines(),
                    }
                    &&& match bytes {
                        Some(text) => config.bytes is Some && parse_offset(text@) == config.bytes,
                        None => config.bytes is None,
                    }
                },
                Err(ConfigError::IllegalLineCount(e)) => {
                    &&& lines matches Some(text)
                    &&& parse_offset(text@) is None
                    &&& e.text@ == text@
                },
                Err(ConfigError::IllegalByteCount(e)) => {
                    &&& lines matches Some(text) ==> parse_offset(text@) is Some
                    &&& bytes matches Some(text)
                    &&& parse_offset(text@) is None
                    &&& e.text@ == text@
                },
            },
    {
        let lines_value = match lines {
            Some(text) => match parse_count(text) {
                Ok(value) => value,
                Err(e) => {
                    return Err(ConfigError::IllegalLineCount(e));
                },
            },
            None => TakeValue::TakeNum(-10),
        };
        let bytes_value = match bytes {
            Some(text) => match parse_count(text) {
                Ok(value) => Some(value),
                Err(e) => {
                    return Err(ConfigError::IllegalByteCount(e));
                },
            },
            None => None,
        };
        Ok(Config { files, lines: lines_value, bytes: bytes_value, quiet })
    }

    /// Takes the window that these settings select out of one resource.
    pub fn tail<'a>(&self, content: &'a [u8]) -> (result: Result<&'a [u8], ExtractionError>)
        ensures
            match tail_of(content@, self.lines, self.bytes) {
                Ok(window) => result matches Ok(w) && w@ == window,
                Err(e) => result == Err::<&[u8], ExtractionError>(e),
            },
    {
        let (total_lines, total_bytes) = count_lines_bytes(content);
        let (start, unit) = match &self.bytes {
            Some(count) => (get_start_index(count, total_bytes), Unit::Byte),
            None => (get_start_index(&self.lines, total_lines), Unit::Line),
        };
        match start {
            Some(index) => extract_from(content, index, unit),
            None => Ok(slice_subrange(content, 0, 0)),
        }
    }

    /// The banner that precedes resource number `index` (from zero), or
    /// `None` where no banner is due: with a single resource, when quiet, or
    /// where there is no such resource.
    pub fn header(&self, index: usize) -> (banner: Option<String>)
        ensures
            banner is Some <==> !self.quiet && self.files@.len() > 1 && index < self.files@.len(),
            banner matches Some(text) ==> text@ == banner_text(self.files@[index as int]@, index == 0),
    {
        if self.quiet || self.files.len() <= 1 || index >= self.files.len() {
            return None;
        }
        let mut text = if index > 0 {
            String::from_str("\n")
        } else {
            String::new()
        };
        text.append("==> ");
        text.append(self.files[index].as_str());
        text.append(" <==");
        Some(text)
    }
}

/// The banner line for a resource: its name between arrows, after an empty
/// line unless it is the first.
pub open spec fn banner_text(name: Seq<char>, first: bool) -> Seq<char> {
    (if first {
        Seq::<char>::empty()
    } else {
        "\n"@
    }) + "==> "@ + name + " <=="@
}

} // verus!
