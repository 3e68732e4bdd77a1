//! Selecting bytes, characters or fields of each line by position.

use std::ops::Range;
use vstd::prelude::*;
use vstd::slice::slice_subrange;
use vstd::string::{StringExecFns, StringSliceAdditionalSpecFns};
use vstd::utf8::{decode_utf8, valid_utf8};
use crate::text::{
    decimal_value, decode_lossy, from_chars, is_numeral, parse_numeral, texts, to_chars,
    utf8_lossy,
};

verus! {

/// What is cut out of each line, with the positions to keep.
#[derive(Debug)]
pub enum Extract {
    /// Delimited fields.
    Fields(Vec<Range<usize>>),
    /// Bytes.
    Bytes(Vec<Range<usize>>),
    /// Characters.
    Chars(Vec<Range<usize>>),
}

/// The positive number that `s` denotes: `s` must be a numeral, with no sign,
/// whose value is neither zero nor too large for `usize`.
pub open spec fn positive_int(s: Seq<char>) -> Option<usize> {
    if is_numeral(s) && 0 < decimal_value(s) <= usize::MAX {
        Some(decimal_value(s) as usize)
    } else {
        None
    }
}

/// Reads a slice of characters as a positive number.
pub fn positive_of(chars: &[char]) -> (value: Option<usize>)
    ensures
        value == positive_int(chars@),
{
    match parse_numeral(chars, usize::MAX as u64) {
        Some(n) => if n > 0 {
            Some(n as usize)
        } else {
            None
        },
        None => None,
    }
}

/// Parses a position: a positive decimal number without a sign. The text
/// comes back as the error where it is anything else.
pub fn parse_positive_int(val: &str) -> (result: Result<usize, String>)
    ensures
        positive_int(val@) matches Some(n) ==> result == Ok::<usize, String>(n),
        positive_int(val@) is None ==> (result matches Err(text) && text@ == val@),
{
    let chars = to_chars(val);
    match positive_of(chars.as_slice()) {
        Some(n) => Ok(n),
        None => Err(val.to_owned()),
    }
}

/// The items of `s` that one range selects: those at the indices of the
/// range that exist, in order.
pub open spec fn pick<T>(s: Seq<T>, range: Range<usize>) -> Seq<T> {
    let end = if range.end <= s.len() {
        range.end as int
    } else {
        s.len() as int
    };
    if range.start < end {
        s.subrange(range.start as int, end)
    } else {
        Seq::empty()
    }
}

/// The items of `s` that a list of ranges selects: what each range selects,
/// in the order of the list. Ranges may overlap and need not ascend.
pub open spec fn pick_all<T>(s: Seq<T>, ranges: Seq<Range<usize>>) -> Seq<T>
    decreases ranges.len(),
{
    if ranges.len() == 0 {
        Seq::empty()
    } else {
        pick_all(s, ranges.drop_last()) + pick(s, ranges.last())
    }
}

/// Copies out of `items` what `positions` selects.
pub fn select<T: Copy>(items: &[T], positions: &[Range<usize>]) -> (picked: Vec<T>)
    ensures
        picked@ == pick_all(items@, positions@),
{
    let mut picked: Vec<T> = Vec::new();
    let n: usize = items.len();
    let mut k: usize = 0;
    while k < positions.len()
        invariant
            n == items@.len(),
            0 <= k <= positions@.len(),
            picked@ == pick_all(items@, positions@.take(k as int)),
        decreases positions@.len() - k,
    {
        let start: usize = positions[k].start;
        let end: usize = if positions[k].end <= n {
            positions[k].end
        } else {
            n
        };
        let ghost before = picked@;
        let mut i: usize = start;
        while i < end
            invariant
                n == items@.len(),
                end <= n,
                start <= i,
                start < end ==> i <= end,
                picked@ == before + (if start < end {
                    items@.subrange(start as int, i as int)
                } else {
                    Seq::empty()
                }),
            decreases end - i,
        {
            picked.push(items[i]);
            i = i + 1;
        }
        proof {
            assert(positions@.take(k + 1).drop_last() == positions@.take(k as int));
        }
        k = k + 1;
    }
    assert(positions@.take(positions@.len() as int) == positions@);
    picked
}

/// The characters of `line` at the positions in `char_pos`.
pub fn extract_chars(line: &str, char_pos: &[Range<usize>]) -> (text: String)
    ensures
        text@ == pick_all(line@, char_pos@),
{
    let chars = to_chars(line);
    let picked = select(chars.as_slice(), char_pos);
    from_chars(picked.as_slice())
}

/// The bytes of `line` at the positions in `byte_pos`, decoded leniently:
/// where the selection cuts a character apart, U+FFFD stands for the pieces.
pub fn extract_bytes(line: &str, byte_pos: &[Range<usize>]) -> (text: String)
    ensures
        text@ == utf8_lossy(pick_all(line.spec_bytes(), byte_pos@)),
        valid_utf8(pick_all(line.spec_bytes(), byte_pos@)) ==> text@ == decode_utf8(
            pick_all(line.spec_bytes(), byte_pos@),
        ),
{
    let picked = select(line.as_bytes(), byte_pos);
    decode_lossy(picked.as_slice())
}

/// Declares `csv::StringRecord` as an opaque type: nothing is known of a
/// record but what the functions below say.
#[verifier::external_type_specification]
#[verifier::external_body]
pub struct ExStringRecord(csv::StringRecord);

/// The fields that a record holds, in order.
pub uninterp spec fn record_fields(record: csv::StringRecord) -> Seq<Seq<char>>;

/// The number of fields in `record`.
///
/// Trusted: calls `csv::StringRecord::len`, which counts the fields.
#[verifier::external_body]
fn record_len(record: &csv::StringRecord) -> (n: usize)
    ensures
        n == record_fields(*record).len(),
{
    record.len()
}

/// Field `i` of `record`, where it has one.
///
/// Trusted: calls `csv::StringRecord::get`, which hands out the field at an
/// index below the number of fields and `None` at any other.
#[verifier::external_body]
fn record_get(record: &csv::StringRecord, i: usize) -> (field: Option<&str>)
    ensures
        match field {
            Some(text) => i < record_fields(*record).len() && text@ == record_fields(*record)[i as int],
            None => i >= record_fields(*record).len(),
        },
{
    record.get(i)
}

/// The fields of `record` at the positions in `field_pos`.
pub fn extract_fields(record: &csv::StringRecord, field_pos: &[Range<usize>]) -> (fields: Vec<
    String,
>)
    ensures
        fields.deep_view() == pick_all(record_fields(*record), field_pos@),
{
    let mut fields: Vec<String> = Vec::new();
    let ghost all = record_fields(*record);
    let ghost mut model: Seq<Seq<char>> = Seq::empty();
    let n: usize = record_len(record);
    let mut k: usize = 0;
    while k < field_pos.len()
        invariant
            all == record_fields(*record),
            n == all.len(),
            0 <= k <= field_pos@.len(),
            model == pick_all(all, field_pos@.take(k as int)),
            fields@.len() == model.len(),
            forall|j: int| 0 <= j < model.len() ==> (#[trigger] fields@[j])@ == model[j],
        decreases field_pos@.len() - k,
    {
        let start: usize = field_pos[k].start;
        let end: usize = if field_pos[k].end <= n {
            field_pos[k].end
        } else {
            n
        };
        let ghost before = model;
        let mut i: usize = start;
        while i < end
            invariant
                all == record_fields(*record),
                n == all.len(),
                end <= n,
                start <= i,
                start < end ==> i <= end,
                model == before + (if start < end {
                    all.subrange(start as int, i as int)
                } else {
                    Seq::empty()
                }),
                fields@.len() == model.len(),
                forall|j: int| 0 <= j < model.len() ==> (#[trigger] fields@[j])@ == model[j],
            decreases end - i,
        {
            match record_get(record, i) {
                Some(text) => {
                    fields.push(text.to_owned());
                    proof {
                        model = model.push(all[i as int]);
                    }
                },
                None => {},
            }
            i = i + 1;
        }
        proof {
            assert(field_pos@.take(k + 1).drop_last() == field_pos@.take(k as int));
        }
        k = k + 1;
    }
    assert(field_pos@.take(field_pos@.len() as int) == field_pos@);
    fields
}

/// Declares `csv::Error` as an opaque type. An error of this type is only
/// ever handed on.
#[verifier::external_type_specification]
#[verifier::external_body]
pub struct ExCsvError(csv::Error);

/// The fields of each record of a sequence.
pub open spec fn records_fields(records: Seq<csv::StringRecord>) -> Seq<Seq<Seq<char>>> {
    Seq::new(records.len(), |i: int| record_fields(records[i]))
}

/// The text of each field of each row of a sequence.
pub open spec fn rows_texts(rows: Seq<Vec<String>>) -> Seq<Seq<Seq<char>>> {
    Seq::new(rows.len(), |i: int| texts(rows[i]@))
}

/// What reading delimited text without a header row gives: the fields of
/// each record read before the text ends or a record cannot be read, and
/// whether a record could not be read.
pub uninterp spec fn csv_read(content: Seq<u8>, delimiter: u8) -> (Seq<Seq<Seq<char>>>, bool);

/// Reads delimited text, record by record, up to its end or to the first
/// record that cannot be read.
///
/// Trusted: builds a `csv::Reader` over the bytes, with the delimiter given
/// and no header row, and takes records from `csv::Reader::records` until it
/// ends or fails. What comes out depends on the bytes and the delimiter
/// alone.
#[verifier::external_body]
fn read_records(content: &[u8], delimiter: u8) -> (outcome: (
    Vec<csv::StringRecord>,
    Option<csv::Error>,
))
    ensures
        records_fields(outcome.0@) == csv_read(content@, delimiter).0,
        outcome.1 is Some == csv_read(content@, delimiter).1,
{
    let mut reader =
        csv::ReaderBuilder::new().delimiter(delimiter).has_headers(false).from_reader(content);
    let mut records = Vec::new();
    for record in reader.records() {
        match record {
            Ok(record) => records.push(record),
            Err(e) => return (records, Some(e)),
        }
    }
    (records, None)
}

/// What writing rows as delimited text gives: the bytes written before the
/// rows end or a row cannot be written, and whether a row could not be
/// written.
pub uninterp spec fn csv_write(rows: Seq<Seq<Seq<char>>>, delimiter: u8) -> (Seq<u8>, bool);

/// Writes rows as delimited text, row by row, up to the last or to the first
/// row that cannot be written.
///
/// Trusted: builds a `csv::Writer` over a byte vector, with the delimiter
/// given, hands the rows to `csv::Writer::write_record` until they end or one
/// fails, and takes the bytes back. What comes out depends on the rows and
/// the delimiter alone.
#[verifier::external_body]
fn write_rows(rows: &Vec<Vec<String>>, delimiter: u8) -> (outcome: (Vec<u8>, Option<csv::Error>))
    ensures
        outcome.0@ == csv_write(rows_texts(rows@), delimiter).0,
        outcome.1 is Some == csv_write(rows_texts(rows@), delimiter).1,
{
    let mut writer = csv::WriterBuilder::new().delimiter(delimiter).from_writer(Vec::new());
    let mut failure = None;
    for row in rows {
        if let Err(e) = writer.write_record(row) {
            failure = Some(e);
            break;
        }
    }
    (writer.into_inner().unwrap_or_default(), failure)
}

/// Why the fields of an input could not all be cut.
#[derive(Debug)]
pub enum FieldsError {
    /// A record could not be read.
    Read(csv::Error),
    /// A row could not be written.
    Write(csv::Error),
}

/// Which step failed, if any.
#[derive(Debug, Clone, Copy, PartialEq, Eq, Structural)]
pub enum Failure {
    /// A record could not be read.
    Read,
    /// A row could not be written.
    Write,
}

/// What each of a sequence of records keeps of its fields.
pub open spec fn cut_rows(rows: Seq<Seq<Seq<char>>>, positions: Seq<Range<usize>>) -> Seq<
    Seq<Seq<char>>,
> {
    Seq::new(rows.len(), |i: int| pick_all(rows[i], positions))
}

/// What cutting the fields of delimited text gives: the records that can be
/// read, cut and written out again, and the step that failed where one did.
/// A row that cannot be written ends the output; it comes before any record
/// that cannot be read.
pub open spec fn fields_output(content: Seq<u8>, delimiter: u8, positions: Seq<Range<usize>>) -> (
    Seq<u8>,
    Option<Failure>,
) {
    let read = csv_read(content, delimiter);
    let written = csv_write(cut_rows(read.0, positions), delimiter);
    (
        written.0,
        if written.1 {
            Some(Failure::Write)
        } else if read.1 {
            Some(Failure::Read)
        } else {
            None
        },
    )
}

/// Cuts the fields at `positions` out of every record.
pub fn extract_rows(records: &[csv::StringRecord], positions: &[Range<usize>]) -> (rows: Vec<
    Vec<String>,
>)
    ensures
        rows_texts(rows@) == cut_rows(records_fields(records@), positions@),
{
    let mut rows: Vec<Vec<String>> = Vec::new();
    let mut k: usize = 0;
    while k < records.len()
        invariant
            0 <= k <= records@.len(),
            rows@.len() == k,
            forall|i: int|
                0 <= i < k ==> texts((#[trigger] rows@[i])@) == pick_all(
                    record_fields(records@[i]),
                    positions@,
                ),
        decreases records@.len() - k,
    {
        let row = extract_fields(&records[k], positions);
        rows.push(row);
        k = k + 1;
    }
    rows
}

/// Pairs what was written with the failure that ended it, if any: a row
/// that could not be written, else a record that could not be read.
pub fn fields_outcome(
    written: (Vec<u8>, Option<csv::Error>),
    read_failure: Option<csv::Error>,
) -> (outcome: (Vec<u8>, Option<FieldsError>))
    ensures
        outcome.0 == written.0,
        match outcome.1 {
            Some(FieldsError::Write(e)) => written.1 == Some(e),
            Some(FieldsError::Read(e)) => written.1 is None && read_failure == Some(e),
            None => written.1 is None && read_failure is None,
        },
{
    let (bytes, write_failure) = written;
    let failure = match write_failure {
        Some(e) => Some(FieldsError::Write(e)),
        None => match read_failure {
            Some(e) => Some(FieldsError::Read(e)),
            None => None,
        },
    };
    (bytes, failure)
}

/// The step at which a cut of fields failed.
pub open spec fn failure_of(error: Option<FieldsError>) -> Option<Failure> {
    match error {
        Some(FieldsError::Read(_)) => Some(Failure::Read),
        Some(FieldsError::Write(_)) => Some(Failure::Write),
        None => None,
    }
}

/// Cuts the fields at `positions` out of delimited text: reads the records,
/// keeps of each the fields asked for, and writes the rows out again.
/// Hands out what could be written, and the failure that ended it, if any.
pub fn cut_fields(content: &[u8], delimiter: u8, positions: &[Range<usize>]) -> (outcome: (
    Vec<u8>,
    Option<FieldsError>,
))
    ensures
        outcome.0@ == fields_output(content@, delimiter, positions@).0,
        failure_of(outcome.1) == fields_output(content@, delimiter, positions@).1,
{
    let (records, read_failure) = read_records(content, delimiter);
    let rows = extract_rows(records.as_slice(), positions);
    fields_outcome(write_rows(&rows, delimiter), read_failure)
}

/// The index of the first `c` in `s`, or the length of `s` where there is
/// none.
pub open spec fn find(s: Seq<char>, c: char) -> int
    decreases s.len(),
{
    if s.len() == 0 || s[0] == c {
        0
    } else {
        1 + find(s.drop_first(), c)
    }
}

/// `find` stays within the sequence, stops at a `c`, and passes none.
pub proof fn lemma_find(s: Seq<char>, c: char)
    ensures
        0 <= find(s, c) <= s.len(),
        find(s, c) < s.len() ==> s[find(s, c)] == c,
        forall|i: int| 0 <= i < find(s, c) ==> s[i] != c,
    decreases s.len(),
{
    if s.len() == 0 || s[0] == c {
    } else {
        lemma_find(s.drop_first(), c);
        assert forall|i: int| 0 <= i < find(s, c) implies s[i] != c by {
            if i > 0 {
                assert(s.drop_first()[i - 1] == s[i]);
            }
        }
    }
}

/// The pieces of `s` between occurrences of `sep`, in order. There is always
/// at least one piece, and a piece may be empty.
pub open spec fn split(s: Seq<char>, sep: char) -> Seq<Seq<char>>
    decreases s.len(),
{
    let at = find(s, sep);
    if 0 <= at < s.len() {
        seq![s.take(at)] + split(s.skip(at + 1), sep)
    } else {
        seq![s]
    }
}

/// The subranges of `s` that `bounds` marks, in order.
pub open spec fn pieces(s: Seq<char>, bounds: Seq<(usize, usize)>) -> Seq<Seq<char>> {
    Seq::new(bounds.len(), |k: int| s.subrange(bounds[k].0 as int, bounds[k].1 as int))
}

/// Finds the first `c` at or after `from`.
fn find_from(chars: &[char], from: usize, c: char) -> (at: usize)
    requires
        from <= chars@.len(),
    ensures
        from <= at <= chars@.len(),
        at == from + find(chars@.skip(from as int), c),
{
    let n: usize = chars.len();
    let mut i: usize = from;
    while i < n && chars[i] != c
        invariant
            n == chars@.len(),
            from <= i <= n,
            find(chars@.skip(from as int), c) == (i - from) + find(chars@.skip(i as int), c),
        decreases n - i,
    {
        assert(chars@.skip(i as int).drop_first() == chars@.skip(i + 1));
        i = i + 1;
    }
    i
}

/// Splits `chars` at each `sep` and marks where each piece begins and ends.
pub fn split_bounds(chars: &[char], sep: char) -> (bounds: Vec<(usize, usize)>)
    ensures
        pieces(chars@, bounds@) == split(chars@, sep),
        bounds@.len() >= 1,
        forall|k: int|
            0 <= k < bounds@.len() ==> (#[trigger] bounds@[k]).0 <= bounds@[k].1 <= chars@.len(),
{
    let n: usize = chars.len();
    let mut bounds: Vec<(usize, usize)> = Vec::new();
    let mut start: usize = 0;
    assert(chars@.skip(0) == chars@);
    loop
        invariant_except_break
            split(chars@, sep) == pieces(chars@, bounds@) + split(chars@.skip(start as int), sep),
        invariant
            n == chars@.len(),
            0 <= start <= n,
            forall|k: int|
                0 <= k < bounds@.len() ==> (#[trigger] bounds@[k]).0 <= bounds@[k].1 <= chars@.len(),
        ensures
            pieces(chars@, bounds@) == split(chars@, sep),
            bounds@.len() >= 1,
            forall|k: int|
                0 <= k < bounds@.len() ==> (#[trigger] bounds@[k]).0 <= bounds@[k].1 <= chars@.len(),
        decreases n - start,
    {
        let at: usize = find_from(chars, start, sep);
        let ghost rest = chars@.skip(start as int);
        bounds.push((start, at));
        assert(rest.take(at - start) == chars@.subrange(start as int, at as int));
        if at >= n {
            break;
        }
        assert(rest.skip(at - start + 1) == chars@.skip(at + 1));
        start = at + 1;
    }
    bounds
}

/// Why a list of positions was refused, with the offending text.
pub enum PosError {
    /// An item is not a position or a span of two positions.
    IllegalValue(Seq<char>),
    /// A span whose second position is not greater than its first.
    NotAscending(Seq<char>, Seq<char>),
    /// An item with more than one hyphen.
    TooManyParts(Seq<char>),
}

/// Why a list of positions was refused, with the offending text.
#[derive(Debug)]
pub enum ParsePosError {
    /// An item is not a position or a span of two positions.
    IllegalValue(String),
    /// A span whose second position is not greater than its first.
    NotAscending(String, String),
    /// An item with more than one hyphen.
    TooManyParts(String),
}

impl View for ParsePosError {
    type V = PosError;

    open spec fn view(&self) -> PosError {
        match self {
            ParsePosError::IllegalValue(text) => PosError::IllegalValue(text@),
            ParsePosError::NotAscending(first, second) => PosError::NotAscending(first@, second@),
            ParsePosError::TooManyParts(text) => PosError::TooManyParts(text@),
        }
    }
}

/// How a list of strings prints in the pretty debug format.
pub uninterp spec fn debug_pretty(parts: Seq<Seq<char>>) -> Seq<char>;

/// Prints a list of strings in the pretty debug format.
///
/// Trusted: calls `format!` with `{:#?}` on a vector of strings, whose output
/// is a function of the strings alone.
#[verifier::external_body]
fn pretty_list(parts: &Vec<String>) -> (text: String)
    ensures
        text@ == debug_pretty(parts.deep_view()),
{
    format!("{:#?}", parts)
}

/// The message that goes with an error.
pub open spec fn message(e: PosError) -> Seq<char> {
    match e {
        PosError::IllegalValue(text) => "illegal list value: \""@ + text + "\""@,
        PosError::NotAscending(first, second) => "First number in range ("@ + first
            + ") must be lower than second number ("@ + second + ")"@,
        PosError::TooManyParts(text) => "illegal list value: \""@ + debug_pretty(
            split(text, '-'),
        ) + "\""@,
    }
}

/// The pieces of `text` between occurrences of `sep`, each as a string.
pub fn split_text(text: &str, sep: char) -> (parts: Vec<String>)
    ensures
        parts.deep_view() == split(text@, sep),
{
    let chars = to_chars(text);
    let bounds = split_bounds(chars.as_slice(), sep);
    let mut parts: Vec<String> = Vec::new();
    let mut k: usize = 0;
    while k < bounds.len()
        invariant
            chars@ == text@,
            0 <= k <= bounds@.len(),
            parts@.len() == k,
            forall|j: int|
                0 <= j < bounds@.len() ==> (#[trigger] bounds@[j]).0 <= bounds@[j].1
                    <= chars@.len(),
            forall|j: int| 0 <= j < k ==> (#[trigger] parts@[j])@ == pieces(chars@, bounds@)[j],
        decreases bounds@.len() - k,
    {
        let piece = slice_subrange(chars.as_slice(), bounds[k].0, bounds[k].1);
        parts.push(from_chars(piece));
        k = k + 1;
    }
    parts
}

impl ParsePosError {
    /// The message of this error.
    pub fn to_string(&self) -> (text: String)
        ensures
            text@ == message(self@),
    {
        match self {
            ParsePosError::IllegalValue(value) => {
                let mut text = String::from_str("illegal list value: \"");
                text.append(value.as_str());
                text.append("\"");
                text
            },
            ParsePosError::NotAscending(first, second) => {
                let mut text = String::from_str("First number in range (");
                text.append(first.as_str());
                text.append(") must be lower than second number (");
                text.append(second.as_str());
                text.append(")");
                text
            },
            ParsePosError::TooManyParts(value) => {
                let parts = split_text(value.as_str(), '-');
                let mut text = String::from_str("illegal list value: \"");
                text.append(pretty_list(&parts).as_str());
                text.append("\"");
                text
            },
        }
    }
}

/// The range that one item of a list denotes.
///
/// A single position `n` selects index `n - 1`. A span `a-b` with `a < b`
/// selects the indices from `a - 1` up to, not including, `b`.
pub open spec fn item_range(item: Seq<char>) -> Result<Range<usize>, PosError> {
    let parts = split(item, '-');
    if parts.len() == 1 {
        match positive_int(parts[0]) {
            Some(n) => Ok(Range { start: (n - 1) as usize, end: n }),
            None => Err(PosError::IllegalValue(parts[0])),
        }
    } else if parts.len() == 2 {
        match (positive_int(parts[0]), positive_int(parts[1])) {
            (Some(first), Some(second)) => if second > first {
                Ok(Range { start: (first - 1) as usize, end: second })
            } else {
                Err(PosError::NotAscending(parts[0], parts[1]))
            },
            _ => Err(PosError::IllegalValue(item)),
        }
    } else {
        Err(PosError::TooManyParts(item))
    }
}

/// The ranges that a sequence of items denotes, or the error of the first
/// item that has one.
pub open spec fn item_ranges(items: Seq<Seq<char>>) -> Result<Seq<Range<usize>>, PosError>
    decreases items.len(),
{
    if items.len() == 0 {
        Ok(Seq::empty())
    } else {
        match item_ranges(items.drop_last()) {
            Err(e) => Err(e),
            Ok(ranges) => match item_range(items.last()) {
                Err(e) => Err(e),
                Ok(range) => Ok(ranges.push(range)),
            },
        }
    }
}

/// What a list of positions means: its items are separated by commas.
pub open spec fn positions(list: Seq<char>) -> Result<Seq<Range<usize>>, PosError> {
    item_ranges(split(list, ','))
}

/// An error among the first `k` items is the error of the whole list.
pub proof fn lemma_first_error_wins(items: Seq<Seq<char>>, k: int)
    requires
        0 <= k <= items.len(),
        item_ranges(items.take(k)) is Err,
    ensures
        item_ranges(items) == item_ranges(items.take(k)),
    decreases items.len() - k,
{
    if k == items.len() {
        assert(items.take(k) == items);
    } else {
        assert(items.take(k + 1).drop_last() == items.take(k));
        lemma_first_error_wins(items, k + 1);
    }
}

/// Parses one item of a list of positions.
pub fn parse_item(item: &[char]) -> (result: Result<Range<usize>, ParsePosError>)
    ensures
        match item_range(item@) {
            Ok(range) => result matches Ok(r) && r == range,
            Err(e) => result matches Err(x) && x@ == e,
        },
{
    let parts = split_bounds(item, '-');
    if parts.len() == 1 {
        let only = slice_subrange(item, parts[0].0, parts[0].1);
        match positive_of(only) {
            Some(n) => Ok(Range { start: n - 1, end: n }),
            None => Err(ParsePosError::IllegalValue(from_chars(only))),
        }
    } else if parts.len() == 2 {
        let first = slice_subrange(item, parts[0].0, parts[0].1);
        let second = slice_subrange(item, parts[1].0, parts[1].1);
        match (positive_of(first), positive_of(second)) {
            (Some(a), Some(b)) => if b > a {
                Ok(Range { start: a - 1, end: b })
            } else {
                Err(ParsePosError::NotAscending(from_chars(first), from_chars(second)))
            },
            _ => Err(ParsePosError::IllegalValue(from_chars(item))),
        }
    } else {
        Err(ParsePosError::TooManyParts(from_chars(item)))
    }
}

/// Parses a comma-separated list of positions and spans into index ranges.
///
/// The ranges come in the order of the list. The first item that is not
/// valid decides the error.
pub fn parse_pos(ranges: &str) -> (result: Result<Vec<Range<usize>>, ParsePosError>)
    ensures
        match positions(ranges@) {
            Ok(list) => result matches Ok(v) && v@ == list,
            Err(e) => result matches Err(x) && x@ == e,
        },
{
    let chars = to_chars(ranges);
    let items = split_bounds(chars.as_slice(), ',');
    let ghost all = split(chars@, ',');
    let mut list: Vec<Range<usize>> = Vec::new();
    let mut k: usize = 0;
    while k < items.len()
        invariant
            chars@ == ranges@,
            all == split(chars@, ','),
            pieces(chars@, items@) == all,
            0 <= k <= items@.len(),
            forall|j: int|
                0 <= j < items@.len() ==> (#[trigger] items@[j]).0 <= items@[j].1 <= chars@.len(),
            item_ranges(all.take(k as int)) == Ok::<Seq<Range<usize>>, PosError>(list@),
        decreases items@.len() - k,
    {
        let item = slice_subrange(chars.as_slice(), items[k].0, items[k].1);
        proof {
            assert(all.take(k + 1).drop_last() == all.take(k as int));
        }
        match parse_item(item) {
            Ok(range) => {
                list.push(range);
            },
            Err(e) => {
                proof {
                    lemma_first_error_wins(all, k + 1);
                }
                return Err(e);
            },
        }
        k = k + 1;
    }
    assert(all.take(k as int) == all);
    Ok(list)
}

impl Extract {
    /// The positions to keep.
    pub open spec fn ranges(self) -> Seq<Range<usize>> {
        match self {
            Extract::Fields(list) => list@,
            Extract::Bytes(list) => list@,
            Extract::Chars(list) => list@,
        }
    }

    /// What remains of a line that is cut by bytes or by characters. A line
    /// that is to be cut by fields has to be read as a record first, so there
    /// is no answer for it here.
    pub fn cut_line(&self, line: &str) -> (text: Option<String>)
        ensures
            match self {
                Extract::Fields(_) => text is None,
                Extract::Bytes(list) => text matches Some(t) && t@ == utf8_lossy(
                    pick_all(line.spec_bytes(), list@),
                ),
                Extract::Chars(list) => text matches Some(t) && t@ == pick_all(line@, list@),
            },
    {
        match self {
            Extract::Fields(_) => None,
            Extract::Bytes(list) => Some(extract_bytes(line, list.as_slice())),
            Extract::Chars(list) => Some(extract_chars(line, list.as_slice())),
        }
    }
}

/// Settings of one run.
#[derive(Debug)]
pub struct Config {
    /// The inputs to read, in the order given.
    pub files: Vec<String>,
    /// The byte that separates fields.
    pub delimiter: u8,
    /// What to cut out, and where.
    pub extract: Extract,
}

/// Why the settings could not be built.
#[derive(Debug)]
pub enum ConfigError {
    /// None of the three lists of positions was given.
    MissingList,
    /// The list of positions was refused.
    Positions(ParsePosError),
    /// The delimiter is not exactly one byte long; holds the delimiter.
    Delimiter(String),
}

/// The list of positions that counts: the one for bytes before the one for
/// characters before the one for fields.
pub open spec fn chosen_list(
    bytes: Option<&str>,
    chars: Option<&str>,
    fields: Option<&str>,
) -> Option<Seq<char>> {
    match (bytes, chars, fields) {
        (Some(list), _, _) => Some(list@),
        (None, Some(list), _) => Some(list@),
        (None, None, Some(list)) => Some(list@),
        (None, None, None) => None,
    }
}

/// The message that goes with a refusal of the settings.
pub open spec fn config_message(e: ConfigError) -> Seq<char> {
    match e {
        ConfigError::MissingList => "Must have --fields, --bytes, or --chars"@,
        ConfigError::Positions(inner) => message(inner@),
        ConfigError::Delimiter(text) => "--delim \""@ + text@ + "\" must be a single byte"@,
    }
}

impl ConfigError {
    /// The message of this error.
    pub fn to_string(&self) -> (text: String)
        ensures
            text@ == config_message(*self),
    {
        match self {
            ConfigError::MissingList => String::from_str("Must have --fields, --bytes, or --chars"),
            ConfigError::Positions(inner) => inner.to_string(),
            ConfigError::Delimiter(delimiter) => {
                let mut text = String::from_str("--delim \"");
                text.append(delimiter.as_str());
                text.append("\" must be a single byte");
                text
            },
        }
    }
}

impl Config {
    /// Builds the settings from the raw option values.
    ///
    /// A missing list is reported before a list that is refused, and that
    /// before a delimiter of the wrong length.
    pub fn from_args(
        files: Vec<String>,
        delimiter: &str,
        bytes: Option<&str>,
        chars: Option<&str>,
        fields: Option<&str>,
    ) -> (result: Result<Config, ConfigError>)
        ensures
            match result {
                Ok(config) => {
                    &&& config.files == files
                    &&& delimiter.spec_bytes().len() == 1
                    &&& config.delimiter == delimiter.spec_bytes()[0]
                    &&& chosen_list(bytes, chars, fields) matches Some(list)
                    &&& positions(list) == Ok::<Seq<Range<usize>>, PosError>(config.extract.ranges())
                    &&& config.extract is Bytes <==> bytes is Some
                    &&& config.extract is Chars <==> bytes is None && chars is Some
                    &&& config.extract is Fields <==> bytes is None && chars is None
                },
                Err(ConfigError::MissingList) => chosen_list(bytes, chars, fields) is None,
                Err(ConfigError::Positions(e)) => {
                    &&& chosen_list(bytes, chars, fields) matches Some(list)
                    &&& positions(list) == Err::<Seq<Range<usize>>, PosError>(e@)
                },
                Err(ConfigError::Delimiter(text)) => {
                    &&& chosen_list(bytes, chars, fields) matches Some(list)
                    &&& positions(list) is Ok
                    &&& delimiter.spec_bytes().len() != 1
                    &&& text@ == delimiter@
                },
            },
    {
        let list: &str = match (bytes, chars, fields) {
            (Some(list), _, _) => list,
            (None, Some(list), _) => list,
            (None, None, Some(list)) => list,
            (None, None, None) => {
                return Err(ConfigError::MissingList);
            },
        };
        let ranges = match parse_pos(list) {
            Ok(ranges) => ranges,
            Err(e) => {
                return Err(ConfigError::Positions(e));
            },
        };
        let extract = if bytes.is_some() {
            Extract::Bytes(ranges)
        } else if chars.is_some() {
            Extract::Chars(ranges)
        } else {
            Extract::Fields(ranges)
        };
        let raw = delimiter.as_bytes();
        if raw.len() != 1 {
            return Err(ConfigError::Delimiter(delimiter.to_owned()));
        }
        Ok(Config { files, delimiter: raw[0], extract })
    }
}

} // verus!
