//! Collapsing runs of equal lines, with an optional count in front.

use vstd::prelude::*;
use vstd::string::StringExecFns;
use crate::text::{decimal, pad_left, push_char, push_padded_decimal, texts};

verus! {

/// `s` without the white space at its two ends.
pub uninterp spec fn trimmed(s: Seq<char>) -> Seq<char>;

/// Strips the white space from both ends of `s`.
///
/// Trusted: calls `str::trim`, whose result is a function of the text alone.
#[verifier::external_body]
fn trim(s: &str) -> (inner: &str)
    ensures
        inner@ == trimmed(s@),
{
    s.trim()
}

/// The count that goes before a line: the number in decimal, right-aligned
/// in four columns, and one space; or nothing where counts are not shown.
pub open spec fn count_field(value: nat, is_present: bool) -> Seq<char> {
    if is_present {
        pad_left(decimal(value), 4).push(' ')
    } else {
        Seq::empty()
    }
}

/// Formats the count that goes before a line.
pub fn format_field(value: usize, is_present: bool) -> (field: String)
    ensures
        field@ == count_field(value as nat, is_present),
{
    let mut field = String::new();
    if is_present {
        push_padded_decimal(&mut field, value as u64, 4);
        push_char(&mut field, ' ');
    }
    field
}

/// A run of lines that are equal once trimmed.
#[derive(Debug, Clone, Copy, PartialEq, Eq, Structural)]
pub struct Run {
    /// How many lines the run holds.
    pub count: usize,
    /// The index of its first line.
    pub first: usize,
}

/// The runs among lines with the given keys, in order. A line belongs to the
/// run before it where its key equals the key of the first line of that run;
/// otherwise it begins a run of its own.
pub open spec fn runs(keys: Seq<Seq<char>>) -> Seq<Run>
    decreases keys.len(),
{
    if keys.len() == 0 {
        Seq::empty()
    } else {
        let before = runs(keys.drop_last());
        let index = keys.len() - 1;
        if before.len() > 0 && keys[before.last().first as int] == keys[index] {
            before.drop_last().push(
                Run { count: (before.last().count + 1) as usize, first: before.last().first },
            )
        } else {
            before.push(Run { count: 1, first: index as usize })
        }
    }
}

/// What is written for a sequence of runs: for each run its count field and
/// its first line, as that line was read.
pub open spec fn rendered(lines: Seq<Seq<char>>, found: Seq<Run>, show_count: bool) -> Seq<char>
    decreases found.len(),
{
    if found.len() == 0 {
        Seq::empty()
    } else {
        rendered(lines, found.drop_last(), show_count) + count_field(
            found.last().count as nat,
            show_count,
        ) + lines[found.last().first as int]
    }
}

/// Every run starts at a line that exists and holds no more lines than
/// there are.
pub proof fn lemma_runs_within(keys: Seq<Seq<char>>)
    requires
        keys.len() <= usize::MAX,
    ensures
        forall|i: int|
            0 <= i < runs(keys).len() ==> (#[trigger] runs(keys)[i]).first < keys.len() && 1
                <= runs(keys)[i].count <= keys.len(),
        keys.len() > 0 ==> runs(keys).len() > 0 && runs(keys).last().first + runs(
            keys,
        ).last().count == keys.len(),
    decreases keys.len(),
{
    if keys.len() > 0 {
        lemma_runs_within(keys.drop_last());
        let before = runs(keys.drop_last());
        assert forall|i: int| 0 <= i < runs(keys).len() implies (#[trigger] runs(keys)[i]).first
            < keys.len() && 1 <= runs(keys)[i].count <= keys.len() by {
            if i < runs(keys).len() - 1 {
                assert(runs(keys)[i] == before[i]);
            }
        }
    }
}

/// Finds the runs among lines with the given keys.
pub fn find_runs(keys: &[String]) -> (found: Vec<Run>)
    ensures
        found@ == runs(texts(keys@)),
{
    let ghost all = texts(keys@);
    let mut found: Vec<Run> = Vec::new();
    let mut k: usize = 0;
    while k < keys.len()
        invariant
            all == texts(keys@),
            0 <= k <= keys@.len(),
            found@ == runs(all.take(k as int)),
        decreases keys@.len() - k,
    {
        proof {
            lemma_runs_within(all.take(k as int));
            assert(all.take(k + 1).drop_last() == all.take(k as int));
        }
        let n: usize = found.len();
        if n > 0 && keys[found[n - 1].first] == keys[k] {
            let last = found[n - 1];
            found.pop();
            found.push(Run { count: last.count + 1, first: last.first });
        } else {
            found.push(Run { count: 1, first: k });
        }
        k = k + 1;
    }
    assert(all.take(k as int) == all);
    found
}

/// Writes out a sequence of runs of `lines`.
fn render(lines: &[String], found: &[Run], show_count: bool) -> (out: String)
    requires
        forall|i: int| 0 <= i < found@.len() ==> (#[trigger] found@[i]).first < lines@.len(),
    ensures
        out@ == rendered(texts(lines@), found@, show_count),
{
    let mut out = String::new();
    let mut k: usize = 0;
    while k < found.len()
        invariant
            0 <= k <= found@.len(),
            forall|i: int| 0 <= i < found@.len() ==> (#[trigger] found@[i]).first < lines@.len(),
            out@ == rendered(texts(lines@), found@.take(k as int), show_count),
        decreases found@.len() - k,
    {
        assert(found@.take(k + 1).drop_last() == found@.take(k as int));
        let run = found[k];
        let field = format_field(run.count, show_count);
        out.append(field.as_str());
        out.append(lines[run.first].as_str());
        k = k + 1;
    }
    assert(found@.take(k as int) == found@);
    out
}

/// The key by which each line is compared: the line without the white space
/// at its ends.
pub fn line_keys(lines: &[String]) -> (keys: Vec<String>)
    ensures
        texts(keys@) == texts(lines@).map_values(|line: Seq<char>| trimmed(line)),
{
    let mut keys: Vec<String> = Vec::new();
    let mut k: usize = 0;
    while k < lines.len()
        invariant
            0 <= k <= lines@.len(),
            keys@.len() == k,
            forall|i: int| 0 <= i < k ==> (#[trigger] keys@[i])@ == trimmed(lines@[i]@),
        decreases lines@.len() - k,
    {
        keys.push(trim(lines[k].as_str()).to_owned());
        k = k + 1;
    }
    keys
}

/// Collapses each run of lines that are equal once trimmed into the first
/// line of the run, as it was read, with the size of the run in front where
/// counts are shown. Each line holds its own line ending, if it has one.
pub fn uniq(lines: &[String], show_count: bool) -> (out: String)
    ensures
        out@ == rendered(
            texts(lines@),
            runs(texts(lines@).map_values(|line: Seq<char>| trimmed(line))),
            show_count,
        ),
{
    let keys = line_keys(lines);
    let found = find_runs(keys.as_slice());
    proof {
        lemma_runs_within(texts(keys@));
    }
    render(lines, found.as_slice(), show_count)
}

/// Settings of one run.
#[derive(Debug)]
pub struct Config {
    /// The input to read; `-` for the standard input.
    pub in_file: String,
    /// The output to write, where it is not the standard output.
    pub out_file: Option<String>,
    /// Whether each line is preceded by the size of its run.
    pub count: bool,
}

} // verus!
