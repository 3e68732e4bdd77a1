//! Showing lines as they are, or with line numbers in front.

use vstd::prelude::*;
use vstd::string::StringExecFns;
use crate::text::{decimal, pad_left, push_char, push_padded_decimal, texts};

verus! {

/// Settings of one run.
#[derive(Debug)]
pub struct Config {
    /// The inputs to read, in the order given.
    pub files: Vec<String>,
    /// Whether every line is numbered.
    pub number_lines: bool,
    /// Whether every line but the empty ones is numbered.
    pub number_nonblank_lines: bool,
}

/// A line with its number in front: the number right-aligned in six
/// columns, a tab, and the line.
pub open spec fn numbered(number: nat, line: Seq<char>) -> Seq<char> {
    pad_left(decimal(number), 6) + seq!['\t'] + line
}

/// The number of empty lines in a sequence.
pub open spec fn blanks(lines: Seq<Seq<char>>) -> nat
    decreases lines.len(),
{
    if lines.len() == 0 {
        0
    } else {
        blanks(lines.drop_last()) + if lines.last().len() == 0 {
            1nat
        } else {
            0nat
        }
    }
}

/// Every line with its number, counted from one.
pub open spec fn all_numbered(lines: Seq<Seq<char>>) -> Seq<Seq<char>> {
    Seq::new(lines.len(), |i: int| numbered((i + 1) as nat, lines[i]))
}

/// Every line that is not empty with its number; the empty lines stay
/// empty and are not counted.
pub open spec fn nonblank_numbered(lines: Seq<Seq<char>>) -> Seq<Seq<char>> {
    Seq::new(
        lines.len(),
        |i: int|
            if lines[i].len() == 0 {
                Seq::empty()
            } else {
                numbered((i + 1 - blanks(lines.take(i))) as nat, lines[i])
            },
    )
}

/// Puts a number in front of a line.
pub fn number_line(number: usize, line: &str) -> (text: String)
    ensures
        text@ == numbered(number as nat, line@),
{
    let mut text = String::new();
    push_padded_decimal(&mut text, number as u64, 6);
    push_char(&mut text, '\t');
    text.append(line);
    text
}

/// Numbers every line.
pub fn number_lines(lines: &[String]) -> (out: Vec<String>)
    ensures
        texts(out@) == all_numbered(texts(lines@)),
{
    let mut out: Vec<String> = Vec::new();
    let mut k: usize = 0;
    while k < lines.len()
        invariant
            0 <= k <= lines@.len(),
            out@.len() == k,
            forall|i: int|
                0 <= i < k ==> (#[trigger] out@[i])@ == numbered((i + 1) as nat, lines@[i]@),
        decreases lines@.len() - k,
    {
        out.push(number_line(k + 1, lines[k].as_str()));
        k = k + 1;
    }
    out
}

/// Numbers every line that is not empty.
pub fn number_nonblank_lines(lines: &[String]) -> (out: Vec<String>)
    ensures
        texts(out@) == nonblank_numbered(texts(lines@)),
{
    let ghost all = texts(lines@);
    let mut out: Vec<String> = Vec::new();
    let mut empty_line_count: usize = 0;
    let mut k: usize = 0;
    while k < lines.len()
        invariant
            all == texts(lines@),
            0 <= k <= lines@.len(),
            out@.len() == k,
            empty_line_count == blanks(all.take(k as int)),
            empty_line_count <= k,
            forall|i: int|
                0 <= i < k ==> (#[trigger] out@[i])@ == nonblank_numbered(all)[i],
        decreases lines@.len() - k,
    {
        assert(all.take(k + 1).drop_last() == all.take(k as int));
        let line = lines[k].as_str();
        if line.is_empty() {
            empty_line_count = empty_line_count + 1;
            out.push(String::new());
        } else {
            out.push(number_line(k + 1 - empty_line_count, line));
        }
        k = k + 1;
    }
    out
}

impl Config {
    /// What is shown for the lines of one input: numbered throughout
    /// where that is asked for, else numbered but for the empty lines where
    /// that is asked for, else as they are.
    pub fn render(&self, lines: &[String]) -> (out: Vec<String>)
        ensures
            texts(out@) == if self.number_lines {
                all_numbered(texts(lines@))
            } else if self.number_nonblank_lines {
                nonblank_numbered(texts(lines@))
            } else {
                texts(lines@)
            },
    {
        if self.number_lines {
            number_lines(lines)
        } else if self.number_nonblank_lines {
            number_nonblank_lines(lines)
        } else {
            let mut out: Vec<String> = Vec::new();
            let mut k: usize = 0;
            while k < lines.len()
                invariant
                    0 <= k <= lines@.len(),
                    out@.len() == k,
                    forall|i: int| 0 <= i < k ==> (#[trigger] out@[i])@ == lines@[i]@,
                decreases lines@.len() - k,
            {
                out.push(lines[k].clone());
                k = k + 1;
            }
            out
        }
    }
}

} // verus!
