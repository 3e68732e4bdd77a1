//! Comparing two sorted inputs line by line, in three columns: lines only in
//! the first, lines only in the second, and lines in both.

use vstd::prelude::*;
use vstd::string::StringExecFns;
use vstd::utf8::encode_utf8;
use crate::text::{compare_bytes, is_dash, lowercase, lowercased, rank, texts, Rank};

verus! {

/// Settings of one run.
#[derive(Debug)]
pub struct Config {
    /// The first input; `-` for the standard input.
    pub file1: String,
    /// The second input; `-` for the standard input.
    pub file2: String,
    /// Whether lines that only the first input has are shown.
    pub show_col1: bool,
    /// Whether lines that only the second input has are shown.
    pub show_col2: bool,
    /// Whether lines that both inputs have are shown.
    pub show_col3: bool,
    /// Whether lines are compared in lower case.
    pub insensitive: bool,
    /// What separates the columns.
    pub delimiter: String,
}

/// Why a run cannot start.
#[derive(Debug, Clone, Copy, PartialEq, Eq, Structural)]
pub enum ConfigError {
    /// Both inputs are the standard input.
    BothStdin,
}

impl ConfigError {
    /// The message of this error.
    pub fn to_string(&self) -> (text: String)
        ensures
            text@ == "Both input files cannot be STDIN (\"-\")"@,
    {
        String::from_str("Both input files cannot be STDIN (\"-\")")
    }
}

/// The column a line belongs to.
#[derive(Debug, Clone, Copy, PartialEq, Eq, Structural)]
pub enum Column {
    /// Only the first input has the line.
    Col1,
    /// Only the second input has the line.
    Col2,
    /// Both inputs have the line.
    Col3,
}

/// The two inputs merged: at each step the smaller of the two next lines
/// leaves its input for its column; equal lines leave both inputs for the
/// third column. Lines are ordered by the bytes of their UTF-8 form.
pub open spec fn merged(first: Seq<Seq<char>>, second: Seq<Seq<char>>) -> Seq<
    (Column, Seq<char>),
>
    decreases first.len() + second.len(),
{
    if first.len() == 0 && second.len() == 0 {
        Seq::empty()
    } else if second.len() == 0 {
        seq![(Column::Col1, first[0])] + merged(first.drop_first(), second)
    } else if first.len() == 0 {
        seq![(Column::Col2, second[0])] + merged(first, second.drop_first())
    } else {
        match rank(encode_utf8(first[0]), encode_utf8(second[0])) {
            Rank::Same => seq![(Column::Col3, first[0])] + merged(
                first.drop_first(),
                second.drop_first(),
            ),
            Rank::Before => seq![(Column::Col1, first[0])] + merged(first.drop_first(), second),
            Rank::After => seq![(Column::Col2, second[0])] + merged(first, second.drop_first()),
        }
    }
}

/// The output line for a text in a column, or `None` where the column is
/// hidden. One delimiter stands before the text for each shown column to
/// the left of its own.
pub open spec fn shown(column: Column, text: Seq<char>, config: Config) -> Option<Seq<char>> {
    let gap1 = if config.show_col1 {
        config.delimiter@
    } else {
        Seq::empty()
    };
    let gap2 = if config.show_col2 {
        config.delimiter@
    } else {
        Seq::empty()
    };
    match column {
        Column::Col1 => if config.show_col1 {
            Some(text)
        } else {
            None
        },
        Column::Col2 => if config.show_col2 {
            Some(gap1 + text)
        } else {
            None
        },
        Column::Col3 => if config.show_col3 {
            Some(gap1 + gap2 + text)
        } else {
            None
        },
    }
}

/// The output lines for a sequence of placed texts: those of shown columns,
/// in order.
pub open spec fn printed(entries: Seq<(Column, Seq<char>)>, config: Config) -> Seq<Seq<char>>
    decreases entries.len(),
{
    if entries.len() == 0 {
        Seq::empty()
    } else {
        let before = printed(entries.drop_last(), config);
        match shown(entries.last().0, entries.last().1, config) {
            Some(line) => before.push(line),
            None => before,
        }
    }
}

/// The lines as they are compared and shown: in lower case where case is
/// to be ignored.
pub open spec fn normalized(lines: Seq<Seq<char>>, insensitive: bool) -> Seq<Seq<char>> {
    if insensitive {
        lines.map_values(|line: Seq<char>| lowercased(line))
    } else {
        lines
    }
}

impl Config {
    /// Refuses the one pair of inputs that cannot be read: the standard
    /// input twice.
    pub fn check(&self) -> (result: Result<(), ConfigError>)
        ensures
            result is Err <==> self.file1@ == seq!['-'] && self.file2@ == seq!['-'],
    {
        if is_dash(self.file1.as_str()) && is_dash(self.file2.as_str()) {
            Err(ConfigError::BothStdin)
        } else {
            Ok(())
        }
    }

    /// Formats one text for its column.
    pub fn column_line(&self, column: Column, text: &str) -> (line: Option<String>)
        ensures
            match shown(column, text@, *self) {
                Some(expected) => line matches Some(l) && l@ == expected,
                None => line is None,
            },
    {
        let mut line = String::new();
        match column {
            Column::Col1 => {
                if !self.show_col1 {
                    return None;
                }
            },
            Column::Col2 => {
                if !self.show_col2 {
                    return None;
                }
                if self.show_col1 {
                    line.append(self.delimiter.as_str());
                }
            },
            Column::Col3 => {
                if !self.show_col3 {
                    return None;
                }
                if self.show_col1 {
                    line.append(self.delimiter.as_str());
                }
                if self.show_col2 {
                    line.append(self.delimiter.as_str());
                }
            },
        }
        line.append(text);
        Some(line)
    }

    /// Compares two inputs, given as their lines, and hands out the output
    /// lines. Where case is to be ignored, the lines are compared and shown
    /// in lower case.
    pub fn comm(&self, first: &[String], second: &[String]) -> (lines: Vec<String>)
        ensures
            texts(lines@) == printed(
                merged(
                    normalized(texts(first@), self.insensitive),
                    normalized(texts(second@), self.insensitive),
                ),
                *self,
            ),
    {
        if self.insensitive {
            let lower_first = lower_all(first);
            let lower_second = lower_all(second);
            self.merge(lower_first.as_slice(), lower_second.as_slice())
        } else {
            self.merge(first, second)
        }
    }

    /// Merges two inputs, given as their lines, into the output lines.
    pub fn merge(&self, first: &[String], second: &[String]) -> (lines: Vec<String>)
        ensures
            texts(lines@) == printed(merged(texts(first@), texts(second@)), *self),
    {
        let ghost a = texts(first@);
        let ghost b = texts(second@);
        let ghost mut done: Seq<(Column, Seq<char>)> = Seq::empty();
        let mut lines: Vec<String> = Vec::new();
        let mut i: usize = 0;
        let mut j: usize = 0;
        assert(a.skip(0) == a && b.skip(0) == b);
        while i < first.len() || j < second.len()
            invariant
                a == texts(first@),
                b == texts(second@),
                0 <= i <= first@.len(),
                0 <= j <= second@.len(),
                merged(a, b) == done + merged(a.skip(i as int), b.skip(j as int)),
                texts(lines@) == printed(done, *self),
            decreases (first@.len() - i) + (second@.len() - j),
        {
            let ghost rest_a = a.skip(i as int);
            let ghost rest_b = b.skip(j as int);
            let ghost i0 = i as int;
            let ghost j0 = j as int;
            let column: Column;
            let text: &str;
            if j >= second.len() {
                column = Column::Col1;
                text = first[i].as_str();
                i = i + 1;
            } else if i >= first.len() {
                column = Column::Col2;
                text = second[j].as_str();
                j = j + 1;
            } else {
                match compare_bytes(first[i].as_str().as_bytes(), second[j].as_str().as_bytes()) {
                    Rank::Same => {
                        column = Column::Col3;
                        text = first[i].as_str();
                        i = i + 1;
                        j = j + 1;
                    },
                    Rank::Before => {
                        column = Column::Col1;
                        text = first[i].as_str();
                        i = i + 1;
                    },
                    Rank::After => {
                        column = Column::Col2;
                        text = second[j].as_str();
                        j = j + 1;
                    },
                }
            }
            proof {
                if rest_a.len() > 0 {
                    assert(rest_a.drop_first() == a.skip(i0 + 1));
                }
                if rest_b.len() > 0 {
                    assert(rest_b.drop_first() == b.skip(j0 + 1));
                }
                let entry = (column, text@);
                assert(done.push(entry).drop_last() == done);
                done = done.push(entry);
            }
            if let Some(line) = self.column_line(column, text) {
                lines.push(line);
            }
        }
        lines
    }
}

/// Each line in lower case.
pub fn lower_all(lines: &[String]) -> (lower: Vec<String>)
    ensures
        texts(lower@) == normalized(texts(lines@), true),
{
    let mut lower: Vec<String> = Vec::new();
    let mut k: usize = 0;
    while k < lines.len()
        invariant
            0 <= k <= lines@.len(),
            lower@.len() == k,
            forall|i: int| 0 <= i < k ==> (#[trigger] lower@[i])@ == lowercased(lines@[i]@),
        decreases lines@.len() - k,
    {
        lower.push(lowercase(lines[k].as_str()));
        k = k + 1;
    }
    lower
}

} // verus!
