//! Finding the lines of the inputs that match a pattern.

use regex::Regex;
use vstd::prelude::*;
use vstd::string::StringExecFns;
use crate::pattern::{compile, is_match, language_of, pattern_language};
use crate::text::{decimal, is_dash, push_decimal_text, texts};

verus! {

/// Settings of one run.
#[derive(Debug)]
pub struct Config {
    /// The pattern to look for.
    pub pattern: Regex,
    /// The inputs to search, in the order given.
    pub files: Vec<String>,
    /// Whether directories are searched, with all that is below them.
    pub recursive: bool,
    /// Whether the number of selected lines is shown in their place.
    pub count: bool,
    /// Whether the lines that do not match are the ones selected.
    pub invert_match: bool,
}

/// Why the settings could not be built.
#[derive(Debug)]
pub enum ConfigError {
    /// The pattern does not compile; holds the pattern.
    InvalidPattern(String),
}

impl ConfigError {
    /// The message of this error.
    pub fn to_string(&self) -> (text: String)
        ensures
            self matches ConfigError::InvalidPattern(pattern) && text@ == "Invalid pattern \""@
                + pattern@ + "\""@,
    {
        match self {
            ConfigError::InvalidPattern(pattern) => {
                let mut text = String::from_str("Invalid pattern \"");
                text.append(pattern.as_str());
                text.append("\"");
                text
            },
        }
    }
}

impl Config {
    /// Builds the settings around the outcome of compiling the pattern:
    /// settings with the compiled pattern, or the refusal of the pattern
    /// text.
    pub fn with_pattern(
        compiled: Result<Regex, regex::Error>,
        pattern: &str,
        files: Vec<String>,
        recursive: bool,
        count: bool,
        invert_match: bool,
    ) -> (result: Result<Config, ConfigError>)
        ensures
            match compiled {
                Ok(re) => result matches Ok(config) && config.pattern == re && config.files
                    == files && config.recursive == recursive && config.count == count
                    && config.invert_match == invert_match,
                Err(_) => result matches Err(ConfigError::InvalidPattern(text)) && text@
                    == pattern@,
            },
    {
        match compiled {
            Ok(re) => Ok(Config { pattern: re, files, recursive, count, invert_match }),
            Err(_) => Err(ConfigError::InvalidPattern(pattern.to_owned())),
        }
    }

    /// Builds the settings from the raw option values. The pattern is
    /// compiled; where that fails, the pattern text comes back in the error.
    pub fn from_args(
        pattern: &str,
        insensitive: bool,
        files: Vec<String>,
        recursive: bool,
        count: bool,
        invert_match: bool,
    ) -> (result: Result<Config, ConfigError>)
        ensures
            match result {
                Ok(config) => config.files == files && config.recursive == recursive
                    && config.count == count && config.invert_match == invert_match
                    && language_of(config.pattern) == pattern_language(pattern@, insensitive),
                Err(ConfigError::InvalidPattern(text)) => text@ == pattern@,
            },
    {
        Config::with_pattern(
            compile(pattern, insensitive),
            pattern,
            files,
            recursive,
            count,
            invert_match,
        )
    }
}

/// Whether a line is selected: a matching line, or, when the selection is
/// inverted, a line that does not match.
pub fn selects(matched: bool, invert_match: bool) -> (selected: bool)
    ensures
        selected == (matched != invert_match),
{
    matched ^ invert_match
}

/// The lines that a pattern selects, in order.
pub open spec fn selected_lines(lines: Seq<Seq<char>>, pattern: Regex, invert_match: bool) -> Seq<
    Seq<char>,
>
    decreases lines.len(),
{
    if lines.len() == 0 {
        Seq::empty()
    } else {
        let before = selected_lines(lines.drop_last(), pattern, invert_match);
        if language_of(pattern).contains(lines.last()) != invert_match {
            before.push(lines.last())
        } else {
            before
        }
    }
}

/// Picks out the lines in which `pattern` finds a match or, when the
/// selection is inverted, those in which it finds none.
pub fn find_lines(lines: &[String], pattern: &Regex, invert_match: bool) -> (found: Vec<String>)
    ensures
        texts(found@) == selected_lines(texts(lines@), *pattern, invert_match),
{
    let ghost all = texts(lines@);
    let mut found: Vec<String> = Vec::new();
    let mut k: usize = 0;
    while k < lines.len()
        invariant
            all == texts(lines@),
            0 <= k <= lines@.len(),
            texts(found@) == selected_lines(all.take(k as int), *pattern, invert_match),
        decreases lines@.len() - k,
    {
        assert(all.take(k + 1).drop_last() == all.take(k as int));
        if selects(is_match(pattern, lines[k].as_str()), invert_match) {
            found.push(lines[k].clone());
        }
        k = k + 1;
    }
    assert(all.take(k as int) == all);
    found
}

/// What is shown for the selected lines of one input: the lines, or their
/// number where counts are asked for; each after the name of the input and a
/// colon where there are several inputs.
pub open spec fn match_lines(
    matches: Seq<Seq<char>>,
    filename: Seq<char>,
    multiple_entries: bool,
    count: bool,
) -> Seq<Seq<char>> {
    let shown = if count {
        seq![decimal(matches.len())]
    } else {
        matches
    };
    if multiple_entries {
        shown.map_values(|line: Seq<char>| filename + seq![':'] + line)
    } else {
        shown
    }
}

/// Formats the selected lines of one input for output.
pub fn format_matches(matches: Vec<String>, filename: &str, multiple_entries: bool, count: bool) -> (
    lines: Vec<String>
)
    ensures
        texts(lines@) == match_lines(texts(matches@), filename@, multiple_entries, count),
{
    let mut shown = matches;
    if count {
        let mut number = String::new();
        push_decimal_text(&mut number, shown.len() as u64);
        let mut only: Vec<String> = Vec::new();
        only.push(number);
        shown = only;
    }
    if !multiple_entries {
        return shown;
    }
    let mut lines: Vec<String> = Vec::new();
    let mut k: usize = 0;
    while k < shown.len()
        invariant
            0 <= k <= shown@.len(),
            lines@.len() == k,
            forall|i: int|
                0 <= i < k ==> (#[trigger] lines@[i])@ == filename@ + seq![':'] + shown@[i]@,
        decreases shown@.len() - k,
    {
        let mut line = String::from_str(filename);
        line.append(":");
        line.append(shown[k].as_str());
        proof {
            reveal_strlit(":");
        }
        lines.push(line);
        k = k + 1;
    }
    lines
}

/// What a walk of the file system reported at one step.
#[derive(Debug)]
pub enum WalkItem {
    /// An entry was found.
    Entry {
        /// Its path.
        path: String,
        /// Whether the path leads to a regular file.
        is_file: bool,
        /// Whether the entry itself is a directory.
        is_dir: bool,
    },
    /// The walk met an I/O error; holds its text.
    IoError(String),
    /// The walk failed in another way; holds the text of the failure.
    OtherError(String),
}

/// What a walk item contributes to the inputs of a search that started at
/// `root`: a path to read, a message, or nothing.
///
/// A search that is not recursive refuses directories; a recursive one
/// passes over all that is not a regular file.
pub open spec fn found_for(root: Seq<char>, recursive: bool, item: WalkItem) -> Option<
    Result<Seq<char>, Seq<char>>,
> {
    match item {
        WalkItem::IoError(inner) => Some(Err(root + ": "@ + inner@)),
        WalkItem::OtherError(text) => Some(Err("Traversing error: "@ + text@)),
        WalkItem::Entry { path, is_file, is_dir } => if recursive {
            if is_file {
                Some(Ok(path@))
            } else {
                None
            }
        } else {
            if is_dir {
                Some(Err(root + " is a directory"@))
            } else {
                Some(Ok(path@))
            }
        },
    }
}

/// What a sequence of walk items contributes, in order.
pub open spec fn found_among(root: Seq<char>, recursive: bool, items: Seq<WalkItem>) -> Seq<
    Result<Seq<char>, Seq<char>>,
>
    decreases items.len(),
{
    if items.len() == 0 {
        Seq::empty()
    } else {
        let before = found_among(root, recursive, items.drop_last());
        match found_for(root, recursive, items.last()) {
            Some(found) => before.push(found),
            None => before,
        }
    }
}

/// The inputs that one path stands for. The standard input stands for
/// itself; any other path is walked, all the way where the search is
/// recursive and for its first step alone where it is not.
pub open spec fn found_at(path: Seq<char>, recursive: bool, walk: Seq<WalkItem>) -> Seq<
    Result<Seq<char>, Seq<char>>,
> {
    if path == seq!['-'] {
        seq![Ok(path)]
    } else if recursive {
        found_among(path, recursive, walk)
    } else {
        found_among(path, recursive, walk.take(if walk.len() > 0 { 1int } else { 0int }))
    }
}

/// The walk that belongs to path number `index`; an empty one where none
/// is given.
pub open spec fn walk_of(walks: Seq<Vec<WalkItem>>, index: int) -> Seq<WalkItem> {
    if 0 <= index < walks.len() {
        walks[index]@
    } else {
        Seq::empty()
    }
}

/// The inputs that a sequence of paths stands for, in order.
pub open spec fn found_all(paths: Seq<String>, recursive: bool, walks: Seq<Vec<WalkItem>>) -> Seq<
    Result<Seq<char>, Seq<char>>,
>
    decreases paths.len(),
{
    if paths.len() == 0 {
        Seq::empty()
    } else {
        found_all(paths.drop_last(), recursive, walks) + found_at(
            paths.last()@,
            recursive,
            walk_of(walks, paths.len() - 1),
        )
    }
}

/// The text of each outcome of a sequence.
pub open spec fn outcomes(files: Seq<Result<String, String>>) -> Seq<Result<Seq<char>, Seq<char>>> {
    Seq::new(
        files.len(),
        |i: int|
            match files[i] {
                Ok(path) => Ok(path@),
                Err(message) => Err(message@),
            },
    )
}

/// Turns one walk item into an input to read, a message, or nothing.
pub fn classify(root: &str, recursive: bool, item: &WalkItem) -> (found: Option<
    Result<String, String>,
>)
    ensures
        match found_for(root@, recursive, *item) {
            None => found is None,
            Some(Ok(path)) => found matches Some(Ok(p)) && p@ == path,
            Some(Err(message)) => found matches Some(Err(m)) && m@ == message,
        },
{
    match item {
        WalkItem::IoError(inner) => {
            let mut message = String::from_str(root);
            message.append(": ");
            message.append(inner.as_str());
            Some(Err(message))
        },
        WalkItem::OtherError(text) => {
            let mut message = String::from_str("Traversing error: ");
            message.append(text.as_str());
            Some(Err(message))
        },
        WalkItem::Entry { path, is_file, is_dir } => {
            if recursive {
                if *is_file {
                    Some(Ok(path.clone()))
                } else {
                    None
                }
            } else if *is_dir {
                let mut message = String::from_str(root);
                message.append(" is a directory");
                Some(Err(message))
            } else {
                Some(Ok(path.clone()))
            }
        },
    }
}

/// Lists the inputs to search: for each path what walking it gave.
///
/// `walks` holds, for each path in turn, what a walk from that path
/// reported; for the standard input it is not looked at. A path without a
/// walk is taken as one whose walk reported nothing.
pub fn find_files(paths: &[String], recursive: bool, walks: &[Vec<WalkItem>]) -> (files: Vec<
    Result<String, String>,
>)
    ensures
        outcomes(files@) == found_all(paths@, recursive, walks@),
{
    let mut files: Vec<Result<String, String>> = Vec::new();
    let mut k: usize = 0;
    while k < paths.len()
        invariant
            0 <= k <= paths@.len(),
            outcomes(files@) == found_all(paths@.take(k as int), recursive, walks@),
        decreases paths@.len() - k,
    {
        let path = &paths[k];
        let ghost start = outcomes(files@);
        assert(paths@.take(k + 1).drop_last() == paths@.take(k as int));
        if is_dash(path.as_str()) {
            files.push(Ok(path.clone()));
        } else if k < walks.len() {
            let walk = &walks[k];
            let limit: usize = if recursive || walk.len() == 0 {
                walk.len()
            } else {
                1
            };
            let ghost items = walk@.take(limit as int);
            let mut i: usize = 0;
            while i < limit
                invariant
                    limit <= walk@.len(),
                    items == walk@.take(limit as int),
                    0 <= i <= limit,
                    outcomes(files@) == start + found_among(path@, recursive, items.take(i as int)),
                decreases limit - i,
            {
                let ghost before = outcomes(files@);
                assert(items.take(i + 1).drop_last() == items.take(i as int));
                match classify(path.as_str(), recursive, &walk[i]) {
                    Some(found) => {
                        files.push(found);
                        assert(outcomes(files@) =~= before.push(
                            found_for(path@, recursive, walk@[i as int])->0,
                        ));
                    },
                    None => {},
                }
                i = i + 1;
            }
            assert(items.take(limit as int) == items);
            assert(walk@.take(walk@.len() as int) == walk@);
        }
        k = k + 1;
    }
    assert(paths@.take(k as int) == paths@);
    files
}

} // verus!
