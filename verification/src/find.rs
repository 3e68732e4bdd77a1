//! Choosing among the entries of a directory walk by type and by name.

use regex::Regex;
use vstd::prelude::*;
use vstd::string::StringExecFns;
use crate::pattern::{compile, is_match, language_of, pattern_language};
use crate::text::to_chars;

verus! {

/// A kind of directory entry that can be asked for.
#[derive(Debug, Clone, Copy, PartialEq, Eq, Structural)]
pub enum EntryType {
    /// A directory.
    Dir,
    /// A regular file.
    File,
    /// A symbolic link.
    Link,
}

/// A text that names no kind of entry.
#[derive(Debug)]
pub struct EntryTypeError {
    /// The text as it was given.
    pub entry_type: String,
}

impl EntryTypeError {
    /// The message of this error.
    pub fn to_string(&self) -> (text: String)
        ensures
            text@ == self.entry_type@ + " is not a valid value for EntryType"@,
    {
        let mut text = self.entry_type.clone();
        text.append(" is not a valid value for EntryType");
        text
    }
}

/// The kind of entry that a text names: `f` a file, `d` a directory, `l` a
/// link.
pub open spec fn entry_type_of(input: Seq<char>) -> Option<EntryType> {
    if input == seq!['f'] {
        Some(EntryType::File)
    } else if input == seq!['d'] {
        Some(EntryType::Dir)
    } else if input == seq!['l'] {
        Some(EntryType::Link)
    } else {
        None
    }
}

impl EntryType {
    /// Reads the name of a kind of entry. Any other text comes back in the
    /// error.
    pub fn from_str(input: &str) -> (result: Result<EntryType, EntryTypeError>)
        ensures
            match entry_type_of(input@) {
                Some(kind) => result matches Ok(k) && k == kind,
                None => result matches Err(e) && e.entry_type@ == input@,
            },
    {
        let chars = to_chars(input);
        if chars.len() == 1 {
            assert(input@ =~= seq![chars@[0]]);
            if chars[0] == 'f' {
                return Ok(EntryType::File);
            } else if chars[0] == 'd' {
                return Ok(EntryType::Dir);
            } else if chars[0] == 'l' {
                return Ok(EntryType::Link);
            }
        }
        Err(EntryTypeError { entry_type: input.to_owned() })
    }
}

/// What is known of one entry that a walk found.
#[derive(Debug)]
pub struct Entry {
    /// The path that leads to the entry.
    pub path: String,
    /// The last component of the path.
    pub file_name: String,
    /// Whether the entry is a directory.
    pub is_dir: bool,
    /// Whether the entry is a regular file.
    pub is_file: bool,
    /// Whether the entry is a symbolic link.
    pub is_symlink: bool,
}

impl Entry {
    /// Whether the entry is of the kind given.
    pub open spec fn is_of(self, kind: EntryType) -> bool {
        match kind {
            EntryType::Dir => self.is_dir,
            EntryType::File => self.is_file,
            EntryType::Link => self.is_symlink,
        }
    }

    /// Whether the entry passes a list of kinds: an empty list lets every
    /// entry pass, any other list those that are of one of its kinds.
    pub open spec fn has_type_among(self, entry_types: Seq<EntryType>) -> bool {
        entry_types.len() == 0 || exists|i: int|
            0 <= i < entry_types.len() && self.is_of(#[trigger] entry_types[i])
    }

    /// Whether the entry passes a list of patterns: an empty list lets
    /// every entry pass, any other list those whose file name one of its
    /// patterns matches.
    pub open spec fn has_name_among(self, names: Seq<Regex>) -> bool {
        names.len() == 0 || exists|i: int|
            0 <= i < names.len() && language_of(#[trigger] names[i]).contains(self.file_name@)
    }
}

/// Lets an entry pass where it is of one of the kinds asked for, or where
/// none is asked for.
pub fn filter_type(entry: Entry, entry_types: &Vec<EntryType>) -> (kept: Option<Entry>)
    ensures
        kept == if entry.has_type_among(entry_types@) {
            Some(entry)
        } else {
            None
        },
{
    if entry_types.len() == 0 {
        return Some(entry);
    }
    let mut k: usize = 0;
    while k < entry_types.len()
        invariant
            0 <= k <= entry_types@.len(),
            forall|i: int| 0 <= i < k ==> !entry.is_of(#[trigger] entry_types@[i]),
        decreases entry_types@.len() - k,
    {
        let hit = match entry_types[k] {
            EntryType::Dir => entry.is_dir,
            EntryType::File => entry.is_file,
            EntryType::Link => entry.is_symlink,
        };
        if hit {
            return Some(entry);
        }
        k = k + 1;
    }
    None
}

/// Lets an entry pass where one of the patterns matches its file name, or
/// where there is no pattern.
pub fn filter_name(entry: Entry, name: &Vec<Regex>) -> (kept: Option<Entry>)
    ensures
        kept == if entry.has_name_among(name@) {
            Some(entry)
        } else {
            None
        },
{
    if name.len() == 0 {
        return Some(entry);
    }
    let mut k: usize = 0;
    while k < name.len()
        invariant
            0 <= k <= name@.len(),
            forall|i: int|
                0 <= i < k ==> !language_of(#[trigger] name@[i]).contains(entry.file_name@),
        decreases name@.len() - k,
    {
        if is_match(&name[k], entry.file_name.as_str()) {
            return Some(entry);
        }
        k = k + 1;
    }
    None
}

/// Settings of one run.
#[derive(Debug)]
pub struct Config {
    /// Where to search, in the order given.
    pub paths: Vec<String>,
    /// The patterns for file names; none lets every name pass.
    pub names: Vec<Regex>,
    /// The kinds of entry asked for; none lets every kind pass.
    pub entry_types: Vec<EntryType>,
}

/// Why the settings could not be built.
#[derive(Debug)]
pub enum ConfigError {
    /// A name pattern does not compile; holds the pattern.
    InvalidName(String),
    /// A text names no kind of entry.
    InvalidType(EntryTypeError),
}

/// The message that goes with a refusal of the settings.
pub open spec fn config_message(e: ConfigError) -> Seq<char> {
    match e {
        ConfigError::InvalidName(name) => "Invalid --name \""@ + name@ + "\""@,
        ConfigError::InvalidType(inner) => inner.entry_type@
            + " is not a valid value for EntryType"@,
    }
}

impl ConfigError {
    /// The message of this error.
    pub fn to_string(&self) -> (text: String)
        ensures
            text@ == config_message(*self),
    {
        match self {
            ConfigError::InvalidName(name) => {
                let mut text = String::from_str("Invalid --name \"");
                text.append(name.as_str());
                text.append("\"");
                text
            },
            ConfigError::InvalidType(inner) => inner.to_string(),
        }
    }
}

/// The kinds that a sequence of texts names, where each names one.
pub open spec fn all_entry_types(types: Seq<String>, kinds: Seq<EntryType>) -> bool {
    kinds.len() == types.len() && forall|i: int|
        0 <= i < types.len() ==> entry_type_of(#[trigger] types[i]@) == Some(kinds[i])
}

impl Config {
    /// Takes the outcome of compiling one name pattern: the compiled
    /// pattern, or the refusal of the pattern text.
    pub fn accept_name(compiled: Result<Regex, regex::Error>, name: &str) -> (result: Result<
        Regex,
        ConfigError,
    >)
        ensures
            match compiled {
                Ok(re) => result matches Ok(r) && r == re,
                Err(_) => result matches Err(ConfigError::InvalidName(text)) && text@ == name@,
            },
    {
        match compiled {
            Ok(re) => Ok(re),
            Err(_) => Err(ConfigError::InvalidName(name.to_owned())),
        }
    }

    /// Reads the kinds of entry asked for. The first text that names none
    /// decides the error.
    pub fn parse_types(types: &[String]) -> (result: Result<Vec<EntryType>, EntryTypeError>)
        ensures
            match result {
                Ok(kinds) => all_entry_types(types@, kinds@),
                Err(e) => exists|i: int|
                    0 <= i < types@.len() && entry_type_of(#[trigger] types@[i]@) is None
                        && e.entry_type@ == types@[i]@ && forall|j: int|
                        0 <= j < i ==> entry_type_of(#[trigger] types@[j]@) is Some,
            },
    {
        let mut kinds: Vec<EntryType> = Vec::new();
        let mut k: usize = 0;
        while k < types.len()
            invariant
                0 <= k <= types@.len(),
                kinds@.len() == k,
                forall|i: int|
                    0 <= i < k ==> entry_type_of(#[trigger] types@[i]@) == Some(kinds@[i]),
            decreases types@.len() - k,
        {
            match EntryType::from_str(types[k].as_str()) {
                Ok(kind) => {
                    kinds.push(kind);
                },
                Err(e) => {
                    return Err(e);
                },
            }
            k = k + 1;
        }
        Ok(kinds)
    }

    /// Builds the settings from the raw option values. The name patterns
    /// are compiled first, in order, then the kinds are read; the first
    /// refusal decides the error.
    pub fn from_args(paths: Vec<String>, names: &[String], types: &[String]) -> (result: Result<
        Config,
        ConfigError,
    >)
        ensures
            match result {
                Ok(config) => {
                    &&& config.paths == paths
                    &&& config.names@.len() == names@.len()
                    &&& forall|i: int|
                        0 <= i < names@.len() ==> language_of(#[trigger] config.names@[i])
                            == pattern_language(names@[i]@, false)
                    &&& all_entry_types(types@, config.entry_types@)
                },
                Err(ConfigError::InvalidName(text)) => exists|i: int|
                    0 <= i < names@.len() && text@ == (#[trigger] names@[i])@,
                Err(ConfigError::InvalidType(e)) => exists|i: int|
                    0 <= i < types@.len() && entry_type_of(#[trigger] types@[i]@) is None
                        && e.entry_type@ == types@[i]@ && forall|j: int|
                        0 <= j < i ==> entry_type_of(#[trigger] types@[j]@) is Some,
            },
    {
        let mut compiled: Vec<Regex> = Vec::new();
        let mut k: usize = 0;
        while k < names.len()
            invariant
                0 <= k <= names@.len(),
                compiled@.len() == k,
                forall|i: int|
                    0 <= i < k ==> language_of(#[trigger] compiled@[i]) == pattern_language(
                        names@[i]@,
                        false,
                    ),
            decreases names@.len() - k,
        {
            let name = names[k].as_str();
            match Config::accept_name(compile(name, false), name) {
                Ok(re) => {
                    compiled.push(re);
                },
                Err(e) => {
                    return Err(e);
                },
            }
            k = k + 1;
        }
        match Config::parse_types(types) {
            Ok(kinds) => Ok(Config { paths, names: compiled, entry_types: kinds }),
            Err(e) => Err(ConfigError::InvalidType(e)),
        }
    }

    /// Lets an entry pass where it passes both the kinds and the names of
    /// these settings.
    pub fn accepts(&self, entry: Entry) -> (kept: Option<Entry>)
        ensures
            kept == if entry.has_type_among(self.entry_types@) && entry.has_name_among(
                self.names@,
            ) {
                Some(entry)
            } else {
                None
            },
    {
        match filter_type(entry, &self.entry_types) {
            Some(entry) => filter_name(entry, &self.names),
            None => None,
        }
    }
}

} // verus!
