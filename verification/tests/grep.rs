use regex::{Regex, RegexBuilder};
use std::io::{BufRead, Cursor};
use textutils::grep::{
    classify, find_files, find_lines, format_matches, selects, Config, ConfigError, WalkItem,
};

fn strings(lines: &[&str]) -> Vec<String> {
    lines.iter().map(|l| l.to_string()).collect()
}

fn read_lines(text: &[u8]) -> std::io::Result<Vec<String>> {
    Cursor::new(text).lines().collect()
}

#[test]
fn test_find_lines() {
    let text = b"Lorem\nIpsum\r\nDOLOR";
    // The pattern _or_ should match the one line, "Lorem"
    let re1 = Regex::new("or").unwrap();
    let matches = read_lines(text).map(|lines| find_lines(&lines, &re1, false));
    assert!(matches.is_ok());
    assert_eq!(matches.unwrap().len(), 1);
    // When inverted, the function should match the other two lines
    let matches = read_lines(text).map(|lines| find_lines(&lines, &re1, true));
    assert!(matches.is_ok());
    assert_eq!(matches.unwrap().len(), 2);
    // This regex will be case-insensitive
    let re2 = RegexBuilder::new("or")
        .case_insensitive(true)
        .build()
        .unwrap();
    // The two lines "Lorem" and "DOLOR" should match
    let matches = read_lines(text).map(|lines| find_lines(&lines, &re2, false));
    assert!(matches.is_ok());
    assert_eq!(matches.unwrap().len(), 2);
    // When inverted, the one remaining line should match
    let matches = read_lines(text).map(|lines| find_lines(&lines, &re2, true));
    assert!(matches.is_ok());
    assert_eq!(matches.unwrap().len(), 1);
}

#[test]
fn find_lines_keeps_the_order_of_the_input() {
    let text = strings(&["one", "two", "three", "four", ""]);
    let re = Regex::new("o").unwrap();
    assert_eq!(find_lines(&text, &re, false), vec!["one", "two", "four"]);
    assert_eq!(find_lines(&text, &re, true), vec!["three", ""]);
    assert_eq!(find_lines(&[], &re, true), Vec::<String>::new());
    let anchored = Regex::new("^t.*e$").unwrap();
    assert_eq!(find_lines(&text, &anchored, false), vec!["three"]);
}

#[test]
fn a_line_is_selected_when_matching_and_inversion_differ() {
    assert!(selects(true, false));
    assert!(!selects(false, false));
    assert!(!selects(true, true));
    assert!(selects(false, true));
}

#[test]
fn grep_settings() {
    let config = Config::from_args("or", true, strings(&["a", "b"]), true, false, true).unwrap();
    assert_eq!(config.files, vec!["a", "b"]);
    assert!(config.recursive);
    assert!(!config.count);
    assert!(config.invert_match);
    assert!(config.pattern.is_match("DOLOR"));
    let config = Config::from_args("or", false, vec![], false, true, false).unwrap();
    assert!(!config.pattern.is_match("DOLOR"));
    assert!(config.count);

    let err = Config::from_args("*foo", false, vec![], false, false, false).unwrap_err();
    assert!(matches!(&err, ConfigError::InvalidPattern(p) if p == "*foo"));
    assert_eq!(err.to_string(), "Invalid pattern \"*foo\"");

    let refused = Regex::new("(").map_err(|e| e);
    let err = Config::with_pattern(refused, "(", vec![], false, false, false).unwrap_err();
    assert_eq!(err.to_string(), "Invalid pattern \"(\"");
    let config =
        Config::with_pattern(Regex::new("x"), "x", strings(&["f"]), false, true, false).unwrap();
    assert_eq!(config.pattern.as_str(), "x");
    assert_eq!(config.files, vec!["f"]);
}

#[test]
fn matches_are_shown_with_the_name_of_their_input() {
    let lines = strings(&["one", "two"]);
    assert_eq!(format_matches(lines.clone(), "f.txt", false, false), vec!["one", "two"]);
    assert_eq!(format_matches(lines.clone(), "f.txt", true, false), vec!["f.txt:one", "f.txt:two"]);
    assert_eq!(format_matches(lines.clone(), "f.txt", false, true), vec!["2"]);
    assert_eq!(format_matches(lines, "f.txt", true, true), vec!["f.txt:2"]);
    assert_eq!(format_matches(vec![], "f.txt", true, true), vec!["f.txt:0"]);
    assert_eq!(format_matches(vec![], "f.txt", true, false), Vec::<String>::new());
    assert_eq!(format_matches(vec!["x".to_string(); 120], "-", false, true), vec!["120"]);
}

fn entry(path: &str, is_file: bool, is_dir: bool) -> WalkItem {
    WalkItem::Entry { path: path.to_string(), is_file, is_dir }
}

#[test]
fn walk_items_become_inputs_or_messages() {
    assert_eq!(classify("d", false, &entry("d/fox.txt", true, false)), Some(Ok("d/fox.txt".to_string())));
    assert_eq!(classify("d", false, &entry("d", false, true)), Some(Err("d is a directory".to_string())));
    assert_eq!(classify("d", true, &entry("d", false, true)), None);
    assert_eq!(classify("d", true, &entry("d/fox.txt", true, false)), Some(Ok("d/fox.txt".to_string())));
    // A link to a directory is no directory itself, and no regular file.
    assert_eq!(classify("l", false, &entry("l", false, false)), Some(Ok("l".to_string())));
    assert_eq!(classify("l", true, &entry("l", false, false)), None);
    assert_eq!(
        classify("x", false, &WalkItem::IoError("No such file or directory (os error 2)".to_string())),
        Some(Err("x: No such file or directory (os error 2)".to_string()))
    );
    assert_eq!(
        classify("x", true, &WalkItem::OtherError("loop".to_string())),
        Some(Err("Traversing error: loop".to_string()))
    );
}

#[test]
fn test_find_files() {
    let paths = strings(&["./tests/inputs/fox.txt"]);
    let walks = vec![vec![entry("./tests/inputs/fox.txt", true, false)]];
    let files = find_files(&paths, false, &walks);
    assert_eq!(files.len(), 1);
    assert_eq!(files[0].as_ref().unwrap(), "./tests/inputs/fox.txt");

    let paths = strings(&["./tests/inputs"]);
    let walk = || vec![
        entry("./tests/inputs", false, true),
        entry("./tests/inputs/bustle.txt", true, false),
        entry("./tests/inputs/empty.txt", true, false),
        entry("./tests/inputs/fox.txt", true, false),
        entry("./tests/inputs/nobody.txt", true, false),
    ];
    let files = find_files(&paths, false, &[walk()]);
    assert_eq!(files.len(), 1);
    assert_eq!(files[0], Err("./tests/inputs is a directory".to_string()));

    let res = find_files(&paths, true, &[walk()]);
    let mut files: Vec<String> = res.iter().map(|r| r.as_ref().unwrap().replace("\\", "/")).collect();
    files.sort();
    assert_eq!(files.len(), 4);
    assert_eq!(
        files,
        vec![
            "./tests/inputs/bustle.txt",
            "./tests/inputs/empty.txt",
            "./tests/inputs/fox.txt",
            "./tests/inputs/nobody.txt",
        ]
    );

    let bad = strings(&["q3k9zx1"]);
    let files = find_files(&bad, false, &[vec![WalkItem::IoError("not found".to_string())]]);
    assert_eq!(files.len(), 1);
    assert!(files[0].is_err());
}

#[test]
fn the_standard_input_is_not_walked() {
    let paths = strings(&["-", "a", "-"]);
    let walks = vec![
        vec![WalkItem::IoError("never looked at".to_string())],
        vec![entry("a", true, false), entry("a/b", true, false)],
        vec![],
    ];
    assert_eq!(
        find_files(&paths, false, &walks),
        vec![Ok("-".to_string()), Ok("a".to_string()), Ok("-".to_string())]
    );
    assert_eq!(
        find_files(&paths, true, &walks),
        vec![Ok("-".to_string()), Ok("a".to_string()), Ok("a/b".to_string()), Ok("-".to_string())]
    );
    assert_eq!(find_files(&strings(&["a"]), false, &[vec![]]), vec![]);
    // A path without a walk contributes nothing.
    assert_eq!(find_files(&strings(&["a", "-"]), true, &[]), vec![Ok("-".to_string())]);
    assert_eq!(find_files(&[], true, &[]), vec![]);
}
