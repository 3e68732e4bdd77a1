use textutils::comm::{lower_all, Column, Config, ConfigError};

fn strings(lines: &[&str]) -> Vec<String> {
    lines.iter().map(|l| l.to_string()).collect()
}

fn config(show1: bool, show2: bool, show3: bool, insensitive: bool, delimiter: &str) -> Config {
    Config {
        file1: "a".to_string(),
        file2: "b".to_string(),
        show_col1: show1,
        show_col2: show2,
        show_col3: show3,
        insensitive,
        delimiter: delimiter.to_string(),
    }
}

#[test]
fn comm_refuses_the_standard_input_twice() {
    let mut settings = config(true, true, true, false, "\t");
    assert_eq!(settings.check(), Ok(()));
    settings.file1 = "-".to_string();
    assert_eq!(settings.check(), Ok(()));
    settings.file2 = "-".to_string();
    assert_eq!(settings.check(), Err(ConfigError::BothStdin));
    assert_eq!(
        ConfigError::BothStdin.to_string(),
        "Both input files cannot be STDIN (\"-\")"
    );
    settings.file1 = "--".to_string();
    assert_eq!(settings.check(), Ok(()));
}

#[test]
fn comm_places_each_line_in_its_column() {
    let settings = config(true, true, true, false, "\t");
    let first = strings(&["a", "b", "d"]);
    let second = strings(&["b", "c", "d", "e"]);
    assert_eq!(settings.merge(&first, &second), vec!["a", "\t\tb", "\tc", "\t\td", "\te"]);
    assert_eq!(settings.merge(&first, &[]), vec!["a", "b", "d"]);
    assert_eq!(settings.merge(&[], &second), vec!["\tb", "\tc", "\td", "\te"]);
    assert_eq!(settings.merge(&[], &[]), Vec::<String>::new());
}

#[test]
fn comm_hides_columns() {
    let first = strings(&["a", "b"]);
    let second = strings(&["b", "c"]);
    assert_eq!(config(false, true, true, false, "\t").merge(&first, &second), vec!["\tb", "c"]);
    assert_eq!(config(true, false, true, false, "\t").merge(&first, &second), vec!["a", "\tb"]);
    assert_eq!(config(true, true, false, false, "\t").merge(&first, &second), vec!["a", "\tc"]);
    assert_eq!(config(false, false, true, false, "\t").merge(&first, &second), vec!["b"]);
    assert_eq!(
        config(false, false, false, false, "\t").merge(&first, &second),
        Vec::<String>::new()
    );
    assert_eq!(
        config(true, true, true, false, "--").merge(&first, &second),
        vec!["a", "----b", "--c"]
    );
}

#[test]
fn comm_orders_lines_by_their_bytes() {
    let settings = config(true, true, true, false, "|");
    // "B" comes before "a", and a prefix before what it is a prefix of.
    assert_eq!(
        settings.merge(&strings(&["B", "ab"]), &strings(&["a", "abc"])),
        vec!["B", "|a", "ab", "|abc"]
    );
    assert_eq!(settings.merge(&strings(&["é"]), &strings(&["z"])), vec!["|z", "é"]);
    // Inputs that are not sorted are merged as they come.
    assert_eq!(
        settings.merge(&strings(&["b", "a"]), &strings(&["a"])),
        vec!["|a", "b", "a"]
    );
}

#[test]
fn comm_can_ignore_case() {
    let first = strings(&["Apple", "Banana"]);
    let second = strings(&["apple", "CHERRY"]);
    assert_eq!(
        config(true, true, true, true, "\t").comm(&first, &second),
        vec!["\t\tapple", "banana", "\tcherry"]
    );
    assert_eq!(
        config(true, true, true, false, "\t").comm(&first, &second),
        vec!["Apple", "Banana", "\tapple", "\tCHERRY"]
    );
    assert_eq!(lower_all(&strings(&["ÀB", "c"])), vec!["àb", "c"]);
}

#[test]
fn comm_formats_one_line() {
    let settings = config(true, false, true, false, ";");
    assert_eq!(settings.column_line(Column::Col1, "x"), Some("x".to_string()));
    assert_eq!(settings.column_line(Column::Col2, "x"), None);
    assert_eq!(settings.column_line(Column::Col3, "x"), Some(";x".to_string()));
}
