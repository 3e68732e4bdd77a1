use textutils::uniq::{find_runs, format_field, uniq, Run};

fn strings(lines: &[&str]) -> Vec<String> {
    lines.iter().map(|l| l.to_string()).collect()
}

#[test]
fn count_field_is_right_aligned_in_four_columns() {
    assert_eq!(format_field(0, true), "   0 ");
    assert_eq!(format_field(7, true), "   7 ");
    assert_eq!(format_field(42, true), "  42 ");
    assert_eq!(format_field(999, true), " 999 ");
    assert_eq!(format_field(1000, true), "1000 ");
    assert_eq!(format_field(12345, true), "12345 ");
    assert_eq!(format_field(usize::MAX, true), format!("{:>4} ", usize::MAX));
    assert_eq!(format_field(3, false), "");
    assert_eq!(format_field(usize::MAX, false), "");
}

#[test]
fn runs_compare_with_their_first_line() {
    let keys = strings(&["a", "a", "b", "a", "a", "a"]);
    assert_eq!(
        find_runs(&keys),
        vec![Run { count: 2, first: 0 }, Run { count: 1, first: 2 }, Run { count: 3, first: 3 }]
    );
    assert_eq!(find_runs(&[]), vec![]);
    assert_eq!(find_runs(&strings(&["x"])), vec![Run { count: 1, first: 0 }]);
}

#[test]
fn uniq_collapses_runs() {
    assert_eq!(uniq(&strings(&[]), true), "");
    assert_eq!(uniq(&strings(&["a\n"]), false), "a\n");
    assert_eq!(uniq(&strings(&["a\n", "a\n", "b\n", "a\n"]), false), "a\nb\na\n");
    assert_eq!(uniq(&strings(&["a\n", "a\n", "b\n", "a\n"]), true), "   2 a\n   1 b\n   1 a\n");
    // Lines are compared without the white space at their ends.
    assert_eq!(uniq(&strings(&["a\n", "  a\t\n", "a"]), true), "   3 a\n");
    assert_eq!(uniq(&strings(&["a\n", "b"]), true), "   1 a\n   1 b");
    // Blank lines form runs of their own.
    assert_eq!(uniq(&strings(&["a\n", "\n", " \n", "b\n"]), true), "   1 a\n   2 \n   1 b\n");
    assert_eq!(uniq(&strings(&["a\n", "\n", "\n"]), true), "   1 a\n   2 \n");
}
