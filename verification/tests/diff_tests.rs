use nvimcord::get_diff;
use nvimcord::split_lines;

#[test]
fn diff_works() {
    let file1 = "the\nquick\nbrown\nfox";
    let file2 = "teh\nquick\nbrown\nfox\njumps";
    assert_eq!((1, 2), get_diff(file1, file2));
}

#[test]
fn diff_of_identical_texts_is_zero() {
    assert_eq!((0, 0), get_diff("a\nb\nc", "a\nb\nc"));
    assert_eq!((0, 0), get_diff("", ""));
    assert_eq!((0, 0), get_diff("one line", "one line"));
}

#[test]
fn diff_of_pure_append_counts_only_additions() {
    assert_eq!((0, 2), get_diff("a\nb", "a\nb\nc\nd"));
    assert_eq!((0, 3), get_diff("", "x\ny\nz"));
}

#[test]
fn diff_of_trailing_removal_counts_only_deletions() {
    assert_eq!((2, 0), get_diff("a\nb\nc\nd", "a\nb"));
    assert_eq!((3, 0), get_diff("x\ny\nz", ""));
}

#[test]
fn diff_of_replacement_counts_both_sides() {
    assert_eq!((1, 1), get_diff("a", "b"));
    assert_eq!((2, 2), get_diff("a\nkeep\nb", "c\nkeep\nd"));
}

#[test]
fn diff_respects_line_order() {
    // swapped lines are not free: one line must move
    assert_eq!((1, 1), get_diff("a\nb", "b\na"));
}

#[test]
fn split_lines_cuts_at_line_feeds() {
    assert_eq!(Vec::<String>::new(), split_lines(""));
    assert_eq!(vec!["a".to_string(), "b".to_string()], split_lines("a\nb"));
    assert_eq!(vec!["a".to_string(), "b".to_string()], split_lines("a\nb\n"));
    assert_eq!(vec!["a".to_string(), "".to_string(), "b".to_string()], split_lines("a\n\nb"));
}

#[test]
fn split_lines_strips_carriage_return_before_line_feed() {
    assert_eq!(vec!["a".to_string(), "b".to_string()], split_lines("a\r\nb\r\n"));
    // a carriage return not followed by a line feed stays
    assert_eq!(vec!["a".to_string(), "b\r".to_string()], split_lines("a\nb\r"));
}

#[test]
fn diff_ignores_line_terminator_style() {
    assert_eq!((0, 0), get_diff("a\r\nb\r\n", "a\nb"));
}
