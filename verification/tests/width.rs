use kyuri::width::add_held;
use kyuri::width::count_rows;
use kyuri::width::effective_width;
use kyuri::width::rows_for;

#[test]
fn an_unknown_width_is_eighty_columns() {
    assert_eq!(effective_width(0), 80);
    assert_eq!(effective_width(1), 1);
    assert_eq!(effective_width(132), 132);
    assert_eq!(effective_width(u16::MAX), u16::MAX);
}

#[test]
fn a_line_wraps_at_the_width() {
    assert_eq!(rows_for(0, 80), 1);
    assert_eq!(rows_for(1, 80), 1);
    assert_eq!(rows_for(80, 80), 1);
    assert_eq!(rows_for(81, 80), 2);
    assert_eq!(rows_for(160, 80), 2);
    assert_eq!(rows_for(161, 80), 3);
    assert_eq!(rows_for(7, 1), 7);
    assert_eq!(rows_for(81, 0), 2);
    assert_eq!(rows_for(usize::MAX, 1), usize::MAX);
    assert_eq!(rows_for(usize::MAX, 2), usize::MAX / 2 + 1);
}

#[test]
fn sums_are_held_to_what_can_be_counted() {
    assert_eq!(add_held(2, 3), 5);
    assert_eq!(add_held(usize::MAX, 0), usize::MAX);
    assert_eq!(add_held(usize::MAX, 1), usize::MAX);
    assert_eq!(add_held(usize::MAX - 1, 1), usize::MAX);
    assert_eq!(add_held(usize::MAX, usize::MAX), usize::MAX);
}

#[test]
fn rows_are_counted_line_by_line() {
    assert_eq!(count_rows("", 80), 1);
    assert_eq!(count_rows("abc", 80), 1);
    assert_eq!(count_rows("abc\ndef", 80), 2);
    assert_eq!(count_rows("abc\n", 80), 2);
    assert_eq!(count_rows("\n\n", 80), 3);
    assert_eq!(count_rows("abcdefgh\nab", 4), 3);
    assert_eq!(count_rows("abcdefghi\nab", 4), 4);
}

#[test]
fn rows_go_by_display_columns_not_characters() {
    // Five characters of two columns each.
    assert_eq!(count_rows("こんにちは", 10), 1);
    assert_eq!(count_rows("こんにちは", 9), 2);
    assert_eq!(count_rows("こんにちは", 5), 2);
    assert_eq!(count_rows("こんにちは", 4), 3);
    // A combining accent takes no column.
    assert_eq!(count_rows("e\u{301}e\u{301}", 2), 1);
    // Five bytes, one column.
    assert_eq!(count_rows("\u{1F4A5}", 2), 1);
    assert_eq!(count_rows("\u{1F4A5}\u{1F4A5}", 2), 2);
}
