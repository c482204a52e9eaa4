use editor_core::buffer::{Buffer, Selection};

fn buffer_at(text: &str, start: usize, end: usize) -> Buffer {
    let mut b = Buffer::new(text.to_string());
    b.selections[0] = Selection { start, end };
    b
}

#[test]
fn new_buffer_has_one_selection_over_first_char() {
    let mut b = Buffer::new("ab\ncd\n".to_string());
    assert_eq!(b.selections, vec![Selection { start: 0, end: 1 }]);
    assert_eq!(b.scroll_col, None);
    assert_eq!(b.len_lines(), 3);
    assert_eq!(b.data.len_chars(), 6);
}

#[test]
fn right_three_times_crosses_the_newline() {
    let mut b = Buffer::new("ab\ncd\n".to_string());
    b.select_char_right();
    b.select_char_right();
    b.select_char_right();
    assert_eq!(b.get_root_selection(), Selection { start: 3, end: 4 });
    assert_eq!(b.get_root_selection_line(), 1);
    assert_eq!(b.get_root_selection_col(), 0);
    assert_eq!(b.scroll_col, Some(0));
}

#[test]
fn right_then_left_restores_the_selection() {
    let mut b = buffer_at("hello\nworld", 3, 5);
    b.select_char_right();
    assert_eq!(b.get_root_selection(), Selection { start: 4, end: 6 });
    b.select_char_left();
    assert_eq!(b.get_root_selection(), Selection { start: 3, end: 5 });
}

#[test]
fn right_is_a_no_op_at_the_end_of_the_document() {
    let mut b = buffer_at("abc", 2, 3);
    b.select_char_right();
    assert_eq!(b.get_root_selection(), Selection { start: 2, end: 3 });
    assert_eq!(b.scroll_col, None);
}

#[test]
fn left_is_a_no_op_at_the_start_of_the_document() {
    let mut b = Buffer::new("abc".to_string());
    b.select_char_left();
    assert_eq!(b.get_root_selection(), Selection { start: 0, end: 1 });
    assert_eq!(b.scroll_col, None);
}

#[test]
fn left_remembers_the_new_column() {
    let mut b = buffer_at("abc\ndef", 6, 7);
    b.select_char_left();
    assert_eq!(b.get_root_selection(), Selection { start: 5, end: 6 });
    assert_eq!(b.scroll_col, Some(1));
}

#[test]
fn down_twice_keeps_the_desired_column_through_a_short_line() {
    // Lines of lengths 5, 2 and 8 (line feeds included).
    let mut b = buffer_at("abcd\nx\n1234567\n", 4, 5);
    b.select_char_down();
    assert_eq!(b.get_root_selection_line(), 1);
    assert_eq!(b.get_root_selection_col(), 1);
    assert_eq!(b.get_root_selection(), Selection { start: 6, end: 7 });
    assert_eq!(b.scroll_col, Some(4));
    b.select_char_down();
    assert_eq!(b.get_root_selection_line(), 2);
    assert_eq!(b.get_root_selection_col(), 4);
    assert_eq!(b.get_root_selection(), Selection { start: 11, end: 12 });
    assert_eq!(b.scroll_col, Some(4));
}

#[test]
fn down_then_up_on_uniform_lines_returns_to_the_same_column() {
    let mut b = buffer_at("abc\ndef\nghi", 2, 3);
    b.select_char_down();
    assert_eq!(b.get_root_selection(), Selection { start: 6, end: 7 });
    b.select_char_up();
    assert_eq!(b.get_root_selection(), Selection { start: 2, end: 3 });
    assert_eq!(b.scroll_col, Some(2));
}

#[test]
fn down_keeps_the_selection_width() {
    let mut b = buffer_at("abcdef\nghijkl\n", 1, 4);
    b.select_char_down();
    assert_eq!(b.get_root_selection(), Selection { start: 8, end: 11 });
}

#[test]
fn down_on_the_last_line_is_a_no_op() {
    let mut b = buffer_at("abc\ndef", 5, 6);
    b.select_char_down();
    assert_eq!(b.get_root_selection(), Selection { start: 5, end: 6 });
    assert_eq!(b.scroll_col, None);
}

#[test]
fn up_on_the_first_line_is_a_no_op() {
    let mut b = buffer_at("abc\ndef", 1, 2);
    b.select_char_up();
    assert_eq!(b.get_root_selection(), Selection { start: 1, end: 2 });
    assert_eq!(b.scroll_col, None);
}

#[test]
fn down_onto_the_last_line_clamps_to_its_length() {
    // The last line has no line feed: the cursor may stand after its last
    // character.
    let mut b = buffer_at("abcdef\nxy", 5, 6);
    b.select_char_down();
    assert_eq!(b.get_root_selection(), Selection { start: 9, end: 10 });
    assert_eq!(b.get_root_selection_col(), 2);
}

#[test]
fn down_onto_an_empty_last_line() {
    let mut b = buffer_at("abc\n", 2, 3);
    b.select_char_down();
    assert_eq!(b.get_root_selection(), Selection { start: 4, end: 5 });
    assert_eq!(b.get_root_selection_line(), 1);
}

#[test]
fn up_with_column_memory_goes_back_to_the_remembered_column() {
    let mut b = buffer_at("abcdef\nx\nabcdef", 5, 6);
    b.select_char_down();
    assert_eq!(b.get_root_selection(), Selection { start: 8, end: 9 });
    b.select_char_down();
    assert_eq!(b.get_root_selection(), Selection { start: 14, end: 15 });
    b.select_char_up();
    b.select_char_up();
    assert_eq!(b.get_root_selection(), Selection { start: 5, end: 6 });
}

#[test]
fn columns_count_characters_not_bytes() {
    let mut b = buffer_at("héllo\nwörld", 4, 5);
    b.select_char_down();
    assert_eq!(b.get_root_selection(), Selection { start: 10, end: 11 });
    assert_eq!(b.get_root_selection_col(), 4);
}
