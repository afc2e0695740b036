//! The grapheme-aware search editor and its history.

use git_forge::search::SearchState;

fn type_str(ed: &mut SearchState, s: &str) {
    for c in s.chars() {
        ed.insert_char_at_cursor(c);
    }
}

#[test]
fn test_insert_and_cursor() {
    let mut ed = SearchState::new();
    type_str(&mut ed, "abc");
    assert_eq!(ed.current_query(), "abc");
    assert_eq!(ed.grapheme_count(), 3);
    assert_eq!(ed.cursor_position(), 3);

    ed.move_cursor_left();
    ed.insert_char_at_cursor('x');
    assert_eq!(ed.current_query(), "abxc");
    assert_eq!(ed.cursor_position(), 3);
}

#[test]
fn test_grapheme_round_trip_combining_accent() {
    let mut ed = SearchState::new();
    type_str(&mut ed, "e");
    let before_query = ed.current_query();
    let before_cursor = ed.cursor_position();

    // combining acute accent merges with the 'e' into one grapheme
    ed.insert_char_at_cursor('\u{0301}');
    assert_eq!(ed.grapheme_count(), 1);

    // deleting one grapheme removes the whole cluster; the original had
    // one grapheme too, so this lands back at the empty buffer
    ed.delete_char_before_cursor();
    assert_eq!(ed.current_query(), "");
    assert_eq!(ed.cursor_position(), 0);

    // and round-trip at the single-character level as well
    type_str(&mut ed, "e");
    assert_eq!(ed.current_query(), before_query);
    assert_eq!(ed.cursor_position(), before_cursor);
}

#[test]
fn test_grapheme_round_trip_flag_emoji() {
    let mut ed = SearchState::new();
    type_str(&mut ed, "a");
    let before_query = ed.current_query();
    let before_cursor = ed.cursor_position();

    // two regional indicators form a single flag grapheme
    type_str(&mut ed, "\u{1F1E9}\u{1F1EA}");
    assert_eq!(ed.grapheme_count(), 2);
    assert_eq!(ed.cursor_position(), 2);

    ed.delete_char_before_cursor();
    assert_eq!(ed.current_query(), before_query);
    assert_eq!(ed.cursor_position(), before_cursor);
}

#[test]
fn test_cursor_bound_over_operation_sequence() {
    let mut ed = SearchState::new();
    let check = |ed: &SearchState| {
        assert!(ed.cursor_position() <= ed.grapheme_count());
    };
    check(&ed);
    type_str(&mut ed, "hello world");
    check(&ed);
    ed.move_cursor_left_word();
    check(&ed);
    ed.delete_word_after_cursor();
    check(&ed);
    type_str(&mut ed, "w\u{0301}orld");
    check(&ed);
    ed.move_cursor_to_start();
    check(&ed);
    ed.delete_char_after_cursor();
    check(&ed);
    ed.move_cursor_right();
    ed.move_cursor_right_word();
    check(&ed);
    ed.delete_word_before_cursor();
    check(&ed);
    ed.move_cursor_to_end();
    ed.delete_char_before_cursor();
    check(&ed);
    ed.clear();
    check(&ed);
    ed.move_cursor_left();
    check(&ed);
}

#[test]
fn test_delete_word_before_cursor() {
    let mut ed = SearchState::new();
    type_str(&mut ed, "one two  ");
    ed.delete_word_before_cursor();
    assert_eq!(ed.current_query(), "one ");
    ed.delete_word_before_cursor();
    assert_eq!(ed.current_query(), "");
}

#[test]
fn test_delete_word_after_cursor() {
    let mut ed = SearchState::new();
    type_str(&mut ed, "one two");
    ed.move_cursor_to_start();
    ed.delete_word_after_cursor();
    assert_eq!(ed.current_query(), " two");
    ed.delete_word_after_cursor();
    assert_eq!(ed.current_query(), "");
}

#[test]
fn test_word_movement() {
    let mut ed = SearchState::new();
    type_str(&mut ed, "one two");
    ed.move_cursor_left_word();
    assert_eq!(ed.cursor_position(), 4);
    ed.move_cursor_left_word();
    assert_eq!(ed.cursor_position(), 0);
    ed.move_cursor_right_word();
    assert_eq!(ed.cursor_position(), 4);
    ed.move_cursor_right_word();
    assert_eq!(ed.cursor_position(), 7);
}

#[test]
fn test_display_width_counts_wide_characters() {
    let mut ed = SearchState::new();
    type_str(&mut ed, "a\u{5B57}");
    ed.move_cursor_to_end();
    // 'a' is one column, the CJK character two
    assert_eq!(ed.display_width_up_to_cursor(), 3);
    ed.move_cursor_left();
    assert_eq!(ed.display_width_up_to_cursor(), 1);
}

#[test]
fn test_history_dedup() {
    let mut ed = SearchState::new();
    type_str(&mut ed, "bug");
    ed.save_to_history();
    ed.clear();
    type_str(&mut ed, "fix");
    ed.save_to_history();
    ed.clear();
    type_str(&mut ed, "bug");
    ed.save_to_history();
    ed.clear();

    assert_eq!(ed.history_len(), 2);
    assert_eq!(ed.history_entry(0).unwrap(), "fix");
    assert_eq!(ed.history_entry(1).unwrap(), "bug");
}

#[test]
fn test_history_ignores_empty_query() {
    let mut ed = SearchState::new();
    ed.save_to_history();
    assert_eq!(ed.history_len(), 0);
}

#[test]
fn test_history_cap_evicts_oldest() {
    let mut ed = SearchState::new();
    for i in 0..101u32 {
        for c in format!("query{}", i).chars() {
            ed.insert_char_at_cursor(c);
        }
        ed.save_to_history();
        ed.clear();
    }
    assert_eq!(ed.history_len(), 100);
    assert_eq!(ed.history_entry(0).unwrap(), "query1");
    assert_eq!(ed.history_entry(99).unwrap(), "query100");
}

#[test]
fn test_history_navigation() {
    let mut ed = SearchState::new();
    type_str(&mut ed, "bug");
    ed.save_to_history();
    ed.clear();
    type_str(&mut ed, "fix");
    ed.save_to_history();
    ed.clear();

    ed.navigate_history_up();
    assert_eq!(ed.current_query(), "fix");
    assert_eq!(ed.cursor_position(), 3);
    ed.navigate_history_up();
    assert_eq!(ed.current_query(), "bug");
    // at the oldest entry a further Up is a no-op
    ed.navigate_history_up();
    assert_eq!(ed.current_query(), "bug");
    ed.navigate_history_down();
    assert_eq!(ed.current_query(), "fix");
    // past the newest entry the query clears and browsing ends
    ed.navigate_history_down();
    assert_eq!(ed.current_query(), "");
    ed.navigate_history_down();
    assert_eq!(ed.current_query(), "");
}
