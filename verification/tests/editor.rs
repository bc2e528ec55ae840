use saphedit::editor::{
    EditorAction, EditorMode, InputEvent, Key, KeyBind, LogicState, CTRL_MOD,
};

fn state_with(text: &str, col: usize, row: usize, lines: usize) -> LogicState {
    LogicState {
        exit: false,
        text_buffer: text.to_string(),
        line_count: lines,
        cursor_col: col,
        cursor_row: row,
        mode: EditorMode::Insert,
    }
}

fn key(key: Key) -> InputEvent {
    InputEvent::KeyDown { key: Some(key), modifiers: 0 }
}

fn key_with(key: Key, modifiers: u16) -> InputEvent {
    InputEvent::KeyDown { key: Some(key), modifiers }
}

fn typed(text: &str) -> InputEvent {
    InputEvent::TextInput { text: text.to_string() }
}

fn cursor(state: &LogicState) -> (usize, usize) {
    (state.cursor_col, state.cursor_row)
}

#[test]
fn new_state_is_empty_and_normal() {
    let state = LogicState::new();
    assert!(!state.exit);
    assert_eq!(state.text_buffer, "");
    assert_eq!(state.line_count, 0);
    assert_eq!(cursor(&state), (0, 0));
    assert_eq!(state.mode, EditorMode::Normal);
}

#[test]
fn push_str_moves_the_cursor_right() {
    let mut state = LogicState::new();
    state.push_str("abc");
    assert_eq!(state.text_buffer, "abc");
    assert_eq!(cursor(&state), (3, 0));
    state.push_str("de");
    assert_eq!(state.text_buffer, "abcde");
    assert_eq!(cursor(&state), (5, 0));
}

#[test]
fn push_str_of_nothing_changes_nothing() {
    let mut state = state_with("ab", 2, 0, 0);
    state.push_str("");
    assert_eq!(state.text_buffer, "ab");
    assert_eq!(cursor(&state), (2, 0));
}

#[test]
fn push_str_drops_carriage_returns() {
    let mut state = LogicState::new();
    state.push_str("a\r\nb\r");
    assert_eq!(state.text_buffer, "a\nb");
    assert_eq!(cursor(&state), (1, 1));
}

#[test]
fn push_str_of_only_carriage_returns_changes_nothing() {
    let mut state = state_with("ab", 2, 0, 0);
    state.push_str("\r\r");
    assert_eq!(state.text_buffer, "ab");
    assert_eq!(cursor(&state), (2, 0));
}

#[test]
fn push_str_of_several_lines_moves_down() {
    let mut state = state_with("xy", 2, 0, 0);
    state.push_str("a\nbc\ndef");
    assert_eq!(state.text_buffer, "xya\nbc\ndef");
    assert_eq!(cursor(&state), (3, 2));
    assert_eq!(state.line_count, 0);
}

#[test]
fn push_str_with_one_final_break_stays_on_the_row() {
    let mut state = state_with("xy", 2, 0, 0);
    state.push_str("abc\n");
    assert_eq!(state.text_buffer, "xyabc\n");
    assert_eq!(cursor(&state), (5, 0));
}

#[test]
fn push_str_of_a_lone_break() {
    let mut state = state_with("xy", 2, 0, 0);
    state.push_str("\n");
    assert_eq!(state.text_buffer, "xy\n");
    assert_eq!(cursor(&state), (2, 0));
}

#[test]
fn push_str_of_two_breaks() {
    let mut state = state_with("xy", 2, 0, 0);
    state.push_str("\n\n");
    assert_eq!(cursor(&state), (0, 1));
}

#[test]
fn push_str_ending_in_a_break_after_two_lines() {
    let mut state = state_with("xy", 2, 3, 0);
    state.push_str("a\nbcd\n");
    assert_eq!(cursor(&state), (3, 4));
}

#[test]
fn push_str_counts_characters_not_bytes() {
    let mut state = LogicState::new();
    state.push_str("h\u{e9}llo");
    assert_eq!(cursor(&state), (5, 0));
}

#[test]
fn can_push_ordinary_text() {
    let state = state_with("xy", 2, 0, 0);
    assert!(state.can_push("abc\ndef"));
}

#[test]
fn cannot_push_past_the_last_column() {
    let state = state_with("", usize::MAX - 1, 0, 0);
    assert!(state.can_push("a"));
    assert!(!state.can_push("ab"));
    assert!(state.can_push("a\nbc"));
}

#[test]
fn cannot_push_past_the_last_row() {
    let state = state_with("", 0, usize::MAX, 0);
    assert!(state.can_push("abc"));
    assert!(!state.can_push("a\nb"));
}

#[test]
fn normal_mode_quits() {
    let mut state = LogicState::new();
    state.handle_event_normal(&InputEvent::Quit);
    assert!(state.exit);
    assert_eq!(state.mode, EditorMode::Normal);
}

#[test]
fn normal_mode_enters_insert_mode_on_i() {
    let mut state = LogicState::new();
    state.handle_event_normal(&key(Key::I));
    assert_eq!(state.mode, EditorMode::Insert);
    assert!(!state.exit);
}

#[test]
fn normal_mode_ignores_text_and_other_keys() {
    let mut state = LogicState::new();
    state.handle_event_normal(&typed("abc"));
    state.handle_event_normal(&key(Key::Return));
    state.handle_event_normal(&key(Key::Backspace));
    state.handle_event_normal(&InputEvent::KeyDown { key: None, modifiers: 0 });
    state.handle_event_normal(&InputEvent::Other);
    assert_eq!(state.text_buffer, "");
    assert_eq!(state.mode, EditorMode::Normal);
    assert_eq!(cursor(&state), (0, 0));
}

#[test]
fn insert_mode_quits() {
    let mut state = state_with("ab", 2, 0, 0);
    let action = state.handle_event_insert(&InputEvent::Quit);
    assert!(state.exit);
    assert_eq!(action, EditorAction::Nothing);
}

#[test]
fn escape_returns_to_normal_mode() {
    let mut state = state_with("ab", 2, 0, 0);
    let action = state.handle_event_insert(&key(Key::Escape));
    assert_eq!(state.mode, EditorMode::Normal);
    assert_eq!(state.text_buffer, "ab");
    assert_eq!(action, EditorAction::Nothing);
}

#[test]
fn text_input_is_typed() {
    let mut state = state_with("ab", 2, 0, 0);
    let action = state.handle_event_insert(&typed("cd"));
    assert_eq!(state.text_buffer, "abcd");
    assert_eq!(cursor(&state), (4, 0));
    assert_eq!(action, EditorAction::Nothing);
}

#[test]
fn return_breaks_the_line() {
    let mut state = state_with("ab", 2, 0, 0);
    let action = state.handle_event_insert(&key(Key::Return));
    assert_eq!(state.text_buffer, "ab\n");
    assert_eq!(state.line_count, 1);
    assert_eq!(cursor(&state), (0, 1));
    assert_eq!(action, EditorAction::Nothing);
}

#[test]
fn backspace_erases_a_character() {
    let mut state = state_with("ab", 2, 0, 0);
    state.handle_event_insert(&key(Key::Backspace));
    assert_eq!(state.text_buffer, "a");
    assert_eq!(cursor(&state), (1, 0));
    assert_eq!(state.line_count, 0);
}

#[test]
fn backspace_on_empty_text_does_nothing() {
    let mut state = state_with("", 0, 0, 0);
    assert!(state.accepts(&key(Key::Backspace)));
    state.handle_event_insert(&key(Key::Backspace));
    assert_eq!(state.text_buffer, "");
    assert_eq!(cursor(&state), (0, 0));
}

#[test]
fn backspace_over_a_break_moves_up() {
    let mut state = state_with("ab\n", 3, 1, 1);
    assert!(state.accepts(&key(Key::Backspace)));
    state.handle_event_insert(&key(Key::Backspace));
    assert_eq!(state.text_buffer, "ab");
    assert_eq!(state.line_count, 0);
    assert_eq!(cursor(&state), (2, 0));
}

#[test]
fn backspace_at_the_left_edge_is_not_accepted() {
    let state = state_with("ab\n", 0, 1, 1);
    assert!(!state.accepts(&key(Key::Backspace)));
    let state = state_with("ab", 0, 0, 0);
    assert!(!state.accepts(&key(Key::Backspace)));
}

#[test]
fn backspace_over_a_pasted_break_is_not_accepted() {
    let state = state_with("ab\n", 2, 0, 0);
    assert!(!state.accepts(&key(Key::Backspace)));
    let state = state_with("ab\n", 2, 1, 0);
    assert!(!state.accepts(&key(Key::Backspace)));
    let state = state_with("ab\n", 2, 0, 1);
    assert!(!state.accepts(&key(Key::Backspace)));
}

#[test]
fn left_moves_one_column() {
    let mut state = state_with("abc", 2, 0, 0);
    state.handle_event_insert(&key(Key::Left));
    assert_eq!(cursor(&state), (1, 0));
}

#[test]
fn left_at_the_edge_wraps_to_the_line_above() {
    let mut state = state_with("abcd\nef", 0, 1, 1);
    state.handle_event_insert(&key(Key::Left));
    assert_eq!(cursor(&state), (4, 0));
}

#[test]
fn left_at_the_edge_of_the_first_row_goes_to_its_end() {
    let mut state = state_with("abc", 0, 0, 0);
    state.handle_event_insert(&key(Key::Left));
    assert_eq!(cursor(&state), (3, 0));
}

#[test]
fn left_measures_the_line_above_in_bytes() {
    let mut state = state_with("h\u{e9}\u{20ac}\nx", 0, 1, 1);
    state.handle_event_insert(&key(Key::Left));
    assert_eq!(cursor(&state), (6, 0));
}

#[test]
fn left_on_empty_text_stays_at_the_start() {
    let mut state = state_with("", 0, 0, 0);
    state.handle_event_insert(&key(Key::Left));
    assert_eq!(cursor(&state), (0, 0));
}

#[test]
fn left_from_a_row_without_a_line_above_goes_to_the_start() {
    let mut state = state_with("ab", 0, 5, 0);
    state.handle_event_insert(&key(Key::Left));
    assert_eq!(cursor(&state), (0, 0));
}

#[test]
fn left_onto_an_empty_line() {
    let mut state = state_with("a\n\nb", 0, 2, 2);
    state.handle_event_insert(&key(Key::Left));
    assert_eq!(cursor(&state), (0, 1));
}

#[test]
fn left_leaves_the_text_alone() {
    let mut state = state_with("abcd\nef", 0, 1, 1);
    state.handle_event_insert(&key(Key::Left));
    assert_eq!(state.text_buffer, "abcd\nef");
    assert_eq!(state.line_count, 1);
}

#[test]
fn control_c_asks_for_a_copy() {
    let mut state = state_with("ab", 2, 0, 0);
    assert_eq!(state.handle_event_insert(&key_with(Key::C, 0x0040)), EditorAction::CopyText);
    assert_eq!(state.handle_event_insert(&key_with(Key::C, 0x0080)), EditorAction::CopyText);
    assert_eq!(state.handle_event_insert(&key_with(Key::C, 0x00c0)), EditorAction::CopyText);
    assert_eq!(state.text_buffer, "ab");
    assert_eq!(cursor(&state), (2, 0));
}

#[test]
fn control_v_asks_for_a_paste() {
    let mut state = state_with("ab", 2, 0, 0);
    assert_eq!(state.handle_event_insert(&key_with(Key::V, 0x0040)), EditorAction::PasteText);
    assert_eq!(state.text_buffer, "ab");
}

#[test]
fn control_f_asks_for_the_fonts() {
    let mut state = state_with("ab", 2, 0, 0);
    assert_eq!(state.handle_event_insert(&key_with(Key::F, 0x0080)), EditorAction::PrintFonts);
}

#[test]
fn binding_matches_without_any_modifier() {
    let mut state = state_with("ab", 2, 0, 0);
    assert_eq!(state.handle_event_insert(&key(Key::C)), EditorAction::CopyText);
}

#[test]
fn binding_does_not_match_with_a_foreign_modifier() {
    let mut state = state_with("ab", 2, 0, 0);
    assert_eq!(state.handle_event_insert(&key_with(Key::C, 0x0041)), EditorAction::Nothing);
    assert_eq!(state.handle_event_insert(&key_with(Key::V, 0x0100)), EditorAction::Nothing);
}

#[test]
fn unbound_keys_do_nothing() {
    let mut state = state_with("ab", 2, 0, 0);
    assert_eq!(state.handle_event_insert(&key_with(Key::I, 0x0040)), EditorAction::Nothing);
    assert_eq!(state.handle_event_insert(&key(Key::Other)), EditorAction::Nothing);
    assert_eq!(
        state.handle_event_insert(&InputEvent::KeyDown { key: None, modifiers: 0x0040 }),
        EditorAction::Nothing
    );
    assert_eq!(state.handle_event_insert(&InputEvent::Other), EditorAction::Nothing);
    assert_eq!(state.text_buffer, "ab");
    assert_eq!(cursor(&state), (2, 0));
    assert_eq!(state.mode, EditorMode::Insert);
}

#[test]
fn key_bind_with_control() {
    let bind = KeyBind::ctrl(Key::C);
    assert_eq!(bind, KeyBind { key: Key::C, modifier: CTRL_MOD });
    assert_eq!(CTRL_MOD, 0x00c0);
    assert!(bind.is_pressed(&key_with(Key::C, 0x0040)));
    assert!(!bind.is_pressed(&key_with(Key::V, 0x0040)));
    assert!(!bind.is_pressed(&key_with(Key::C, 0x0001)));
    assert!(!bind.is_pressed(&InputEvent::Quit));
    assert!(!bind.is_pressed(&typed("c")));
}

#[test]
fn accepts_ordinary_events() {
    let state = state_with("ab\ncd", 2, 1, 1);
    assert!(state.accepts(&InputEvent::Quit));
    assert!(state.accepts(&key(Key::Escape)));
    assert!(state.accepts(&key(Key::Left)));
    assert!(state.accepts(&key(Key::Backspace)));
    assert!(state.accepts(&key(Key::Return)));
    assert!(state.accepts(&typed("xyz")));
    assert!(state.accepts(&InputEvent::Other));
}

#[test]
fn return_at_the_last_row_is_not_accepted() {
    let state = state_with("", 0, usize::MAX, 0);
    assert!(!state.accepts(&key(Key::Return)));
    let state = state_with("", 0, 0, usize::MAX);
    assert!(!state.accepts(&key(Key::Return)));
}

#[test]
fn typing_session() {
    let mut state = LogicState::new();
    state.handle_event_normal(&key(Key::I));
    for event in [typed("fn"), typed(" "), typed("main"), key(Key::Return), typed("x")] {
        assert!(state.accepts(&event));
        state.handle_event_insert(&event);
    }
    assert_eq!(state.text_buffer, "fn main\nx");
    assert_eq!(cursor(&state), (1, 1));
    assert_eq!(state.line_count, 1);
    state.handle_event_insert(&key(Key::Backspace));
    state.handle_event_insert(&key(Key::Left));
    assert_eq!(cursor(&state), (7, 0));
    assert!(!state.text_buffer.contains('\r'));
}

#[test]
fn left_does_not_count_the_return_of_a_line_ending() {
    let mut state = state_with("abcd\r\nef", 0, 1, 1);
    assert!(state.accepts(&key(Key::Left)));
    state.handle_event_insert(&key(Key::Left));
    assert_eq!(cursor(&state), (4, 0));
    let mut state = state_with("ab\r", 0, 0, 0);
    state.handle_event_insert(&key(Key::Left));
    assert_eq!(cursor(&state), (3, 0));
}
