use ui::input::Command;
use ui::input::Effect;
use ui::input::Highlight;
use ui::input::ImeState;
use ui::input::LayoutQuery;
use ui::input::Run;
use ui::input::TextInput;

fn input_with(text: &str) -> TextInput {
    let mut input = TextInput::new();
    input.set_text(text);
    input
}

#[test]
fn new_input_is_empty_with_caret_at_zero() {
    let input = TextInput::new();
    assert_eq!(input.text(), "");
    assert_eq!(input.placeholder(), "");
    assert_eq!(input.selected_range(), 0..0);
    assert!(!input.selection_reversed());
    assert_eq!(input.marked_range(), None);
    assert!(!input.is_disabled());
    assert!(!input.is_masked());
    assert!(input.has_appearance());
    assert_eq!(input.cursor_offset(), 0);
}

#[test]
fn set_text_puts_caret_at_end() {
    let input = input_with("hello");
    assert_eq!(input.text(), "hello");
    assert_eq!(input.selected_range(), 5..5);
}

#[test]
fn set_text_ends_composition() {
    let mut input = TextInput::new();
    input.replace_and_mark_text_in_range(None, "abc", None);
    assert_eq!(input.marked_range(), Some(0..3));
    input.set_text("x");
    assert_eq!(input.marked_range(), None);
    assert_eq!(input.selected_range(), 1..1);
}

#[test]
fn typing_at_caret_inserts_and_moves_caret() {
    let mut input = input_with("hello");
    input.replace_text_in_range(None, " world");
    assert_eq!(input.text(), "hello world");
    assert_eq!(input.selected_range(), 11..11);
    assert_eq!(input.marked_range(), None);
}

#[test]
fn backspace_deletes_selection() {
    let mut input = input_with("hello world");
    input.move_to(5);
    input.select_to(11);
    assert_eq!(input.selected_range(), 5..11);
    assert_eq!(input.copy(), " world");
    input.backspace();
    assert_eq!(input.text(), "hello");
    assert_eq!(input.selected_range(), 5..5);
}

#[test]
fn backspace_deletes_whole_flag_cluster() {
    let mut input = input_with("hi\u{1F1E9}\u{1F1EA}");
    assert_eq!(input.selected_range(), 10..10);
    input.backspace();
    assert_eq!(input.text(), "hi");
    assert_eq!(input.selected_range(), 2..2);
}

#[test]
fn backspace_deletes_combining_sequence_at_once() {
    let mut input = input_with("ae\u{301}");
    input.backspace();
    assert_eq!(input.text(), "a");
    input.backspace();
    assert_eq!(input.text(), "");
    input.backspace();
    assert_eq!(input.text(), "");
    assert_eq!(input.selected_range(), 0..0);
}

#[test]
fn delete_removes_cluster_behind_caret() {
    let mut input = input_with("\u{1F1E9}\u{1F1EA}ok");
    input.home();
    input.delete();
    assert_eq!(input.text(), "ok");
    assert_eq!(input.selected_range(), 0..0);
    input.end();
    input.delete();
    assert_eq!(input.text(), "ok");
    assert_eq!(input.selected_range(), 2..2);
}

#[test]
fn composition_previews_then_commits() {
    let mut input = TextInput::new();
    input.replace_and_mark_text_in_range(None, "n", None);
    assert_eq!(input.text(), "n");
    assert_eq!(input.marked_range(), Some(0..1));
    assert_eq!(input.selected_range(), 1..1);
    input.replace_and_mark_text_in_range(None, "ni", None);
    assert_eq!(input.text(), "ni");
    assert_eq!(input.marked_range(), Some(0..2));
    input.replace_text_in_range(None, "\u{4F60}");
    assert_eq!(input.text(), "\u{4F60}");
    assert_eq!(input.marked_range(), None);
    assert_eq!(input.selected_range(), 3..3);
}

#[test]
fn composition_state_follows_marked_range() {
    let mut input = input_with("ab");
    assert!(matches!(input.ime_state(), ImeState::Idle));
    input.replace_and_mark_text_in_range(None, "xy", None);
    match input.ime_state() {
        ImeState::Composing(range) => assert_eq!(range, 2..4),
        ImeState::Idle => panic!("a preview starts a composition"),
    }
    assert_eq!(input.marked_text_range(), Some(2..4));
    input.unmark_text();
    assert!(matches!(input.ime_state(), ImeState::Idle));
    assert_eq!(input.marked_text_range(), None);
    assert_eq!(input.text(), "abxy");
}

#[test]
fn select_to_swaps_bounds_when_crossing_anchor() {
    let mut input = input_with("hello world");
    input.move_to(5);
    input.select_to(2);
    assert_eq!(input.selected_range(), 2..5);
    assert!(input.selection_reversed());
    assert_eq!(input.cursor_offset(), 2);
    input.select_to(8);
    assert_eq!(input.selected_range(), 5..8);
    assert!(!input.selection_reversed());
    assert_eq!(input.cursor_offset(), 8);
}

#[test]
fn move_to_clears_direction() {
    let mut input = input_with("hello");
    input.select_to(1);
    assert!(input.selection_reversed());
    input.move_to(3);
    assert_eq!(input.selected_range(), 3..3);
    assert!(!input.selection_reversed());
}

#[test]
fn offsets_past_the_end_count_as_the_end() {
    let mut input = input_with("hello");
    input.move_to(100);
    assert_eq!(input.selected_range(), 5..5);
    input.move_to(1);
    input.select_to(usize::MAX);
    assert_eq!(input.selected_range(), 1..5);
}

#[test]
fn offsets_inside_a_character_round_down() {
    let mut input = input_with("\u{4F60}\u{597D}");
    input.move_to(1);
    assert_eq!(input.selected_range(), 0..0);
    input.select_to(5);
    assert_eq!(input.selected_range(), 0..3);
    input.move_to(6);
    assert_eq!(input.selected_range(), 6..6);
}

#[test]
fn selection_stays_ordered_over_many_moves() {
    let mut input = input_with("a\u{1F600}b\u{4F60}c");
    let offsets = [0usize, 3, 9, 1, 7, 50, 2, 10, 0, 6];
    for (i, offset) in offsets.iter().enumerate() {
        if i % 3 == 0 {
            input.move_to(*offset);
        } else {
            input.select_to(*offset);
        }
        let range = input.selected_range();
        assert!(range.start <= range.end);
        assert!(range.end <= input.text().len());
        assert!(input.text().is_char_boundary(range.start));
        assert!(input.text().is_char_boundary(range.end));
    }
}

#[test]
fn left_and_right_cross_one_cluster() {
    let mut input = input_with("a\u{1F1E9}\u{1F1EA}b");
    input.left();
    assert_eq!(input.selected_range(), 9..9);
    input.left();
    assert_eq!(input.selected_range(), 1..1);
    input.left();
    assert_eq!(input.selected_range(), 0..0);
    input.left();
    assert_eq!(input.selected_range(), 0..0);
    input.right();
    assert_eq!(input.selected_range(), 1..1);
    input.right();
    assert_eq!(input.selected_range(), 9..9);
    input.right();
    assert_eq!(input.selected_range(), 10..10);
    input.right();
    assert_eq!(input.selected_range(), 10..10);
}

#[test]
fn left_and_right_collapse_a_selection() {
    let mut input = input_with("hello");
    input.move_to(1);
    input.select_to(4);
    input.left();
    assert_eq!(input.selected_range(), 1..1);
    input.select_to(4);
    input.right();
    assert_eq!(input.selected_range(), 4..4);
}

#[test]
fn select_left_and_right_extend_by_cluster() {
    let mut input = input_with("ae\u{301}b");
    input.move_to(4);
    input.select_left();
    assert_eq!(input.selected_range(), 1..4);
    assert!(input.selection_reversed());
    input.select_left();
    assert_eq!(input.selected_range(), 0..4);
    input.select_right();
    assert_eq!(input.selected_range(), 1..4);
    input.select_right();
    assert_eq!(input.selected_range(), 4..4);
    input.select_right();
    assert_eq!(input.selected_range(), 4..5);
    assert!(!input.selection_reversed());
}

#[test]
fn select_all_selects_left_to_right() {
    let mut input = input_with("hello");
    input.select_to(2);
    input.select_all();
    assert_eq!(input.selected_range(), 0..5);
    assert!(!input.selection_reversed());
}

#[test]
fn home_and_end_move_the_caret() {
    let mut input = input_with("hello");
    input.home();
    assert_eq!(input.selected_range(), 0..0);
    input.end();
    assert_eq!(input.selected_range(), 5..5);
    input.move_to_start_of_line();
    assert_eq!(input.selected_range(), 0..0);
    input.move_to_end_of_line();
    assert_eq!(input.selected_range(), 5..5);
}

#[test]
fn replace_range_prefers_explicit_then_marked_then_selection() {
    let mut input = input_with("abcdef");
    input.move_to(1);
    input.select_to(2);
    input.replace_range(Some(4..6), "X");
    assert_eq!(input.text(), "abcdX");
    assert_eq!(input.selected_range(), 5..5);

    let mut input = input_with("abcdef");
    input.replace_and_mark_range(Some(0..1), "zz", None);
    assert_eq!(input.text(), "zzbcdef");
    input.move_to(7);
    input.replace_range(None, "Q");
    assert_eq!(input.text(), "Qbcdef");
    assert_eq!(input.selected_range(), 1..1);
    assert_eq!(input.marked_range(), None);

    let mut input = input_with("abcdef");
    input.move_to(1);
    input.select_to(3);
    input.replace_range(None, "-");
    assert_eq!(input.text(), "a-def");
    assert_eq!(input.selected_range(), 2..2);
}

#[test]
fn replace_range_takes_inverted_range_as_empty() {
    let mut input = input_with("hello");
    input.replace_range(Some(3..1), "X");
    assert_eq!(input.text(), "helXlo");
    assert_eq!(input.selected_range(), 4..4);
}

#[test]
fn replace_range_rounds_into_the_text() {
    let mut input = input_with("\u{4F60}\u{597D}");
    input.replace_range(Some(1..40), "a");
    assert_eq!(input.text(), "a");
    assert_eq!(input.selected_range(), 1..1);
}

#[test]
fn replace_and_mark_range_places_selection_inside_new_text() {
    let mut input = input_with("ab");
    input.replace_and_mark_range(None, "xyz", Some(1..2));
    assert_eq!(input.text(), "abxyz");
    assert_eq!(input.marked_range(), Some(2..5));
    assert_eq!(input.selected_range(), 3..4);
    assert!(!input.selection_reversed());
}

#[test]
fn ime_preview_selection_is_counted_in_code_units_of_new_text() {
    let mut input = input_with("\u{4F60}");
    input.replace_and_mark_text_in_range(None, "\u{1F600}x", Some(2..3));
    assert_eq!(input.text(), "\u{4F60}\u{1F600}x");
    assert_eq!(input.marked_range(), Some(3..8));
    assert_eq!(input.selected_range(), 7..8);
    assert_eq!(input.marked_text_range(), Some(1..4));
    assert_eq!(input.selected_text_range(), Some(3..4));
}

#[test]
fn ime_commit_takes_range_in_code_units() {
    let mut input = input_with("a\u{1F600}b");
    input.replace_text_in_range(Some(1..3), "-");
    assert_eq!(input.text(), "a-b");
    assert_eq!(input.selected_range(), 2..2);
}

#[test]
fn ime_queries_answer_in_code_units() {
    let mut input = input_with("a\u{1F600}b");
    assert_eq!(input.text_for_range(1..3), Some("\u{1F600}".to_string()));
    assert_eq!(input.text_for_range(0..9), Some("a\u{1F600}b".to_string()));
    assert_eq!(input.text_for_range(3..1), Some(String::new()));
    assert_eq!(input.text_for_range(2..4), Some("\u{1F600}b".to_string()));
    input.move_to(1);
    input.select_to(5);
    assert_eq!(input.selected_text_range(), Some(1..3));
    assert_eq!(input.marked_text_range(), None);
}

#[test]
fn disabled_input_refuses_typing_and_deleting() {
    let mut input = input_with("hello");
    input.set_disabled(true);
    assert!(input.is_disabled());
    input.backspace();
    input.delete();
    input.replace_text_in_range(None, "x");
    input.replace_and_mark_text_in_range(None, "y", None);
    assert_eq!(input.text(), "hello");
    assert_eq!(input.selected_range(), 5..5);
    assert_eq!(input.marked_range(), None);
    input.left();
    input.select_to(0);
    assert_eq!(input.selected_range(), 0..4);
    assert_eq!(input.copy(), "hell");
    input.set_disabled(false);
    input.backspace();
    assert_eq!(input.text(), "o");
}

#[test]
fn cut_returns_selection_and_removes_it() {
    let mut input = input_with("hello world");
    input.move_to(0);
    input.select_to(6);
    assert_eq!(input.cut(), "hello ");
    assert_eq!(input.text(), "world");
    assert_eq!(input.selected_range(), 0..0);
    assert_eq!(input.cut(), "");
    assert_eq!(input.text(), "world");
}

#[test]
fn paste_replaces_selection_and_ignores_empty_clipboard() {
    let mut input = input_with("hello world");
    input.move_to(6);
    input.select_to(11);
    input.paste(None);
    assert_eq!(input.text(), "hello world");
    assert_eq!(input.selected_range(), 6..11);
    input.paste(Some("there"));
    assert_eq!(input.text(), "hello there");
    assert_eq!(input.selected_range(), 11..11);
}

#[test]
fn dispatch_maps_each_command() {
    let mut input = input_with("hello");
    assert!(matches!(input.dispatch(Command::Home, None), Effect::Nothing));
    assert_eq!(input.selected_range(), 0..0);
    input.dispatch(Command::MoveRight, None);
    assert_eq!(input.selected_range(), 1..1);
    input.dispatch(Command::SelectRight, None);
    assert_eq!(input.selected_range(), 1..2);
    match input.dispatch(Command::Copy, None) {
        Effect::WriteClipboard(text) => assert_eq!(text, "e"),
        _ => panic!("copy writes to the clipboard"),
    }
    match input.dispatch(Command::Cut, None) {
        Effect::WriteClipboard(text) => assert_eq!(text, "e"),
        _ => panic!("cut writes to the clipboard"),
    }
    assert_eq!(input.text(), "hllo");
    input.dispatch(Command::Paste, Some("EE"));
    assert_eq!(input.text(), "hEEllo");
    input.dispatch(Command::SelectAll, None);
    assert_eq!(input.selected_range(), 0..6);
    input.dispatch(Command::MoveLeft, None);
    assert_eq!(input.selected_range(), 0..0);
    input.dispatch(Command::End, None);
    input.dispatch(Command::SelectLeft, None);
    assert_eq!(input.selected_range(), 5..6);
    input.dispatch(Command::Backspace, None);
    assert_eq!(input.text(), "hEEll");
    input.dispatch(Command::MoveToStartOfLine, None);
    input.dispatch(Command::Delete, None);
    assert_eq!(input.text(), "EEll");
    input.dispatch(Command::MoveToEndOfLine, None);
    assert_eq!(input.selected_range(), 4..4);
    assert!(matches!(
        input.dispatch(Command::ShowCharacterPalette, None),
        Effect::ShowCharacterPalette
    ));
    assert_eq!(input.text(), "EEll");
}

#[test]
fn flags_and_placeholder_are_kept() {
    let mut input = TextInput::new().appearance(false);
    assert!(!input.has_appearance());
    input.set_placeholder("Name");
    input.set_masked(true);
    input.set_text("secret");
    assert_eq!(input.placeholder(), "Name");
    assert!(input.is_masked());
    assert_eq!(input.text(), "secret");
}

#[test]
fn displayed_text_is_placeholder_mask_or_text() {
    let mut input = TextInput::new();
    input.set_placeholder("Name");
    assert_eq!(input.display_text(), "Name");
    input.set_masked(true);
    assert_eq!(input.display_text(), "Name");
    input.set_text("p\u{E4}ss");
    assert_eq!(input.display_text(), "****");
    input.set_masked(false);
    assert_eq!(input.display_text(), "p\u{E4}ss");
}

#[test]
fn runs_underline_the_composition() {
    let mut input = input_with("ab");
    assert_eq!(input.text_runs(), vec![Run { len: 2, underline: false }]);
    input.move_to(1);
    input.replace_and_mark_text_in_range(None, "\u{4F60}", None);
    assert_eq!(input.text(), "a\u{4F60}b");
    assert_eq!(
        input.text_runs(),
        vec![
            Run { len: 1, underline: false },
            Run { len: 3, underline: true },
            Run { len: 1, underline: false },
        ]
    );
    input.set_masked(true);
    assert_eq!(
        input.text_runs(),
        vec![
            Run { len: 1, underline: false },
            Run { len: 1, underline: true },
            Run { len: 1, underline: false },
        ]
    );
    input.set_masked(false);
    input.replace_and_mark_text_in_range(Some(0..3), "xy", None);
    assert_eq!(input.text_runs(), vec![Run { len: 2, underline: true }]);
    input.replace_and_mark_text_in_range(None, "", None);
    assert_eq!(input.text(), "");
    assert_eq!(input.text_runs(), Vec::<Run>::new());
}

#[test]
fn runs_of_placeholder_cover_the_placeholder() {
    let mut input = TextInput::new();
    input.set_placeholder("Name");
    assert_eq!(input.text_runs(), vec![Run { len: 4, underline: false }]);
}

#[test]
fn bounds_are_unknown_before_the_first_layout() {
    let mut input = input_with("a\u{1F600}b");
    assert_eq!(input.last_layout(), None);
    assert_eq!(input.bounds_for_range(0..1), None);
    input.set_last_layout(7);
    assert_eq!(input.last_layout(), Some(7));
    assert_eq!(
        input.bounds_for_range(1..3),
        Some(LayoutQuery { layout: 7, start: 1, end: 5 })
    );
    assert_eq!(
        input.bounds_for_range(3..90),
        Some(LayoutQuery { layout: 7, start: 5, end: 6 })
    );
    input.set_masked(true);
    assert_eq!(
        input.bounds_for_range(1..3),
        Some(LayoutQuery { layout: 7, start: 1, end: 2 })
    );
    assert_eq!(input.display_offset(5), 2);
}

#[test]
fn highlight_is_caret_or_selection_in_displayed_offsets() {
    let mut input = input_with("a\u{4F60}b");
    assert_eq!(input.highlight(), Highlight::Caret(5));
    input.select_to(1);
    assert_eq!(input.highlight(), Highlight::Selection(1, 5));
    input.set_masked(true);
    assert_eq!(input.highlight(), Highlight::Selection(1, 3));
    input.move_to(4);
    assert_eq!(input.highlight(), Highlight::Caret(2));
}
