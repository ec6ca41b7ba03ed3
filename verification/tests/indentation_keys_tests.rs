use catomic::app::App;
use catomic::buffer::{Cursor, TextBuffer};
use catomic::indentation::cell_column;
use catomic::input::handle_key_with;
use catomic::keys::{KeyCode, KeyEvent};

fn app(text: &str) -> App {
    let mut app = App::new(None);
    app.buffer = TextBuffer::from_text(text);
    app
}

fn press(app: &mut App, code: KeyCode) {
    let _ = handle_key_with(app, KeyEvent::plain(code));
}

fn undo(app: &mut App) {
    let _ = handle_key_with(app, KeyEvent::ctrl(KeyCode::Char('z')));
}

fn assert_enter_and_undo(app: &mut App, expected: &str, cursor: Cursor) {
    let original = app.buffer.to_string();
    press(app, KeyCode::Enter);
    assert_eq!(app.buffer.to_string(), expected);
    assert_eq!(app.buffer.cursor(), cursor);
    undo(app);
    assert_eq!(app.buffer.to_string(), original);
}

#[test]
fn home_enter_preserves_the_following_lines_indentation() {
    for source in ["    foo", "\tfoo", " \t  foo", "    if ready {"] {
        let mut app = app(source);
        press(&mut app, KeyCode::End);
        press(&mut app, KeyCode::Home);
        assert_enter_and_undo(&mut app, &format!("\n{source}"), Cursor { row: 1, col: 0 });
    }
}

#[test]
fn enter_inside_indentation_copies_only_whitespace_before_the_cursor() {
    for (source, col, expected) in [
        ("    foo", 2, "  \n    foo"),
        ("\t\tfoo", 1, "\t\n\t\tfoo"),
        (" \t  foo", 2, " \t\n \t  foo"),
        ("    if ready {", 1, " \n    if ready {"),
    ] {
        let mut app = app(source);
        for _ in 0..col {
            press(&mut app, KeyCode::Right);
        }
        assert_enter_and_undo(&mut app, expected, Cursor { row: 1, col });
    }
}

#[test]
fn end_enter_keeps_inherited_indentation() {
    for (source, prefix) in [("    foo", "    "), (" \tfoo", " \t"), ("   ", "   ")] {
        let mut app = app(source);
        press(&mut app, KeyCode::End);
        assert_enter_and_undo(
            &mut app,
            &format!("{source}\n{prefix}"),
            Cursor { row: 1, col: prefix.chars().count() },
        );
    }
}

#[test]
fn end_enter_after_a_block_opener_keeps_the_configured_extra_level() {
    for opener in ['{', '[', '(', ':'] {
        let source = format!("  block {opener}  ");
        let mut app = app(&source);
        app.tab_width = 3;
        press(&mut app, KeyCode::End);
        assert_enter_and_undo(&mut app, &format!("{source}\n     "), Cursor { row: 1, col: 5 });
    }
}

#[test]
fn enter_before_a_block_opener_does_not_add_an_extra_level() {
    let mut app = app("  if ready {");
    press(&mut app, KeyCode::End);
    press(&mut app, KeyCode::Left);
    assert_enter_and_undo(&mut app, "  if ready \n  {", Cursor { row: 1, col: 2 });
}

#[test]
fn enter_replacing_leading_whitespace_uses_the_selection_start() {
    let mut app = app("    foo");
    for _ in 0..2 {
        let _ = handle_key_with(&mut app, KeyEvent { code: KeyCode::Right, ctrl: false, alt: false, shift: true });
    }
    assert_enter_and_undo(&mut app, "\n  foo", Cursor { row: 1, col: 0 });
}

fn assert_tab_stops(prefix: &str, visual_col: usize) {
    for width in [2, 3, 4, 8] {
        let mut app = App::new(None);
        app.tab_width = width;
        app.buffer = TextBuffer::from_text(prefix);
        app.buffer.set_cursor(Cursor { row: 0, col: prefix.chars().count() });
        press(&mut app, KeyCode::Tab);

        let spaces = width - visual_col % width;
        let expected = format!("{prefix}{}", " ".repeat(spaces));
        assert_eq!(app.buffer.to_string(), expected, "tab_size={width}");
        let text: Vec<char> = app.buffer.to_string().chars().collect();
        assert_eq!(cell_column(&text, app.buffer.cursor().col) as usize, visual_col + spaces);
        undo(&mut app);
        assert_eq!(app.buffer.to_string(), prefix);
    }
}

#[test]
fn tab_stops_after_ascii_use_configured_visual_columns() {
    assert_tab_stops("abc", 3);
}

#[test]
fn tab_stops_after_wide_characters_use_configured_visual_columns() {
    assert_tab_stops("猫", 2);
}

#[test]
fn tab_stops_after_combining_sequences_use_configured_visual_columns() {
    assert_tab_stops("e\u{301}", 1);
}

#[test]
fn tab_stops_after_literal_tabs_use_configured_visual_columns() {
    assert_tab_stops("\t", 4);
}

#[test]
fn tab_stops_after_zwj_emoji_use_configured_visual_columns() {
    assert_tab_stops("👩\u{200d}💻", 2);
}

#[test]
fn tab_stops_use_the_language_override_and_one_edit_per_key() {
    let mut app = App::new(None);
    app.tab_width = 8;
    app.buffer = TextBuffer::from_text("猫\te\u{301}");
    app.buffer.set_cursor(Cursor { row: 0, col: 4 });

    press(&mut app, KeyCode::Tab);
    assert_eq!(app.buffer.to_string(), "猫\te\u{301}   ");
    press(&mut app, KeyCode::Tab);
    assert_eq!(app.buffer.to_string(), "猫\te\u{301}           ");
    undo(&mut app);
    assert_eq!(app.buffer.to_string(), "猫\te\u{301}   ");
    undo(&mut app);
    assert_eq!(app.buffer.to_string(), "猫\te\u{301}");
}

#[test]
fn cold_tab_after_a_hidden_unicode_prefix_uses_absolute_cells() {
    let prefix = format!("猫{}e\u{301}\t", "x".repeat(20_000));
    let chars: Vec<char> = prefix.chars().collect();
    let cells = cell_column(&chars, chars.len()) as usize;
    let mut app = App::new(None);
    app.buffer = TextBuffer::from_text(&prefix);
    press(&mut app, KeyCode::End);
    assert!(app.screen.scroll_left > 0);
    press(&mut app, KeyCode::Tab);
    assert_eq!(app.buffer.to_string(), format!("{prefix}{}", " ".repeat(4 - cells % 4)));
    undo(&mut app);
    assert_eq!(app.buffer.to_string(), prefix);
}
