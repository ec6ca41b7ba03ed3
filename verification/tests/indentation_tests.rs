use catomic::app::App;
use catomic::buffer::{Cursor, TextBuffer};
use catomic::indentation::{handle_tab, insert_newline, newline_with_indent, removable_indent};
use catomic::selection::move_to;

fn app(text: &str, cursor: Cursor) -> App {
    let mut app = App::new(None);
    app.buffer = TextBuffer::from_text(text);
    app.buffer.set_cursor(cursor);
    app
}

fn chars(s: &str) -> Vec<char> {
    s.chars().collect()
}

#[test]
fn newline_inherits_indent_and_adds_one_level_after_block_opener() {
    let mut app = app("  if ready {", Cursor { row: 0, col: 12 });
    insert_newline(&mut app);

    assert_eq!(app.buffer.to_string(), "  if ready {\n      ");
    app.buffer.undo();
    assert_eq!(app.buffer.to_string(), "  if ready {");
}

#[test]
fn tab_indents_selected_lines_without_replacing_them() {
    let mut app = app("one\ntwo", Cursor { row: 1, col: 3 });
    app.buffer.set_cursor(Cursor { row: 0, col: 0 });
    move_to(&mut app, Cursor { row: 1, col: 3 }, true);
    handle_tab(&mut app, false);

    assert_eq!(app.buffer.to_string(), "    one\n    two");
    app.buffer.undo();
    assert_eq!(app.buffer.to_string(), "one\ntwo");
}

#[test]
fn shift_tab_unindents_selected_lines_as_one_edit() {
    let mut app = app("    one\n  two", Cursor { row: 1, col: 5 });
    app.buffer.set_cursor(Cursor { row: 0, col: 0 });
    move_to(&mut app, Cursor { row: 1, col: 5 }, true);
    handle_tab(&mut app, true);

    assert_eq!(app.buffer.to_string(), "one\ntwo");
    app.buffer.undo();
    assert_eq!(app.buffer.to_string(), "    one\n  two");
}

#[test]
fn newline_without_opener_keeps_indent() {
    let text: String = newline_with_indent(&chars("   x"), 4, 4).iter().collect();
    assert_eq!(text, "\n   ");
    let text: String = newline_with_indent(&chars("  f(a,"), 6, 4).iter().collect();
    assert_eq!(text, "\n  ");
}

#[test]
fn removable_indent_is_at_most_one_level() {
    assert_eq!(removable_indent(&chars("      x"), 4), 4);
    assert_eq!(removable_indent(&chars("  x"), 4), 2);
    assert_eq!(removable_indent(&chars("\tx"), 4), 1);
    assert_eq!(removable_indent(&chars("x"), 4), 0);
}

#[test]
fn tab_without_selection_inserts_to_next_tab_stop() {
    let mut app = app("ab", Cursor { row: 0, col: 1 });
    handle_tab(&mut app, false);
    assert_eq!(app.buffer.to_string(), "a   b");
    assert_eq!(app.buffer.cursor(), Cursor { row: 0, col: 4 });
}
