use catomic::app::{App, KeyOutcome};
use catomic::keys::{KeyCode, KeyEvent};

fn key(code: KeyCode) -> KeyEvent {
    KeyEvent::plain(code)
}

fn ctrl(code: KeyCode) -> KeyEvent {
    KeyEvent::ctrl(code)
}

#[test]
fn app_file_state_new_starts_clean() {
    let app = App::new(None);
    assert!(!app.file.dirty, "new app without path starts clean");
    assert!(app.file.path.is_none());
    assert_eq!(app.screen.height, 24);
    assert_eq!(app.screen.scroll_top, 0);

    let app2 = App::new(Some("existing.txt"));
    assert!(!app2.file.dirty, "open (even missing file) starts clean");
    assert_eq!(app2.file.path.as_deref(), Some("existing.txt"));
}

#[test]
fn app_new_has_default_screen_size_and_scroll() {
    let app = App::new(None);
    assert_eq!(app.screen.width, 80, "default width");
    assert_eq!(app.screen.height, 24, "default height (matches prior hardcoded)");
    assert_eq!(app.screen.scroll_top, 0);
}

#[test]
fn app_handle_resize_updates_screen_and_renders() {
    let mut app = App::new(None);
    assert_eq!(app.screen.height, 24);

    let out = app.handle_resize(50, 15);

    assert_eq!(app.screen.width, 50);
    assert_eq!(app.screen.height, 15);
    assert!(out.contains("\x1b[15;1H"), "resize render must position using new screen height");
    assert!(!out.is_empty(), "resize must have triggered a render");
}

#[test]
fn app_resize_smaller_reveals_cursor_row() {
    let mut app = App::new(None);
    for _ in 0..15 {
        app.buffer.insert_newline();
    }
    assert_eq!(app.buffer.cursor().row, 15);
    app.screen.height = 30;
    app.screen.scroll_top = 0;

    let out = app.handle_resize(40, 10);

    assert_eq!(app.screen.height, 10);
    assert!(app.screen.scroll_top > 0, "resize to smaller must reveal; scroll_top={}", app.screen.scroll_top);
    let vh = app.screen.visible_height();
    assert!(
        app.screen.scroll_top <= 15 && 15 < app.screen.scroll_top + vh,
        "cursor row 15 must be visible after small resize; scroll_top={}, vh={}",
        app.screen.scroll_top,
        vh
    );
    assert!(!out.is_empty(), "resize must render");
}

#[test]
fn app_resize_narrower_reveals_current_cursor_column() {
    let mut app = App::new(None);
    for c in "ABCDEFGHIJKLMNOP".chars() {
        app.buffer.insert_char(c);
    }
    assert_eq!(app.buffer.cursor().col, 16);
    app.screen.width = 30;
    app.screen.scroll_left = 0;

    let out = app.handle_resize(5, 10);

    assert_eq!(app.screen.width, 5);
    assert!(app.screen.scroll_left > 0, "narrow resize must reveal cursor col; scroll_left={}", app.screen.scroll_left);
    let vw = app.screen.visible_width();
    assert!(
        app.screen.scroll_left <= 16 && 16 < app.screen.scroll_left + vw,
        "cursor col 16 must be visible after narrow resize; scroll_left={}, vw={}",
        app.screen.scroll_left,
        vw
    );
    assert!(!out.is_empty(), "resize must render");
}

#[test]
fn app_resize_to_zero_size_clamps_scroll_and_does_not_panic() {
    let mut app = App::new(None);
    app.screen.scroll_top = 5;
    app.screen.scroll_left = 12;
    app.screen.width = 20;
    app.screen.height = 10;

    let out = app.handle_resize(0, 0);

    assert_eq!(app.screen.width, 0);
    assert_eq!(app.screen.height, 0);
    assert_eq!(app.screen.scroll_top, 0, "zero height resize must clamp scroll_top");
    assert_eq!(app.screen.scroll_left, 0, "zero width resize must clamp scroll_left");
    assert!(!out.is_empty());
}

#[test]
fn app_quit_clean_immediately() {
    let mut app = App::new(None);
    assert!(!app.file.dirty);
    assert!(!app.should_quit);
    app.handle_key(ctrl(KeyCode::Char('q')));
    assert!(app.should_quit, "clean Ctrl+Q quits immediately");
}

#[test]
fn app_quit_dirty_first_sets_pending_and_message_second_quits() {
    let mut app = App::new(None);
    app.handle_key(key(KeyCode::Char('x')));
    assert!(app.file.dirty);
    assert!(!app.pending_quit_confirm);
    assert!(app.message.is_none());

    app.handle_key(ctrl(KeyCode::Char('q')));
    assert!(!app.should_quit, "first dirty Q does not quit");
    assert!(app.pending_quit_confirm);
    let msg = app.message.clone().unwrap_or_default();
    assert!(msg.contains("Unsaved changes") && msg.contains("Ctrl+Q again"), "message should warn: got {:?}", app.message);

    app.handle_key(ctrl(KeyCode::Char('q')));
    assert!(app.should_quit, "second dirty Q quits");
}

#[test]
fn app_dirty_ctrl_q_first_renders_warning_immediately() {
    let mut app = App::new(None);
    app.handle_key(key(KeyCode::Char('x')));
    let outcome = app.handle_key(ctrl(KeyCode::Char('q')));
    assert!(matches!(outcome, KeyOutcome::Redraw));
    let rendered = app.render();
    assert!(rendered.contains("Unsaved changes") && rendered.contains("Ctrl+Q again"));
    assert!(rendered.contains("\x1b[K"));
}

#[test]
fn app_edit_after_quit_warning_clears_pending() {
    let mut app = App::new(None);
    app.handle_key(key(KeyCode::Char('z')));
    app.handle_key(ctrl(KeyCode::Char('q')));
    assert!(app.pending_quit_confirm);
    assert!(app.message.is_some());

    app.handle_key(key(KeyCode::Char('!')));
    assert!(!app.pending_quit_confirm, "edit after warning clears pending");
    assert!(app.message.is_none(), "edit after warning also clears stale message");
}

#[test]
fn ctrl_s_asks_to_write_and_success_marks_clean() {
    let mut app = App::new(Some("notes.txt"));
    app.handle_key(key(KeyCode::Char('y')));
    app.handle_key(ctrl(KeyCode::Char('q')));
    let request = match app.handle_key(ctrl(KeyCode::Char('s'))) {
        KeyOutcome::Save(r) => r,
        _ => panic!("Ctrl+S must ask for a write"),
    };
    assert_eq!(request.path, "notes.txt");
    assert_eq!(request.text, "y");
    app.finish_save(request.path, Ok(()));
    assert!(!app.file.dirty);
    assert!(!app.pending_quit_confirm);
    assert!(app.message.is_none());
}

#[test]
fn untitled_save_targets_untitled_and_failure_keeps_dirty() {
    let mut app = App::new(None);
    app.handle_key(key(KeyCode::Char('a')));
    let request = match app.handle_key(ctrl(KeyCode::Char('s'))) {
        KeyOutcome::Save(r) => r,
        _ => panic!("Ctrl+S must ask for a write"),
    };
    assert_eq!(request.path, "untitled.txt");
    app.finish_save(request.path, Err("is a directory".to_string()));
    assert!(app.file.dirty, "save error must keep dirty=true");
    assert_eq!(app.message.as_deref(), Some("Save error: is a directory"));
}

#[test]
fn app_cursor_down_past_visible_updates_scroll_top() {
    let mut app = App::new(None);
    app.screen.height = 6;
    app.screen.scroll_top = 0;
    for _ in 0..9 {
        app.handle_key(key(KeyCode::Enter));
    }
    assert_eq!(app.buffer.cursor().row, 9);
    assert!(app.screen.scroll_top >= 5, "down past viewport must update scroll_top; got {}", app.screen.scroll_top);
}

#[test]
fn app_typing_past_visible_width_updates_scroll_left() {
    let mut app = App::new(None);
    app.screen.width = 5;
    app.screen.height = 6;
    app.screen.scroll_left = 0;
    for _ in 0..8 {
        app.handle_key(key(KeyCode::Char('x')));
    }
    assert_eq!(app.buffer.cursor().col, 8);
    assert_eq!(app.screen.scroll_left, 4);
}

#[test]
fn shift_letter_inserts_upper_case_and_ctrl_z_undoes() {
    let mut app = App::new(None);
    let mut k = key(KeyCode::Char('a'));
    k.shift = true;
    app.handle_key(k);
    assert_eq!(app.buffer.to_string(), "A");
    app.handle_key(ctrl(KeyCode::Char('z')));
    assert_eq!(app.buffer.to_string(), "");
    app.handle_key(ctrl(KeyCode::Char('y')));
    assert_eq!(app.buffer.to_string(), "A");
}

#[test]
fn render_omits_rows_above_the_scroll_and_shows_the_cursor_row() {
    let mut app = App::with_text(None, "L0\nL1\nL2\nL3\nL4\nL5\nL6\nL7\nL8\nL9");
    app.screen.height = 6;
    for _ in 0..9 {
        app.handle_key(key(KeyCode::Down));
    }
    assert_eq!(app.buffer.cursor().row, 9);
    let rendered = app.render();
    assert!(!rendered.contains("L0"));
    assert!(rendered.contains("L9"));
    assert!(rendered.contains("\x1b[1;1H"));
    assert!(rendered.ends_with("\x1b[5;1H"));
}

#[test]
fn app_render_respects_screen_height_via_captured_writer() {
    let mut app = App::new(None);
    app.screen.height = 10;
    app.screen.scroll_top = 0;
    app.handle_key(key(KeyCode::Char('x')));
    let rendered = app.render();
    assert!(rendered.contains("\x1b[10;1H"), "render must use screen height for bottom row positioning");
    assert!(rendered.contains("\x1b[K"), "clears using \\x1b[K");
}

#[test]
fn app_render_after_reveal_omits_earlier_lines_and_shows_cursor_row() {
    let mut app = App::new(None);
    app.screen.height = 6;
    app.screen.scroll_top = 0;
    for i in 0..10 {
        if i > 0 {
            app.buffer.insert_newline();
        }
        app.buffer.insert_char('L');
        app.buffer.insert_char(char::from(b'0' + (i % 10) as u8));
    }
    assert_eq!(app.buffer.cursor().row, 9);
    app.screen.scroll_top = 0;
    for _ in 0..9 {
        app.handle_key(key(KeyCode::Up));
    }
    assert_eq!(app.buffer.cursor().row, 0);
    app.screen.scroll_top = 0;
    for _ in 0..9 {
        app.handle_key(key(KeyCode::Down));
    }
    assert_eq!(app.buffer.cursor().row, 9);
    assert!(app.screen.scroll_top > 0, "must have scrolled; scroll_top={}", app.screen.scroll_top);
    let rendered = app.render();
    assert!(!rendered.contains("L0"), "early line content must not be emitted when scrolled");
    assert!(rendered.contains("L9"), "cursor row content must be emitted");
}

#[test]
fn app_render_after_horizontal_reveal_omits_earlier_chars_and_shows_cursor_side() {
    let mut app = App::new(None);
    app.screen.width = 6;
    app.screen.height = 4;
    app.screen.scroll_left = 0;
    for c in "0123456789ABCDEF".chars() {
        app.buffer.insert_char(c);
    }
    assert_eq!(app.buffer.cursor().col, 16);
    for _ in 0..5 {
        app.handle_key(key(KeyCode::Left));
    }
    for _ in 0..10 {
        app.handle_key(key(KeyCode::Right));
    }
    assert!(app.screen.scroll_left > 0, "must have scrolled horizontally");
    let rendered = app.render();
    assert!(!rendered.contains("01"), "early line chars must be omitted after horiz scroll");
    let has_late = ["A", "B", "C", "D", "E", "F"].iter().any(|s| rendered.contains(s));
    assert!(has_late, "cursor-side content should be rendered");
}

#[test]
fn app_resize_to_zero_then_back_to_nonzero_typing_and_move_reveal_normally() {
    let mut app = App::new(None);
    app.screen.width = 8;
    app.screen.height = 6;
    app.screen.scroll_left = 0;
    app.screen.scroll_top = 0;
    app.handle_resize(0, 0);
    assert_eq!(app.screen.scroll_top, 0);
    assert_eq!(app.screen.scroll_left, 0);
    app.handle_resize(10, 8);
    assert_eq!(app.screen.width, 10);
    assert_eq!(app.screen.height, 8);
    for _ in 0..12 {
        app.handle_key(key(KeyCode::Char('x')));
    }
    assert!(app.screen.scroll_left > 0, "should have horiz scrolled while typing");
    for _ in 0..8 {
        app.handle_key(key(KeyCode::Left));
    }
    assert!(app.screen.scroll_left < 5, "moving left after horiz scroll should reduce scroll_left");
    app.handle_key(key(KeyCode::Down));
    app.handle_key(key(KeyCode::Enter));
    assert!(app.screen.scroll_top <= app.buffer.cursor().row);
}

#[test]
fn app_delete_and_backspace_after_horiz_scroll_reduce_scroll_left_when_cursor_before_viewport() {
    let mut app = App::new(None);
    app.screen.width = 5;
    app.screen.height = 4;
    app.screen.scroll_left = 0;
    for c in "ABCDEFGHIJKLMNOPQRST".chars() {
        app.buffer.insert_char(c);
    }
    for _ in 0..20 {
        app.handle_key(key(KeyCode::Left));
    }
    for _ in 0..15 {
        app.handle_key(key(KeyCode::Right));
    }
    let initial_sl = app.screen.scroll_left;
    assert!(initial_sl > 0, "need horiz scroll established; scroll_left={}", initial_sl);
    let mut last_sl = app.screen.scroll_left;
    for _ in 0..10 {
        app.handle_key(key(KeyCode::Backspace));
        if app.buffer.cursor().col < last_sl {
            assert!(
                app.screen.scroll_left <= last_sl,
                "backspace moving cursor before viewport should not increase scroll_left"
            );
        }
        last_sl = app.screen.scroll_left;
    }
    app.screen.scroll_left = 8;
    app.buffer.move_right();
    let pre = app.screen.scroll_left;
    app.handle_key(key(KeyCode::Delete));
    assert!(app.screen.scroll_left <= pre + 1);
}
