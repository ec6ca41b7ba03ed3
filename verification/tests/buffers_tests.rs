use catomic::app::App;
use catomic::buffers::{BufferDirection, OpenExisting};

#[test]
fn switching_a_single_buffer_is_a_no_op() {
    let mut app = App::new(None);
    app.screen.scroll_top = 9;

    assert!(!app.switch_buffer(BufferDirection::Next));
    assert_eq!(app.buffer_count(), 1);
    assert_eq!(app.active_buffer_index, 0);
    assert_eq!(app.screen.scroll_top, 9);
}

#[test]
fn multiple_paths_open_in_argument_order_and_wrap() {
    let mut app = App::with_text(Some("first.txt"), "alpha");
    app.add_inactive_buffer("second.txt", "beta");

    assert_eq!(app.buffer_count(), 2);
    assert_eq!(app.active_buffer_index, 0);
    assert_eq!(app.buffer.to_string(), "alpha");

    assert!(app.switch_buffer(BufferDirection::Next));
    assert_eq!(app.active_buffer_index, 1);
    assert_eq!(app.buffer.to_string(), "beta");

    assert!(app.switch_buffer(BufferDirection::Next));
    assert_eq!(app.active_buffer_index, 0);
    assert_eq!(app.buffer.to_string(), "alpha");
}

#[test]
fn switching_preserves_each_buffers_state() {
    let mut app = App::with_text(Some("first.txt"), "alpha");
    app.add_inactive_buffer("second.txt", "beta");
    app.buffer.move_right();
    app.buffer.insert_char('!');
    app.screen.scroll_top = 7;
    app.screen.scroll_left = 3;
    app.file.dirty = true;

    app.switch_buffer(BufferDirection::Next);
    assert_eq!(app.buffer.to_string(), "beta");
    assert!(!app.file.dirty);
    assert_eq!(app.screen.scroll_top, 0);
    assert_eq!(app.screen.scroll_left, 0);

    app.screen.scroll_top = 11;
    app.switch_buffer(BufferDirection::Previous);
    assert_eq!(app.buffer.to_string(), "a!lpha");
    assert_eq!(app.buffer.cursor(), catomic::buffer::Cursor { row: 0, col: 2 });
    assert!(app.file.dirty);
    assert_eq!(app.screen.scroll_top, 7);
    assert_eq!(app.screen.scroll_left, 3);

    app.switch_buffer(BufferDirection::Next);
    assert_eq!(app.screen.scroll_top, 11);
}

#[test]
fn dirty_count_includes_inactive_buffers() {
    let mut app = App::with_text(Some("first.txt"), "alpha");
    app.add_inactive_buffer("second.txt", "beta");
    app.file.dirty = true;
    app.switch_buffer(BufferDirection::Next);
    assert_eq!(app.dirty_buffer_count(), 1);
}

#[test]
fn close_refuses_a_dirty_buffer_and_leaves_a_blank_one_last() {
    let mut app = App::with_text(Some("first.txt"), "alpha");
    app.file.dirty = true;
    assert_eq!(app.close_active_buffer(false), catomic::buffers::CloseBufferOutcome::Dirty);
    assert_eq!(app.buffer.to_string(), "alpha");
    assert_eq!(app.close_active_buffer(true), catomic::buffers::CloseBufferOutcome::Closed);
    assert_eq!(app.buffer.to_string(), "");
    assert!(app.file.path.is_none());
    assert_eq!(app.buffer_count(), 1);
}

#[test]
fn new_buffer_keeps_the_old_one_in_the_ring() {
    let mut app = App::with_text(Some("first.txt"), "alpha");
    app.new_file_buffer();
    assert_eq!(app.buffer.to_string(), "");
    assert!(app.file.path.is_none());
    assert_eq!(app.buffer_count(), 2);
    assert_eq!(app.message.as_deref(), Some("New untitled buffer."));
    app.switch_buffer(BufferDirection::Previous);
    assert_eq!(app.buffer.to_string(), "alpha");
}

/// Opens `path` with `text` unless a buffer already holds it; says whether the active buffer changed.
fn open_file_buffer(app: &mut App, path: &str, text: &str) -> bool {
    match app.open_existing(path) {
        OpenExisting::AlreadyActive => false,
        OpenExisting::Switched => true,
        OpenExisting::NotOpen => {
            app.open_buffer_with_text(path, text);
            true
        }
    }
}

#[test]
fn open_file_buffer_reuses_paths_and_preserves_dirty_buffers() {
    let mut app = App::with_text(Some("open_first"), "alpha");
    app.buffer.insert_char('!');
    app.file.dirty = true;

    assert!(open_file_buffer(&mut app, "open_second", "beta"));
    assert_eq!(app.buffer.to_string(), "beta");
    assert_eq!(app.buffer_count(), 2);
    assert!(!open_file_buffer(&mut app, "open_second", "beta"));
    assert_eq!(app.buffer_count(), 2);

    assert!(open_file_buffer(&mut app, "open_first", "alpha"));
    assert_eq!(app.buffer.to_string(), "!alpha");
    assert!(app.file.dirty);
    assert_eq!(app.buffer_count(), 2);
}

#[test]
fn opening_a_waiting_buffer_turns_the_ring_to_it_and_keeps_the_dirty_count() {
    let mut app = App::with_text(Some("a.txt"), "alpha");
    app.add_inactive_buffer("b.txt", "beta");
    app.add_inactive_buffer("c.txt", "gamma");
    app.file.dirty = true;
    let dirty = app.dirty_buffer_count();

    assert_eq!(app.open_existing("c.txt"), OpenExisting::Switched);
    assert_eq!(app.buffer.to_string(), "gamma");
    assert_eq!(app.dirty_buffer_count(), dirty);
    assert_eq!(app.open_existing("nowhere.txt"), OpenExisting::NotOpen);
    assert_eq!(app.buffer.to_string(), "gamma");
}

#[test]
fn a_full_turn_of_the_ring_returns_to_the_first_buffer() {
    let mut app = App::with_text(Some("a.txt"), "alpha");
    app.add_inactive_buffer("b.txt", "beta");
    app.add_inactive_buffer("c.txt", "gamma");
    for _ in 0..app.buffer_count() {
        assert!(app.switch_buffer(BufferDirection::Next));
    }
    assert_eq!(app.buffer.to_string(), "alpha");
    assert_eq!(app.file.path.as_deref(), Some("a.txt"));
}
