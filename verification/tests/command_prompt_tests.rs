use catomic::app::App;
use catomic::buffer::TextBuffer;
use catomic::command_prompt::{execute_command, open_prompt, parse_command, CommandAction, CommandEffect, PromptKind};

#[test]
fn bracketed_paste_populates_every_prompt_kind_without_editing_source() {
    let prompts = vec![
        PromptKind::GotoLine,
        PromptKind::Command,
        PromptKind::SaveAs,
        PromptKind::OpenFile,
        PromptKind::CreateConfig { path: "/tmp/catomic-paste-config.toml".to_string(), exit_on_decline: false },
    ];

    for kind in prompts {
        let mut app = App::new(None);
        app.buffer = TextBuffer::from_text("source");
        let revision = app.buffer.content_revision();
        let history = app.buffer.edit_history_position();

        open_prompt(&mut app, kind);
        catomic::input::handle_paste(&mut app, "target\r\nname.txt");
        let out = app.render();

        assert_eq!(app.buffer.to_string(), "source");
        assert_eq!(app.buffer.content_revision(), revision);
        assert_eq!(app.buffer.edit_history_position(), history);
        assert!(!app.file.dirty);
        assert!(app.selection.anchor.is_none());
        assert_eq!(app.command_prompt.active.as_ref().map(|prompt| prompt.text.as_str()), Some("target\nname.txt"));
        assert!(out.contains("target\u{240a}name.txt"));
    }
}

#[test]
fn goto_moves_to_a_line_and_reports_past_the_end() {
    let mut app = App::with_text(None, "zero\none\ntwo");
    assert!(matches!(execute_command(&mut app, "goto 2"), CommandEffect::Done));
    assert_eq!(app.buffer.cursor().row, 1);
    assert_eq!(app.message.as_deref(), Some("Moved to line 2."));
    execute_command(&mut app, "goto 9");
    assert_eq!(app.buffer.cursor().row, 2);
    assert_eq!(app.message.as_deref(), Some("Line 9 is past end of file; moved to line 3."));
    execute_command(&mut app, "goto 0");
    assert_eq!(app.message.as_deref(), Some("Line numbers start at 1."));
    execute_command(&mut app, "goto x");
    assert_eq!(app.message.as_deref(), Some("Goto line requires a positive line number."));
}

#[test]
fn unknown_commands_are_reported_and_change_nothing() {
    let mut app = App::with_text(None, "text");
    assert!(matches!(execute_command(&mut app, "  frobnicate now "), CommandEffect::Done));
    assert_eq!(app.message.as_deref(), Some("Unknown command: frobnicate now"));
    assert_eq!(app.buffer.to_string(), "text");
}

#[test]
fn commands_parse_name_and_trimmed_argument() {
    assert!(matches!(parse_command("save"), CommandAction::Save));
    assert!(matches!(parse_command("save as"), CommandAction::SaveAsPrompt));
    match parse_command("save as  out.txt ") {
        CommandAction::SaveAs(p) => assert_eq!(p.iter().collect::<String>(), "out.txt"),
        _ => panic!("save as PATH"),
    }
    match parse_command("meow   write tests") {
        CommandAction::Meow(i) => assert_eq!(i.iter().collect::<String>(), "write tests"),
        _ => panic!("meow INSTRUCTION"),
    }
    assert!(matches!(parse_command("autocomplete off"), CommandAction::AutocompleteOff));
    assert!(matches!(parse_command("help me"), CommandAction::Unknown));
    assert!(matches!(parse_command("run"), CommandAction::Unknown));
}
