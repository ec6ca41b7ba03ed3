use catomic::app::App;
use catomic::help::{help_markdown, is_viewing, toggle};
use catomic::keys::{Action, Chord, KeyBindings, KeyName};

fn text(chars: &[char]) -> String {
    chars.iter().collect()
}

#[test]
fn help_is_short_task_oriented_and_excludes_registry_clutter() {
    let markdown = text(&help_markdown(&KeyBindings::new()));

    for required in [
        "# Catomic help",
        "## Files and buffers",
        "## Edit and navigate",
        "## Commands and views",
        "## External changes and recovery",
        "## Models",
        "Save As",
        "Previous buffer",
        "Command palette",
        "Markdown preview",
        "Dirty buffers are never replaced automatically",
        "`.catnap`",
        "never auto-saved",
        "[user guide](https://github.com/maelguimet/catomic/blob/master/docs/user-guide.md)",
    ] {
        assert!(markdown.contains(required), "help is missing {required:?}");
    }
    for forbidden in [
        "move-left",
        "move-right",
        "mouse-place-cursor",
        "[editor,preview",
        "basic cursor",
        "Copy",
        "Paste",
        "[keybindings]",
        "api_key_env",
        "[[llm.backends]]",
        "gitmeow INSTRUCTION",
    ] {
        assert!(
            !markdown.contains(forbidden),
            "help contains forbidden clutter {forbidden:?}"
        );
    }
    assert!(markdown.lines().count() < 60, "help should remain compact");
}

#[test]
fn help_uses_configured_chords_and_does_not_advertise_unbound_defaults() {
    let mut bindings = KeyBindings::new();
    bindings.set(
        Action::Save,
        vec![Chord { key: KeyName::Char('s'), ctrl: false, alt: true, shift: false }],
    );
    bindings.set(Action::Redo, vec![]);
    bindings.set(
        Action::CommandPrompt,
        vec![Chord { key: KeyName::F(4), ctrl: false, alt: false, shift: false }],
    );
    let markdown = text(&help_markdown(&bindings));

    assert!(markdown.contains("**Save** (`Alt+S`)"));
    assert!(!markdown.contains("`Ctrl+S`"));
    assert!(markdown.contains("**Redo** — Redo"));
    assert!(!markdown.contains("Ctrl+Y"));
    assert!(!markdown.contains("Ctrl+Shift+Z"));
    assert!(markdown.contains("**Command palette** (`F4`)"));
    assert!(!markdown.contains("Ctrl+Shift+P"));
    assert!(!markdown.contains("`F2`"));
}

#[test]
fn default_help_lists_default_chords() {
    let markdown = text(&help_markdown(&KeyBindings::new()));
    assert!(markdown.contains("**Save** (`Ctrl+S`)"));
    assert!(markdown.contains("`Ctrl+Y` / `Ctrl+Shift+Z`"));
    assert!(markdown.contains("**Command palette** (`Ctrl+Shift+P` / `F2`)"));
}

#[test]
fn toggling_help_twice_restores_the_source_view() {
    let mut app = App::with_text(None, "source text");
    app.screen.scroll_top = 0;
    let before_text: String = app.buffer.to_string();
    toggle(&mut app);
    assert!(is_viewing(&app));
    toggle(&mut app);
    assert!(!is_viewing(&app));
    assert_eq!(app.buffer.to_string(), before_text);
}
