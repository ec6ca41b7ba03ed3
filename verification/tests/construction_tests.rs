use catomic::app::App;

#[test]
fn ordinary_startup_constructs_no_transient_surfaces() {
    let app = App::new(None);

    assert!(app.surfaces.help.is_none());
    assert!(!catomic::external_command::is_busy(&app));
    assert!(app.surfaces.llm_answer.is_none());
}

#[test]
fn startup_settings_replace_the_defaults_and_show_their_warning() {
    let mut commands = catomic::config::CommandConfig::new();
    commands.on_open.push("fmt".to_string());
    let config = catomic::app::StartupConfig {
        keybindings: catomic::keys::KeyBindings::new(),
        command_config: commands,
        tab_width: 2,
        initial_message: Some("Config ignored: bad key".to_string()),
    };
    let app = App::with_config(Some("a.rs"), "fn main() {}", config);
    assert_eq!(app.buffer.to_string(), "fn main() {}");
    assert_eq!(app.tab_width, 2);
    assert_eq!(app.command_config.on_open, vec!["fmt".to_string()]);
    assert_eq!(app.message.as_deref(), Some("Config ignored: bad key"));
    assert_eq!(app.message_role, catomic::status::StatusRole::Warning);
    assert!(!app.file.dirty);
}
