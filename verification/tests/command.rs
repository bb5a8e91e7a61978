use kbd_rgbd::command::{command_text, parse_command, Command};

fn switch_target(text: &str) -> Option<String> {
    match parse_command(text) {
        Command::SwitchProfile(name) => Some(name),
        _ => None,
    }
}

#[test]
fn fixed_commands_match_exactly() {
    assert!(matches!(parse_command("stop"), Command::Stop));
    assert!(matches!(parse_command("reload"), Command::Reload));
    assert!(matches!(parse_command("brightness_up"), Command::BrightnessUp));
    assert!(matches!(parse_command("brightness_down"), Command::BrightnessDown));
    assert!(matches!(parse_command("stopp"), Command::Unknown));
    assert!(matches!(parse_command("Stop"), Command::Unknown));
    assert!(matches!(parse_command(""), Command::Unknown));
    assert!(matches!(parse_command("profile"), Command::Unknown));
}

#[test]
fn profile_command_takes_the_rest_of_the_line() {
    assert_eq!(switch_target("profile rainbow"), Some("rainbow".to_string()));
    assert_eq!(switch_target("profile   warm-ambient"), Some("warm-ambient".to_string()));
    assert_eq!(switch_target("profile profile police"), Some("police".to_string()));
    assert_eq!(switch_target("profile a b"), Some("a b".to_string()));
    assert_eq!(switch_target("profile ../foo"), Some("../foo".to_string()));
}

#[test]
fn command_text_trims_and_drops_blank_contents() {
    assert_eq!(command_text("  stop\n"), Some("stop".to_string()));
    assert_eq!(command_text("profile ocean\r\n"), Some("profile ocean".to_string()));
    assert_eq!(command_text("\u{3000}reload\u{a0}"), Some("reload".to_string()));
    assert_eq!(command_text(""), None);
    assert_eq!(command_text(" \t\n "), None);
}
