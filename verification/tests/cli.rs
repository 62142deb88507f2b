use pinentry_zellij::cli::askpass_state;
use pinentry_zellij::protocol::PinentryCmd;
use pinentry_zellij::cli::{help_text, mode_for_args, version_text, Mode, VERSION};

#[test]
fn help_text_contains_expected_content() {
    let text = help_text();
    assert!(text.contains(VERSION));
    assert!(text.contains("USAGE"));
    assert!(text.contains("Assuan"));
    assert!(text.contains("Askpass"));
    assert!(text.contains("PINENTRY_ZELLIJ_PLUGIN"));
}

#[test]
fn help_text_first_line() {
    let text = help_text();
    assert_eq!(text.lines().next(), Some("pinentry-zellij 0.1.0"));
    assert!(text.ends_with("falls back to rpassword on the TTY."));
}

#[test]
fn version_text_names_the_program() {
    assert_eq!(version_text("1.2.3"), "pinentry-zellij 1.2.3");
}

fn args(a: &[&str]) -> Vec<String> {
    a.iter().map(|s| s.to_string()).collect()
}

#[test]
fn modes_for_arguments() {
    assert!(matches!(mode_for_args(&args(&["p"])), Mode::Assuan));
    assert!(matches!(mode_for_args(&args(&[])), Mode::Assuan));
    assert!(matches!(mode_for_args(&args(&["p", "--help"])), Mode::Help));
    assert!(matches!(mode_for_args(&args(&["p", "-h"])), Mode::Help));
    assert!(matches!(mode_for_args(&args(&["p", "--version"])), Mode::Version));
    match mode_for_args(&args(&["p", "Enter passphrase:", "x"])) {
        Mode::Askpass(p) => assert_eq!(p, "Enter passphrase:"),
        _ => panic!("expected askpass"),
    }
}

#[test]
fn askpass_state_uses_prompt_as_description() {
    let state = askpass_state("Enter passphrase for '/k':");
    assert_eq!(state.desc.as_deref(), Some("Enter passphrase for '/k':"));
    assert_eq!(state.prompt, None);
    assert_eq!(state.cmd, Some(PinentryCmd::GetPin));
    let empty = askpass_state("");
    assert_eq!(empty.desc, None);
    assert_eq!(empty.cmd, Some(PinentryCmd::GetPin));
}
