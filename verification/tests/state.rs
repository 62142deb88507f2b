use pinentry_zellij::protocol::PinentryCmd;
use pinentry_zellij::state::PinentryState;

#[test]
fn default_state() {
    let state = PinentryState::default();
    assert!(state.desc.is_none());
    assert!(state.title.is_none());
    assert!(!state.quality_bar);
    assert!(state.options.is_empty());
}

#[test]
fn accumulation() {
    let mut state = PinentryState {
        title: Some("Title".into()),
        desc: Some("Desc".into()),
        prompt: Some("Pass:".into()),
        error: Some("Wrong".into()),
        ok: Some("OK".into()),
        cancel: Some("Cancel".into()),
        notok: Some("No".into()),
        repeat: Some("Again:".into()),
        repeat_error: Some("Mismatch".into()),
        keyinfo: Some("key1".into()),
        quality_bar: true,
        timeout: Some(60),
        ..Default::default()
    };
    state.set_option("ttyname".into(), "/dev/pts/0".into());

    assert_eq!(state.title.as_deref(), Some("Title"));
    assert_eq!(state.desc.as_deref(), Some("Desc"));
    assert_eq!(state.timeout, Some(60));
}

#[test]
fn to_request_getpin() {
    let state = PinentryState {
        desc: Some("Enter passphrase".into()),
        prompt: Some("PIN:".into()),
        cmd: Some(PinentryCmd::GetPin),
        ..Default::default()
    };

    let req = state.to_request();
    assert_eq!(req.cmd, PinentryCmd::GetPin);
    assert_eq!(req.desc.as_deref(), Some("Enter passphrase"));
    assert_eq!(req.prompt.as_deref(), Some("PIN:"));
}

#[test]
fn to_request_confirm() {
    let state = PinentryState {
        desc: Some("Trust this key?".into()),
        cmd: Some(PinentryCmd::Confirm),
        ..Default::default()
    };

    let req = state.to_request();
    assert_eq!(req.cmd, PinentryCmd::Confirm);
}

#[test]
fn to_request_message() {
    let state = PinentryState {
        desc: Some("Info".into()),
        cmd: Some(PinentryCmd::Message),
        ..Default::default()
    };

    let req = state.to_request();
    assert_eq!(req.cmd, PinentryCmd::Message);
}

#[test]
fn reset_clears_setters_but_keeps_options() {
    let mut state = PinentryState {
        title: Some("T".into()),
        desc: Some("D".into()),
        prompt: Some("P".into()),
        error: Some("E".into()),
        ok: Some("OK".into()),
        cancel: Some("C".into()),
        notok: Some("N".into()),
        repeat: Some("R".into()),
        repeat_error: Some("RE".into()),
        keyinfo: Some("K".into()),
        quality_bar: true,
        timeout: Some(30),
        cmd: Some(PinentryCmd::GetPin),
        ..Default::default()
    };
    state.set_option("ttyname".into(), "/dev/pts/0".into());

    state.reset();

    assert!(state.title.is_none());
    assert!(state.desc.is_none());
    assert!(state.prompt.is_none());
    assert!(state.error.is_none());
    assert!(state.ok.is_none());
    assert!(state.cancel.is_none());
    assert!(state.notok.is_none());
    assert!(state.repeat.is_none());
    assert!(state.repeat_error.is_none());
    assert!(state.keyinfo.is_none());
    assert!(!state.quality_bar);
    assert!(state.timeout.is_none());
    assert!(state.cmd().is_none());
    // Options persist
    assert_eq!(
        state.options.get("ttyname").map(String::as_str),
        Some("/dev/pts/0")
    );
}

#[test]
fn to_request_defaults_to_getpin_and_copies_texts() {
    let state = PinentryState {
        title: Some("T".into()),
        ok: Some("Yes".into()),
        cancel: Some("Abort".into()),
        notok: Some("No".into()),
        repeat: Some("Again:".into()),
        repeat_error: Some("Mismatch".into()),
        error: Some("Bad".into()),
        ..Default::default()
    };
    let req = state.to_request();
    assert_eq!(req.cmd, PinentryCmd::GetPin);
    assert_eq!(req.title.as_deref(), Some("T"));
    assert_eq!(req.ok.as_deref(), Some("Yes"));
    assert_eq!(req.cancel.as_deref(), Some("Abort"));
    assert_eq!(req.notok.as_deref(), Some("No"));
    assert_eq!(req.repeat.as_deref(), Some("Again:"));
    assert_eq!(req.repeat_error.as_deref(), Some("Mismatch"));
    assert_eq!(req.error.as_deref(), Some("Bad"));
    assert!(req.desc.is_none());
}

#[test]
fn set_option_replaces_earlier_value() {
    let mut state = PinentryState::default();
    state.set_option("ttyname".into(), "/dev/pts/0".into());
    state.set_option("ttyname".into(), "/dev/pts/7".into());
    assert_eq!(state.options.len(), 1);
    assert_eq!(
        state.options.get("ttyname").map(String::as_str),
        Some("/dev/pts/7")
    );
}

#[test]
fn set_cmd_each_kind() {
    let mut state = PinentryState::default();
    assert!(state.cmd().is_none());
    state.set_cmd_getpin();
    assert_eq!(state.cmd(), Some(&PinentryCmd::GetPin));
    state.set_cmd_confirm();
    assert_eq!(state.cmd(), Some(&PinentryCmd::Confirm));
    state.set_cmd_message();
    assert_eq!(state.cmd(), Some(&PinentryCmd::Message));
}

#[test]
fn pending_command_is_the_last_one_set() {
    let mut state = PinentryState::default();
    assert!(state.cmd().is_none());
    state.set_cmd_confirm();
    state.desc = Some("D".into());
    state.set_option("k".into(), "v".into());
    state.set_cmd_message();
    state.title = Some("T".into());
    assert_eq!(state.cmd(), Some(&PinentryCmd::Message));
    state.reset();
    assert!(state.cmd().is_none());
    state.prompt = Some("P".into());
    assert!(state.cmd().is_none());
    state.set_cmd_getpin();
    assert_eq!(state.cmd(), Some(&PinentryCmd::GetPin));
}
