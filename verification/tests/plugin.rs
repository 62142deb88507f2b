use pinentry_zellij::plugin::{Key, PaneAction, PinentryPlugin, PluginEvent, TabSize, MAX_INPUT_LEN};
use pinentry_zellij::protocol::{PinStatus, PinentryCmd, PinentryRequest};

fn request(cmd: PinentryCmd) -> PinentryRequest {
    PinentryRequest {
        cmd,
        title: Some("Test".into()),
        desc: Some("Enter your passphrase for key ABC".into()),
        prompt: Some("PIN:".into()),
        error: None,
        ok: None,
        cancel: None,
        notok: None,
        repeat: None,
        repeat_error: None,
    }
}

fn key(k: Key) -> PluginEvent {
    PluginEvent::Key(k, true)
}

fn started(cmd: PinentryCmd) -> PinentryPlugin {
    let mut p = PinentryPlugin::new();
    let (redraw, actions) = p.pipe(Some("pipe-1".into()), Some(request(cmd)));
    assert!(redraw);
    assert_eq!(actions.len(), 5);
    p
}

#[test]
fn pipe_takes_a_request() {
    let mut p = PinentryPlugin::new();
    let (redraw, actions) = p.pipe(Some("id".into()), Some(request(PinentryCmd::GetPin)));
    assert!(redraw);
    assert!(matches!(&actions[0], PaneAction::BlockPipe(id) if id == "id"));
    assert!(matches!(&actions[1], PaneAction::Rename(t) if t == " "));
    assert!(matches!(actions[2], PaneAction::Hide));
    assert!(matches!(actions[3], PaneAction::MoveToFocusedTab));
    assert!(matches!(actions[4], PaneAction::Float));
    assert_eq!(actions.len(), 5);
    assert!(p.request().is_some());
    assert!(!p.is_done());
}

#[test]
fn pipe_refuses_other_sources_and_bad_payloads() {
    let mut p = PinentryPlugin::new();
    let (redraw, actions) = p.pipe(None, Some(request(PinentryCmd::GetPin)));
    assert!(!redraw);
    assert!(actions.is_empty());
    let (redraw, actions) = p.pipe(Some("id".into()), None);
    assert!(!redraw);
    assert!(actions.is_empty());
    assert!(p.request().is_none());
}

#[test]
fn pipe_refused_while_request_pending() {
    let mut p = started(PinentryCmd::GetPin);
    let (redraw, actions) = p.pipe(Some("other".into()), Some(request(PinentryCmd::Confirm)));
    assert!(!redraw);
    assert!(actions.is_empty());
    assert_eq!(p.request().unwrap().cmd, PinentryCmd::GetPin);
}

#[test]
fn tab_update_sizes_and_focuses_once() {
    let mut p = started(PinentryCmd::GetPin);
    let (redraw, actions) = p.update(PluginEvent::TabUpdate(Some(TabSize { cols: 200, rows: 50 })));
    assert!(!redraw);
    assert_eq!(actions.len(), 2);
    match actions[0] {
        PaneAction::Place { x, y, width, height } => {
            assert_eq!((x, y, width, height), (40, 21, 120, 7));
        }
        _ => panic!("expected a placement"),
    }
    assert!(matches!(actions[1], PaneAction::Focus));
    let (_, again) = p.update(PluginEvent::TabUpdate(Some(TabSize { cols: 100, rows: 30 })));
    assert!(again.is_empty());
    let (_, none) = p.update(PluginEvent::TabUpdate(None));
    assert!(none.is_empty());
}

#[test]
fn render_waits_for_the_requested_width() {
    let mut p = started(PinentryCmd::GetPin);
    let _ = p.update(PluginEvent::TabUpdate(Some(TabSize { cols: 200, rows: 50 })));
    assert!(p.render(7, 80).is_none());
    let text = p.render(7, 120).expect("drawn at the right width");
    assert!(text.starts_with("\x1b[H\x1b[2J"));
    // Each character of the bold white prompt is styled on its own.
    assert!(text.contains("\x1b[1;97mP\x1b[0m\x1b[1;97mI\x1b[0m"));
    // No resize pending any more.
    assert!(p.render(7, 80).is_some());
}

#[test]
fn render_without_request_draws_nothing() {
    let mut p = PinentryPlugin::new();
    assert!(p.render(10, 10).is_none());
}

#[test]
fn reuse_places_pane_at_once() {
    let mut p = started(PinentryCmd::GetPin);
    let _ = p.update(PluginEvent::TabUpdate(Some(TabSize { cols: 200, rows: 50 })));
    let _ = p.update(key(Key::Esc));
    let (redraw, actions) = p.pipe(Some("pipe-2".into()), Some(request(PinentryCmd::Confirm)));
    assert!(redraw);
    assert_eq!(actions.len(), 6);
    assert!(matches!(actions[5], PaneAction::Place { width: 120, .. }));
}

#[test]
fn typing_and_enter_answers_the_pin() {
    let mut p = started(PinentryCmd::GetPin);
    for c in "s3cret".chars() {
        let (redraw, actions) = p.update(key(Key::Char(c)));
        assert!(redraw);
        assert!(actions.is_empty());
    }
    assert_eq!(p.input(), "s3cret");
    let (redraw, actions) = p.update(key(Key::Enter));
    assert!(redraw);
    assert_eq!(actions.len(), 2);
    match &actions[0] {
        PaneAction::Respond { pipe_id, response } => {
            assert_eq!(pipe_id, "pipe-1");
            assert_eq!(response.status, PinStatus::Okay);
            assert_eq!(response.passphrase.as_deref(), Some("s3cret"));
        }
        _ => panic!("expected a response"),
    }
    assert!(matches!(actions[1], PaneAction::Hide));
    assert!(p.is_done());
    assert_eq!(p.input(), "");
}

#[test]
fn backspace_removes_last_char() {
    let mut p = started(PinentryCmd::GetPin);
    let _ = p.update(key(Key::Char('a')));
    let _ = p.update(key(Key::Char('b')));
    let (redraw, _) = p.update(key(Key::Backspace));
    assert!(redraw);
    assert_eq!(p.input(), "a");
    let _ = p.update(key(Key::Backspace));
    let (redraw, _) = p.update(key(Key::Backspace));
    assert!(redraw);
    assert_eq!(p.input(), "");
}

#[test]
fn esc_cancels_without_pin() {
    let mut p = started(PinentryCmd::GetPin);
    let _ = p.update(key(Key::Char('x')));
    let (redraw, actions) = p.update(key(Key::Esc));
    assert!(redraw);
    match &actions[0] {
        PaneAction::Respond { response, .. } => {
            assert_eq!(response.status, PinStatus::Canceled);
            assert!(response.passphrase.is_none());
        }
        _ => panic!("expected a response"),
    }
    assert_eq!(p.input(), "");
}

#[test]
fn confirm_enter_has_no_passphrase_and_ignores_chars() {
    let mut p = started(PinentryCmd::Confirm);
    let (redraw, _) = p.update(key(Key::Char('y')));
    assert!(!redraw);
    assert_eq!(p.input(), "");
    let (_, actions) = p.update(key(Key::Enter));
    match &actions[0] {
        PaneAction::Respond { response, .. } => {
            assert_eq!(response.status, PinStatus::Okay);
            assert!(response.passphrase.is_none());
        }
        _ => panic!("expected a response"),
    }
}

#[test]
fn modified_keys_are_ignored() {
    let mut p = started(PinentryCmd::GetPin);
    let (redraw, actions) = p.update(PluginEvent::Key(Key::Enter, false));
    assert!(!redraw);
    assert!(actions.is_empty());
    let (redraw, _) = p.update(PluginEvent::Key(Key::Char('a'), false));
    assert!(!redraw);
    assert_eq!(p.input(), "");
    assert!(!p.is_done());
}

#[test]
fn input_stops_at_limit() {
    let mut p = started(PinentryCmd::GetPin);
    for _ in 0..MAX_INPUT_LEN {
        let (redraw, _) = p.update(key(Key::Char('a')));
        assert!(redraw);
    }
    let (redraw, _) = p.update(key(Key::Char('a')));
    assert!(!redraw);
    assert_eq!(p.input().len(), MAX_INPUT_LEN);
}

#[test]
fn events_after_answer_do_nothing() {
    let mut p = started(PinentryCmd::GetPin);
    let _ = p.update(key(Key::Esc));
    let (redraw, actions) = p.update(key(Key::Char('a')));
    assert!(!redraw);
    assert!(actions.is_empty());
    let (redraw, actions) = p.update(key(Key::Enter));
    assert!(!redraw);
    assert!(actions.is_empty());
}

#[test]
fn events_before_request_do_nothing() {
    let mut p = PinentryPlugin::new();
    let (redraw, actions) = p.update(key(Key::Enter));
    assert!(!redraw);
    assert!(actions.is_empty());
    let (redraw, _) = p.update(PluginEvent::Other);
    assert!(!redraw);
}

#[test]
fn wide_character_never_takes_pin_past_limit() {
    let mut p = started(PinentryCmd::GetPin);
    for _ in 0..MAX_INPUT_LEN - 1 {
        let (redraw, _) = p.update(key(Key::Char('a')));
        assert!(redraw);
    }
    // A four-byte character would take the PIN to 1027 bytes.
    let (redraw, _) = p.update(key(Key::Char('\u{1F600}')));
    assert!(!redraw);
    assert_eq!(p.input().len(), MAX_INPUT_LEN - 1);
    // A one-byte character still fits.
    let (redraw, _) = p.update(key(Key::Char('b')));
    assert!(redraw);
    assert_eq!(p.input().len(), MAX_INPUT_LEN);
}
