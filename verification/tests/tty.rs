use pinentry_zellij::assuan::HandlerResult;
use pinentry_zellij::state::PinentryState;
use pinentry_zellij::tty::{
    confirm_prompt, dialog_reply, dialog_start, format_prompt, getpin_result, handle_tty, TtyIo,
    TtyNext, TtyPhase,
};
use pinentry_zellij::protocol::PinentryCmd;

struct MockTtyIo {
    stderr: Vec<String>,
    passwords: Vec<String>,
    lines: Vec<String>,
    pw_idx: usize,
    line_idx: usize,
    prompts: Vec<String>,
}

impl MockTtyIo {
    fn new(passwords: Vec<&str>, lines: Vec<&str>) -> Self {
        Self {
            stderr: Vec::new(),
            passwords: passwords.into_iter().map(String::from).collect(),
            lines: lines.into_iter().map(String::from).collect(),
            pw_idx: 0,
            line_idx: 0,
            prompts: Vec::new(),
        }
    }

    fn stderr_output(&self) -> String {
        self.stderr.join("")
    }
}

impl TtyIo for MockTtyIo {
    fn write_stderr(&mut self, msg: &str) {
        self.stderr.push(msg.to_string());
    }

    fn read_password(&mut self, prompt: &str) -> Option<String> {
        self.prompts.push(prompt.to_string());
        if self.pw_idx < self.passwords.len() {
            let p = self.passwords[self.pw_idx].clone();
            self.pw_idx += 1;
            Some(p)
        } else {
            None
        }
    }

    fn read_line(&mut self, prompt: &str) -> Option<String> {
        self.prompts.push(prompt.to_string());
        if self.line_idx < self.lines.len() {
            let l = self.lines[self.line_idx].clone();
            self.line_idx += 1;
            Some(l)
        } else {
            None
        }
    }
}

#[test]
fn getpin_basic() {
    let mut io = MockTtyIo::new(vec!["secret"], vec![]);
    let mut state = PinentryState::default();
    state.desc = Some("Enter passphrase".into());
    state.set_cmd_getpin();

    let result = handle_tty(&state, &mut io);
    match result {
        HandlerResult::Pin(p) => assert_eq!(&*p, "secret"),
        _ => panic!("expected Pin"),
    }
    assert!(io.stderr_output().contains("Enter passphrase"));
}

#[test]
fn getpin_with_error() {
    let mut io = MockTtyIo::new(vec!["secret"], vec![]);
    let mut state = PinentryState::default();
    state.error = Some("Bad passphrase".into());
    state.set_cmd_getpin();

    let result = handle_tty(&state, &mut io);
    match result {
        HandlerResult::Pin(p) => assert_eq!(&*p, "secret"),
        _ => panic!("expected Pin"),
    }
    assert!(io.stderr_output().contains("Bad passphrase"));
}

#[test]
fn getpin_repeat_match() {
    let mut io = MockTtyIo::new(vec!["secret", "secret"], vec![]);
    let mut state = PinentryState::default();
    state.repeat = Some("Repeat:".into());
    state.set_cmd_getpin();

    let result = handle_tty(&state, &mut io);
    match result {
        HandlerResult::Pin(p) => assert_eq!(&*p, "secret"),
        _ => panic!("expected Pin"),
    }
}

#[test]
fn getpin_repeat_mismatch() {
    let mut io = MockTtyIo::new(vec!["secret", "wrong"], vec![]);
    let mut state = PinentryState::default();
    state.repeat = Some("Repeat:".into());
    state.set_cmd_getpin();

    let result = handle_tty(&state, &mut io);
    assert!(matches!(result, HandlerResult::Canceled));
    assert!(io.stderr_output().contains("don't match"));
}

#[test]
fn getpin_repeat_mismatch_custom_error() {
    let mut io = MockTtyIo::new(vec!["a", "b"], vec![]);
    let mut state = PinentryState::default();
    state.repeat = Some("Again:".into());
    state.repeat_error = Some("No match!".into());
    state.set_cmd_getpin();

    let result = handle_tty(&state, &mut io);
    assert!(matches!(result, HandlerResult::Canceled));
    assert!(io.stderr_output().contains("No match!"));
}

#[test]
fn getpin_eof() {
    let mut io = MockTtyIo::new(vec![], vec![]);
    let mut state = PinentryState::default();
    state.set_cmd_getpin();

    let result = handle_tty(&state, &mut io);
    assert!(matches!(result, HandlerResult::Canceled));
}

#[test]
fn confirm_yes() {
    let mut io = MockTtyIo::new(vec![], vec!["y"]);
    let mut state = PinentryState::default();
    state.desc = Some("Trust?".into());
    state.set_cmd_confirm();

    let result = handle_tty(&state, &mut io);
    assert!(matches!(result, HandlerResult::Confirmed));
}

#[test]
fn confirm_no_without_notok() {
    let mut io = MockTtyIo::new(vec![], vec!["n"]);
    let mut state = PinentryState::default();
    state.set_cmd_confirm();

    let result = handle_tty(&state, &mut io);
    assert!(matches!(result, HandlerResult::Canceled));
}

#[test]
fn confirm_no_with_notok() {
    let mut io = MockTtyIo::new(vec![], vec!["n"]);
    let mut state = PinentryState::default();
    state.notok = Some("No way".into());
    state.set_cmd_confirm();

    let result = handle_tty(&state, &mut io);
    assert!(matches!(result, HandlerResult::NotConfirmed));
}

#[test]
fn confirm_cancel() {
    let mut io = MockTtyIo::new(vec![], vec!["c"]);
    let mut state = PinentryState::default();
    state.notok = Some("Nope".into());
    state.set_cmd_confirm();

    let result = handle_tty(&state, &mut io);
    assert!(matches!(result, HandlerResult::Canceled));
}

#[test]
fn confirm_eof() {
    let mut io = MockTtyIo::new(vec![], vec![]);
    let mut state = PinentryState::default();
    state.set_cmd_confirm();

    let result = handle_tty(&state, &mut io);
    assert!(matches!(result, HandlerResult::Canceled));
}

#[test]
fn message_basic() {
    let mut io = MockTtyIo::new(vec![], vec![""]);
    let mut state = PinentryState::default();
    state.desc = Some("Information".into());
    state.set_cmd_message();

    let result = handle_tty(&state, &mut io);
    assert!(matches!(result, HandlerResult::Confirmed));
    assert!(io.stderr_output().contains("Information"));
}

#[test]
fn no_cmd_returns_canceled() {
    let mut io = MockTtyIo::new(vec![], vec![]);
    let state = PinentryState::default();

    let result = handle_tty(&state, &mut io);
    assert!(matches!(result, HandlerResult::Canceled));
}

#[test]
fn format_prompt_with_colon() {
    assert_eq!(format_prompt("PIN:"), "PIN: ");
}

#[test]
fn format_prompt_without_colon() {
    assert_eq!(format_prompt("Passphrase"), "Passphrase: ");
}

#[test]
fn format_prompt_with_question() {
    assert_eq!(format_prompt("Password?"), "Password? ");
}

#[test]
fn getpin_repeat_eof_on_second() {
    let mut io = MockTtyIo::new(vec!["secret"], vec![]);
    let mut state = PinentryState::default();
    state.repeat = Some("Again:".into());
    state.set_cmd_getpin();

    let result = handle_tty(&state, &mut io);
    assert!(matches!(result, HandlerResult::Canceled));
}

#[test]
fn getpin_no_desc_no_error() {
    let mut io = MockTtyIo::new(vec!["pw"], vec![]);
    let mut state = PinentryState::default();
    state.set_cmd_getpin();

    let result = handle_tty(&state, &mut io);
    match result {
        HandlerResult::Pin(p) => assert_eq!(&*p, "pw"),
        _ => panic!("expected Pin"),
    }
    // Should not have written any desc/error
    assert!(io.stderr_output().is_empty());
}

#[test]
fn confirm_with_custom_labels() {
    let mut io = MockTtyIo::new(vec![], vec!["y"]);
    let mut state = PinentryState::default();
    state.ok = Some("Accept".into());
    state.cancel = Some("Reject".into());
    state.set_cmd_confirm();

    let result = handle_tty(&state, &mut io);
    assert!(matches!(result, HandlerResult::Confirmed));
}

#[test]
fn confirm_unknown_input() {
    let mut io = MockTtyIo::new(vec![], vec!["maybe"]);
    let mut state = PinentryState::default();
    state.set_cmd_confirm();

    let result = handle_tty(&state, &mut io);
    assert!(matches!(result, HandlerResult::Canceled));
}

#[test]
fn message_no_desc() {
    let mut io = MockTtyIo::new(vec![], vec![""]);
    let mut state = PinentryState::default();
    state.set_cmd_message();

    let result = handle_tty(&state, &mut io);
    assert!(matches!(result, HandlerResult::Confirmed));
    // Should show "Press enter" but no desc
    let output = io.stderr_output();
    assert!(output.contains("Press enter"));
    assert!(!output.contains('\n'));
}

#[test]
fn message_eof() {
    let mut io = MockTtyIo::new(vec![], vec![]);
    let mut state = PinentryState::default();
    state.set_cmd_message();

    let result = handle_tty(&state, &mut io);
    // Message always returns Confirmed even on EOF
    assert!(matches!(result, HandlerResult::Confirmed));
}

// ---------------------------------------------------------------- further cases

#[test]
fn confirm_prompt_texts() {
    let mut state = PinentryState::default();
    assert_eq!(confirm_prompt(&state), "[y]OK [n]Cancel? ");
    state.notok = Some("No".into());
    state.ok = Some("Yes".into());
    state.cancel = Some("Abort".into());
    assert_eq!(confirm_prompt(&state), "[y]Yes [n]No [c]Abort? ");
}

#[test]
fn confirm_answer_ignores_case_and_space() {
    let mut io = MockTtyIo::new(vec![], vec!["  YES \t"]);
    let mut state = PinentryState::default();
    state.set_cmd_confirm();
    assert!(matches!(handle_tty(&state, &mut io), HandlerResult::Confirmed));

    let mut io = MockTtyIo::new(vec![], vec!["No"]);
    state.notok = Some("Nope".into());
    assert!(matches!(handle_tty(&state, &mut io), HandlerResult::NotConfirmed));
}

#[test]
fn getpin_prompts_and_error_lines() {
    let mut io = MockTtyIo::new(vec!["a", "b"], vec![]);
    let mut state = PinentryState::default();
    state.desc = Some("Desc".into());
    state.error = Some("Err".into());
    state.prompt = Some("Passphrase".into());
    state.repeat = Some("Repeat".into());
    state.set_cmd_getpin();
    let result = handle_tty(&state, &mut io);
    assert!(matches!(result, HandlerResult::Canceled));
    assert_eq!(io.prompts, vec!["Passphrase: ".to_string(), "Repeat: ".to_string()]);
    assert_eq!(
        io.stderr_output(),
        "Desc\n*** Err ***\n*** Passphrases don't match. ***\n"
    );
}

#[test]
fn getpin_default_prompt() {
    let mut io = MockTtyIo::new(vec!["x"], vec![]);
    let mut state = PinentryState::default();
    state.set_cmd_getpin();
    let _ = handle_tty(&state, &mut io);
    assert_eq!(io.prompts, vec!["PIN: ".to_string()]);
}

#[test]
fn format_prompt_empty() {
    assert_eq!(format_prompt(""), ": ");
}

#[test]
fn getpin_result_decides_from_entries() {
    let mut state = PinentryState::default();
    state.set_cmd_getpin();
    let (r, differ) = getpin_result(&state, Some("pw".into()), None);
    assert!(matches!(r, HandlerResult::Pin(ref p) if p == "pw"));
    assert!(!differ);
    let (r, differ) = getpin_result(&state, None, None);
    assert!(matches!(r, HandlerResult::Canceled));
    assert!(!differ);

    state.repeat = Some("Again".into());
    let (r, differ) = getpin_result(&state, Some("pw".into()), Some("pw".into()));
    assert!(matches!(r, HandlerResult::Pin(ref p) if p == "pw"));
    assert!(!differ);
    let (r, differ) = getpin_result(&state, Some("pw".into()), Some("px".into()));
    assert!(matches!(r, HandlerResult::Canceled));
    assert!(differ);
    let (r, differ) = getpin_result(&state, Some("pw".into()), None);
    assert!(matches!(r, HandlerResult::Canceled));
    assert!(!differ);
}

#[test]
fn dialog_asks_for_repeat_and_reports_mismatch() {
    let mut state = PinentryState::default();
    state.desc = Some("D".into());
    state.repeat = Some("Again".into());
    let (phase, step) = dialog_start(&state, Some(PinentryCmd::GetPin));
    assert_eq!(step.writes, vec!["D\n".to_string()]);
    assert!(matches!(&step.next, TtyNext::ReadPassword(p) if p == "PIN: "));
    let (phase, step) = dialog_reply(&state, phase, Some("one".into()));
    assert!(step.writes.is_empty());
    assert!(matches!(&step.next, TtyNext::ReadPassword(p) if p == "Again: "));
    let (_, step) = dialog_reply(&state, phase, Some("two".into()));
    assert_eq!(step.writes, vec!["*** Passphrases don't match. ***\n".to_string()]);
    assert!(matches!(step.next, TtyNext::Finish(HandlerResult::Canceled)));
}

#[test]
fn dialog_repeat_match_gives_pin() {
    let mut state = PinentryState::default();
    state.repeat = Some("Again".into());
    let (phase, _) = dialog_start(&state, Some(PinentryCmd::GetPin));
    let (phase, _) = dialog_reply(&state, phase, Some("same".into()));
    let (phase, step) = dialog_reply(&state, phase, Some("same".into()));
    assert!(matches!(phase, TtyPhase::Over));
    assert!(step.writes.is_empty());
    assert!(matches!(step.next, TtyNext::Finish(HandlerResult::Pin(ref p)) if p == "same"));
}

#[test]
fn dialog_message_and_no_command() {
    let mut state = PinentryState::default();
    state.desc = Some("Note".into());
    let (phase, step) = dialog_start(&state, Some(PinentryCmd::Message));
    assert_eq!(step.writes, vec!["Note\n".to_string(), "Press enter to continue.".to_string()]);
    assert!(matches!(&step.next, TtyNext::ReadLine(p) if p.is_empty()));
    let (_, step) = dialog_reply(&state, phase, None);
    assert!(matches!(step.next, TtyNext::Finish(HandlerResult::Confirmed)));
    let (_, step) = dialog_start(&state, None);
    assert!(step.writes.is_empty());
    assert!(matches!(step.next, TtyNext::Finish(HandlerResult::Canceled)));
}
