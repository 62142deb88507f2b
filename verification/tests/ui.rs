use pinentry_zellij::ui::{dialog_paint_ops, Align, Area, PaintOp};
use pinentry_zellij::backend::AnsiBackend;
use pinentry_zellij::protocol::{PinentryCmd, PinentryRequest};
use pinentry_zellij::ui::{
    count_paragraph_lines, count_wrapped_lines, dialog_dimensions, dialog_height, dialog_width,
    dimensions_fit, hint_pieces, input_pieces, render, render_to_buffer, title_pieces,
    FRAME_PAD, MIN_PIN_LENGTH,
};
use ratatui_core::buffer::Buffer;
use ratatui_core::layout::Rect;

fn make_request(cmd: PinentryCmd) -> PinentryRequest {
    PinentryRequest {
        cmd,
        title: Some("Test".into()),
        desc: Some("Enter your passphrase for key ABC".into()),
        prompt: Some("PIN:".into()),
        error: None,
        ok: None,
        cancel: None,
        notok: None,
        repeat: None,
        repeat_error: None,
    }
}

fn buffer_to_string(buf: &Buffer) -> String {
    let mut s = String::new();
    for y in buf.area.top()..buf.area.bottom() {
        for x in buf.area.left()..buf.area.right() {
            s.push_str(buf[(x, y)].symbol());
        }
    }
    s
}

fn render_to_string(request: &PinentryRequest, input: &str) -> String {
    let area = Rect::new(0, 0, 70, 20);
    let mut buf = Buffer::empty(area);
    render_to_buffer(&mut buf, request, input);
    buffer_to_string(&buf)
}

#[test]
fn render_getpin_contains_prompt() {
    let request = make_request(PinentryCmd::GetPin);
    let content = render_to_string(&request, "abc");
    assert!(content.contains("PIN:"));
    assert!(content.contains("***"));
}

#[test]
fn render_getpin_contains_desc() {
    let request = make_request(PinentryCmd::GetPin);
    let content = render_to_string(&request, "");
    assert!(content.contains("passphrase"));
}

#[test]
fn render_confirm_contains_hints() {
    let request = make_request(PinentryCmd::Confirm);
    let content = render_to_string(&request, "");
    assert!(content.contains("Enter"));
    assert!(content.contains("OK"));
    assert!(content.contains("Cancel"));
}

#[test]
fn render_message_no_cancel_hint() {
    let request = make_request(PinentryCmd::Message);
    let content = render_to_string(&request, "");
    assert!(content.contains("Enter"));
    assert!(content.contains("OK"));
    assert!(!content.contains("Cancel"));
}

#[test]
fn render_with_error() {
    let mut request = make_request(PinentryCmd::GetPin);
    request.error = Some("Bad passphrase".into());
    let content = render_to_string(&request, "");
    assert!(content.contains("Bad passphrase"));
}

#[test]
fn render_uses_title() {
    let request = make_request(PinentryCmd::GetPin);
    let content = render_to_string(&request, "");
    assert!(content.contains("Test"));
}

#[test]
fn render_default_title() {
    let mut request = make_request(PinentryCmd::GetPin);
    request.title = None;
    let content = render_to_string(&request, "");
    assert!(content.contains("Pinentry"));
}

#[test]
fn render_via_backend() {
    let request = make_request(PinentryCmd::GetPin);
    let mut backend = AnsiBackend::new(70, 20);
    render(&mut backend, &request, "test");
    let ansi = backend.to_ansi();
    assert!(!ansi.is_empty());
    assert!(ansi.contains("\x1b[H"));
}

#[test]
fn render_error_only_no_desc() {
    let mut request = make_request(PinentryCmd::GetPin);
    request.desc = None;
    request.error = Some("Invalid passphrase".into());
    let content = render_to_string(&request, "");
    assert!(content.contains("Invalid passphrase"));
}

#[test]
fn render_no_desc_no_error() {
    let mut request = make_request(PinentryCmd::GetPin);
    request.desc = None;
    request.error = None;
    let content = render_to_string(&request, "x");
    assert!(content.contains("PIN:"));
    assert!(content.contains("*"));
}

#[test]
fn render_default_prompt() {
    let mut request = make_request(PinentryCmd::GetPin);
    request.prompt = None;
    let content = render_to_string(&request, "ab");
    assert!(content.contains("Passphrase:"));
    assert!(content.contains("**"));
}

#[test]
fn render_desc_with_error() {
    let mut request = make_request(PinentryCmd::GetPin);
    request.error = Some("Try again".into());
    let content = render_to_string(&request, "");
    assert!(content.contains("passphrase"));
    assert!(content.contains("Try again"));
}

#[test]
fn dialog_width_respects_min_pin_length() {
    let request = make_request(PinentryCmd::GetPin);
    let w = dialog_width(&request, 120);
    let prompt_len = "PIN:".len() as u16;
    assert!(w >= prompt_len + 1 + MIN_PIN_LENGTH + FRAME_PAD);
}

#[test]
fn dialog_width_clamped_to_area() {
    let request = make_request(PinentryCmd::GetPin);
    let w = dialog_width(&request, 30);
    assert!(w <= 30);
}

#[test]
fn dialog_height_includes_error_row() {
    let mut request = make_request(PinentryCmd::GetPin);
    let h_no_err = dialog_height(&request, 50);
    request.error = Some("Bad passphrase".into());
    let h_with_err = dialog_height(&request, 50);
    assert_eq!(h_with_err, h_no_err + 1);
}

#[test]
fn passphrase_is_left_aligned() {
    let request = make_request(PinentryCmd::GetPin);
    let content = render_to_string(&request, "test");
    assert!(content.contains("PIN: ****"));
}

#[test]
fn count_wrapped_lines_with_newlines() {
    assert_eq!(count_wrapped_lines("line1\nline2\nline3", 40), 3);
    assert_eq!(count_wrapped_lines("line1\n\nline3", 40), 3);
}

#[test]
fn count_wrapped_lines_long_word() {
    let long = "A".repeat(80);
    assert_eq!(count_wrapped_lines(&long, 40), 2);
}

#[test]
fn count_wrapped_lines_empty() {
    assert_eq!(count_wrapped_lines("", 40), 1);
}

#[test]
fn dialog_width_confirm_narrower_than_getpin() {
    let getpin = make_request(PinentryCmd::GetPin);
    let confirm = make_request(PinentryCmd::Confirm);
    assert!(dialog_width(&confirm, 120) < dialog_width(&getpin, 120));
}

#[test]
fn render_cursor_at_input_position() {
    let request = make_request(PinentryCmd::GetPin);
    let content = render_to_string(&request, "ab");
    assert!(content.contains("**▎"));
}

#[test]
fn render_cursor_at_start_when_empty() {
    let request = make_request(PinentryCmd::GetPin);
    let content = render_to_string(&request, "");
    assert!(content.contains("PIN: ▎"));
}

#[test]
fn render_confirm_no_cursor() {
    let request = make_request(PinentryCmd::Confirm);
    let content = render_to_string(&request, "");
    assert!(!content.contains("▎"));
}

#[test]
fn dialog_dimensions_borderless() {
    let request = make_request(PinentryCmd::GetPin);
    assert!(dimensions_fit(&request, 200));
    let (w, h) = dialog_dimensions(&request, 200, 50);
    assert_eq!(w, 120);
    assert_eq!(h, 7);
}

// ---- further cases

#[test]
fn dialog_width_exact_values() {
    let getpin = make_request(PinentryCmd::GetPin);
    // "PIN:" (4) + 1 + 40 + 4
    assert_eq!(dialog_width(&getpin, 200), 49);
    let confirm = make_request(PinentryCmd::Confirm);
    // hints 20 + 4
    assert_eq!(dialog_width(&confirm, 200), 24);
    let message = make_request(PinentryCmd::Message);
    // title "Test" (4) + 4 + 4 beats hints 8 + 4
    assert_eq!(dialog_width(&message, 200), 12);
    let mut default_prompt = make_request(PinentryCmd::GetPin);
    default_prompt.prompt = None;
    // "Passphrase:" (11) + 45
    assert_eq!(dialog_width(&default_prompt, 200), 56);
}

#[test]
fn dialog_width_counts_bytes_of_title() {
    let mut request = make_request(PinentryCmd::Message);
    request.title = Some("é".repeat(20));
    // 40 bytes + 4 + 4
    assert_eq!(dialog_width(&request, 200), 48);
}

#[test]
fn dialog_height_exact_values() {
    let getpin = make_request(PinentryCmd::GetPin);
    assert_eq!(dialog_height(&getpin, 50), 7);
    let confirm = make_request(PinentryCmd::Confirm);
    assert_eq!(dialog_height(&confirm, 50), 5);
    let mut no_desc = make_request(PinentryCmd::Message);
    no_desc.desc = None;
    assert_eq!(dialog_height(&no_desc, 50), 5);
    // Narrow text: "Enter your passphrase for key ABC" in 10 columns wraps
    // as "Enter your" / "passphrase" / "for key" / "ABC".
    assert_eq!(dialog_height(&getpin, 12), 2 + 4 + 4);
    // No room for text at all: one row.
    assert_eq!(dialog_height(&getpin, 2), 7);
}

#[test]
fn empty_error_adds_no_row() {
    let mut request = make_request(PinentryCmd::GetPin);
    request.error = Some(String::new());
    assert_eq!(dialog_height(&request, 50), 7);
}

#[test]
fn dialog_dimensions_small_terminal() {
    let request = make_request(PinentryCmd::GetPin);
    // 60% of 40 is 24, the content needs 49, the terminal has 40.
    let (w, h) = dialog_dimensions(&request, 40, 5);
    assert_eq!(w, 40);
    assert_eq!(h, 5);
}

#[test]
fn dimensions_fit_refuses_huge_title() {
    let mut request = make_request(PinentryCmd::Message);
    request.title = Some("x".repeat(65530));
    assert!(!dimensions_fit(&request, 80));
    let mut prompt = make_request(PinentryCmd::GetPin);
    prompt.prompt = Some("x".repeat(65500));
    assert!(!dimensions_fit(&prompt, 80));
}

#[test]
fn count_paragraph_lines_wraps_words() {
    assert_eq!(count_paragraph_lines("", 10), 1);
    assert_eq!(count_paragraph_lines("   ", 10), 1);
    assert_eq!(count_paragraph_lines("hello world", 11), 1);
    assert_eq!(count_paragraph_lines("hello world", 10), 2);
    assert_eq!(count_paragraph_lines("a b c d e", 3), 3);
    // A 25-byte word in rows of 10 takes three rows.
    assert_eq!(count_paragraph_lines(&"x".repeat(25), 10), 3);
    // An exact multiple fills its last row.
    assert_eq!(count_paragraph_lines(&"x".repeat(20), 10), 2);
    assert_eq!(count_paragraph_lines(&format!("{} y", "x".repeat(20)), 10), 3);
}

#[test]
fn count_wrapped_lines_zero_width_and_trailing_newline() {
    assert_eq!(count_wrapped_lines("anything at all", 0), 1);
    assert_eq!(count_wrapped_lines("one\n", 40), 2);
    assert_eq!(count_wrapped_lines("\n", 40), 2);
}

#[test]
fn input_pieces_mask_and_field() {
    let pieces = input_pieces("PIN:", "abc", 20);
    let texts: Vec<&str> = pieces.iter().map(|p| p.text.as_str()).collect();
    // field: 20 - (4 + 2) = 14; three filled, eleven left
    assert_eq!(texts, vec!["PIN:", " ", "***", "▎", "___________"]);
    let full = input_pieces("PIN:", "abcdefghijklmnopq", 20);
    let texts: Vec<&str> = full.iter().map(|p| p.text.as_str()).collect();
    assert_eq!(texts, vec!["PIN:", " ", "**************", "▎"]);
}

#[test]
fn title_and_hint_pieces() {
    let request = make_request(PinentryCmd::GetPin);
    let title: Vec<String> = title_pieces(&request).into_iter().map(|p| p.text).collect();
    assert_eq!(title, vec![" ", "Test", " "]);
    let hints: Vec<String> = hint_pieces(PinentryCmd::Message).into_iter().map(|p| p.text).collect();
    assert_eq!(hints, vec!["Enter", " OK"]);
}

#[test]
fn paint_ops_for_getpin_with_error() {
    let mut request = make_request(PinentryCmd::GetPin);
    request.error = Some("Bad".into());
    let rows: Vec<Area> = (0..6)
        .map(|i| Area { x: 2, y: 1 + i, width: 30, height: 1 })
        .collect();
    let ops = dialog_paint_ops(&request, "abc", &rows);
    assert_eq!(ops.len(), 4);
    match &ops[0] {
        PaintOp::Text { area, text, wrap, align, .. } => {
            assert_eq!(area.y, 1);
            assert_eq!(text, "Enter your passphrase for key ABC");
            assert!(*wrap);
            assert_eq!(*align, Align::Center);
        }
        _ => panic!("description first"),
    }
    match &ops[1] {
        PaintOp::Text { area, text, wrap, .. } => {
            assert_eq!(area.y, 2);
            assert_eq!(text, "Bad");
            assert!(!*wrap);
        }
        _ => panic!("error second"),
    }
    match &ops[2] {
        PaintOp::Line { area, pieces, align } => {
            assert_eq!(area.y, 4);
            assert_eq!(*align, Align::Left);
            assert_eq!(pieces[2].text, "***");
        }
        _ => panic!("input third"),
    }
    match &ops[3] {
        PaintOp::Line { area, pieces, .. } => {
            assert_eq!(area.y, 6);
            assert_eq!(pieces[1].text, " Submit  ");
        }
        _ => panic!("hints last"),
    }
}
