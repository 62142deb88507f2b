use pinentry_zellij::assuan::{HandlerResult, LineOutcome, Server};
use pinentry_zellij::percent::{percent_decode, percent_encode_data};
use pinentry_zellij::state::PinentryState;
use pinentry_zellij::cli::VERSION;

fn pin(s: &str) -> HandlerResult {
    HandlerResult::Pin(s.into())
}

/// Feeds `input` to a server line by line, as the program's loop does, and
/// collects everything the server writes.
fn run_conversation(
    input: &str,
    mut handler: impl FnMut(&PinentryState) -> HandlerResult,
) -> String {
    let mut server = Server::new(4242, VERSION.to_string());
    let mut output: Vec<u8> = server.greeting();
    let mut rest = input;
    while !rest.is_empty() {
        let (line, tail) = match rest.find('\n') {
            Some(i) => (&rest[..=i], &rest[i + 1..]),
            None => (rest, ""),
        };
        rest = tail;
        match server.process_line(line) {
            LineOutcome::Reply(bytes) => output.extend(bytes),
            LineOutcome::Close(bytes) => {
                output.extend(bytes);
                break;
            }
            LineOutcome::AwaitHandler => {
                let result = handler(server.state());
                output.extend(server.handler_reply(result));
            }
        }
    }
    String::from_utf8(output).unwrap()
}

#[test]
fn greeting_and_bye() {
    let output = run_conversation("BYE\n", |_| HandlerResult::Canceled);
    assert_eq!(output, "OK Pleased to meet you\nOK closing connection\n");
}

#[test]
fn nop() {
    let output = run_conversation("NOP\nBYE\n", |_| HandlerResult::Canceled);
    assert_eq!(
        output,
        "OK Pleased to meet you\nOK\nOK closing connection\n"
    );
}

#[test]
fn unknown_command() {
    let output = run_conversation("FOOBAR\nBYE\n", |_| HandlerResult::Canceled);
    let lines: Vec<&str> = output.lines().collect();
    assert_eq!(lines[0], "OK Pleased to meet you");
    assert!(lines[1].starts_with("ERR 83886381"));
    assert_eq!(lines[2], "OK closing connection");
}

#[test]
fn setdesc_and_getpin_ok() {
    let output = run_conversation(
        "SETDESC Please enter your passphrase\nGETPIN\nBYE\n",
        |state| {
            assert_eq!(state.desc.as_deref(), Some("Please enter your passphrase"));
            pin("mysecret")
        },
    );
    let lines: Vec<&str> = output.lines().collect();
    assert_eq!(lines[0], "OK Pleased to meet you");
    assert_eq!(lines[1], "OK"); // SETDESC
    assert_eq!(lines[2], "D mysecret"); // GETPIN data
    assert_eq!(lines[3], "OK"); // GETPIN ok
    assert_eq!(lines[4], "OK closing connection");
}

#[test]
fn getpin_canceled() {
    let output = run_conversation("GETPIN\nBYE\n", |_| HandlerResult::Canceled);
    let lines: Vec<&str> = output.lines().collect();
    assert_eq!(lines[0], "OK Pleased to meet you");
    assert!(lines[1].starts_with("ERR 83886179"));
}

#[test]
fn confirm_ok() {
    let output = run_conversation("SETDESC Do you trust this key?\nCONFIRM\nBYE\n", |_| {
        HandlerResult::Confirmed
    });
    let lines: Vec<&str> = output.lines().collect();
    assert_eq!(lines[0], "OK Pleased to meet you");
    assert_eq!(lines[1], "OK"); // SETDESC
    assert_eq!(lines[2], "OK"); // CONFIRM
    assert_eq!(lines[3], "OK closing connection");
}

#[test]
fn confirm_not_confirmed() {
    let output = run_conversation("CONFIRM\nBYE\n", |_| HandlerResult::NotConfirmed);
    let lines: Vec<&str> = output.lines().collect();
    assert!(lines[1].starts_with("ERR 83886194"));
}

#[test]
fn confirm_canceled() {
    let output = run_conversation("CONFIRM\nBYE\n", |_| HandlerResult::Canceled);
    let lines: Vec<&str> = output.lines().collect();
    assert!(lines[1].starts_with("ERR 83886179"));
}

#[test]
fn message_ok() {
    let output = run_conversation("SETDESC Info message\nMESSAGE\nBYE\n", |_| {
        HandlerResult::Confirmed
    });
    let lines: Vec<&str> = output.lines().collect();
    assert_eq!(lines[2], "OK"); // MESSAGE
}

#[test]
fn message_canceled() {
    let output = run_conversation("MESSAGE\nBYE\n", |_| HandlerResult::Canceled);
    let lines: Vec<&str> = output.lines().collect();
    assert!(lines[1].starts_with("ERR 83886179"));
}

#[test]
fn percent_decoding() {
    let output = run_conversation("SETDESC line1%0Aline2%25done\nGETPIN\nBYE\n", |state| {
        assert_eq!(state.desc.as_deref(), Some("line1\nline2%done"));
        pin("x")
    });
    assert!(output.contains("D x\n"));
}

#[test]
fn percent_encoding_in_data() {
    let output = run_conversation("GETPIN\nBYE\n", |_| pin("pass%word\nnewline"));
    let lines: Vec<&str> = output.lines().collect();
    assert_eq!(lines[1], "D pass%25word%0Anewline");
}

#[test]
fn state_resets_after_getpin() {
    let call_count = std::cell::Cell::new(0);
    let output = run_conversation("SETDESC first\nGETPIN\nGETPIN\nBYE\n", |state| {
        let n = call_count.get();
        call_count.set(n + 1);
        if n == 0 {
            assert_eq!(state.desc.as_deref(), Some("first"));
        } else {
            assert_eq!(state.desc, None);
        }
        pin("p")
    });
    assert!(output.contains("OK closing connection"));
}

#[test]
fn state_resets_after_confirm() {
    let call_count = std::cell::Cell::new(0);
    let output = run_conversation("SETDESC first\nCONFIRM\nCONFIRM\nBYE\n", |state| {
        let n = call_count.get();
        call_count.set(n + 1);
        if n == 0 {
            assert_eq!(state.desc.as_deref(), Some("first"));
        } else {
            assert_eq!(state.desc, None);
        }
        HandlerResult::Confirmed
    });
    assert!(output.contains("OK closing connection"));
}

#[test]
fn multiple_setters() {
    let output = run_conversation(
        "SETTITLE My Title\nSETDESC My Desc\nSETPROMPT Pass:\nSETERROR Bad pin\nSETOK Yes\nSETNOTOK No\nSETCANCEL Abort\nSETREPEAT Again:\nSETREPEATERROR Mismatch\nSETKEYINFO key123\nSETQUALITYBAR\nSETTIMEOUT 30\nGETPIN\nBYE\n",
        |state| {
            assert_eq!(state.title.as_deref(), Some("My Title"));
            assert_eq!(state.desc.as_deref(), Some("My Desc"));
            assert_eq!(state.prompt.as_deref(), Some("Pass:"));
            assert_eq!(state.error.as_deref(), Some("Bad pin"));
            assert_eq!(state.ok.as_deref(), Some("Yes"));
            assert_eq!(state.notok.as_deref(), Some("No"));
            assert_eq!(state.cancel.as_deref(), Some("Abort"));
            assert_eq!(state.repeat.as_deref(), Some("Again:"));
            assert_eq!(state.repeat_error.as_deref(), Some("Mismatch"));
            assert_eq!(state.keyinfo.as_deref(), Some("key123"));
            assert!(state.quality_bar);
            assert_eq!(state.timeout, Some(30));
            pin("ok")
        },
    );
    assert!(output.contains("D ok\n"));
}

#[test]
fn option_command() {
    let output = run_conversation(
        "OPTION allow-external-password-cache\nOPTION ttyname=/dev/pts/1\nGETPIN\nBYE\n",
        |state| {
            assert_eq!(
                state
                    .options
                    .get("allow-external-password-cache")
                    .map(String::as_str),
                Some("")
            );
            assert_eq!(
                state.options.get("ttyname").map(String::as_str),
                Some("/dev/pts/1")
            );
            pin("p")
        },
    );
    assert!(output.contains("D p\n"));
}

#[test]
fn getinfo_pid() {
    let output = run_conversation("GETINFO pid\nBYE\n", |_| HandlerResult::Canceled);
    let lines: Vec<&str> = output.lines().collect();
    assert!(lines[1].starts_with("D "));
    let pid_str = lines[1].strip_prefix("D ").unwrap();
    assert!(pid_str.parse::<u32>().is_ok());
    assert_eq!(pid_str, "4242");
}

#[test]
fn getinfo_version() {
    let output = run_conversation("GETINFO version\nBYE\n", |_| HandlerResult::Canceled);
    let lines: Vec<&str> = output.lines().collect();
    assert!(lines[1].starts_with("D "));
    assert_eq!(lines[1], "D 0.1.0");
}

#[test]
fn getinfo_flavor() {
    let output = run_conversation("GETINFO flavor\nBYE\n", |_| HandlerResult::Canceled);
    let lines: Vec<&str> = output.lines().collect();
    assert_eq!(lines[1], "D zellij");
}

#[test]
fn getinfo_ttyinfo() {
    let output = run_conversation("GETINFO ttyinfo\nBYE\n", |_| HandlerResult::Canceled);
    let lines: Vec<&str> = output.lines().collect();
    assert_eq!(lines[1], "D - - -");
}

#[test]
fn getinfo_unknown() {
    let output = run_conversation("GETINFO bogus\nBYE\n", |_| HandlerResult::Canceled);
    let lines: Vec<&str> = output.lines().collect();
    assert!(lines[1].starts_with("ERR"));
}

#[test]
fn comment_line_ignored() {
    let output = run_conversation("# this is a comment\nNOP\nBYE\n", |_| {
        HandlerResult::Canceled
    });
    let lines: Vec<&str> = output.lines().collect();
    assert_eq!(lines[0], "OK Pleased to meet you");
    assert_eq!(lines[1], "OK"); // NOP
    assert_eq!(lines[2], "OK closing connection");
}

#[test]
fn comment_without_space() {
    let output = run_conversation("#comment\nNOP\nBYE\n", |_| HandlerResult::Canceled);
    let lines: Vec<&str> = output.lines().collect();
    assert_eq!(lines[0], "OK Pleased to meet you");
    assert_eq!(lines[1], "OK"); // NOP
}

#[test]
fn empty_line_ignored() {
    let output = run_conversation("\nNOP\nBYE\n", |_| HandlerResult::Canceled);
    let lines: Vec<&str> = output.lines().collect();
    assert_eq!(lines[0], "OK Pleased to meet you");
    assert_eq!(lines[1], "OK");
    assert_eq!(lines[2], "OK closing connection");
}

#[test]
fn eof_terminates() {
    let output = run_conversation("NOP\n", |_| HandlerResult::Canceled);
    let lines: Vec<&str> = output.lines().collect();
    assert_eq!(lines[0], "OK Pleased to meet you");
    assert_eq!(lines[1], "OK");
}

#[test]
fn case_insensitive_commands() {
    let output = run_conversation("setdesc hello\ngetpin\nbye\n", |state| {
        assert_eq!(state.desc.as_deref(), Some("hello"));
        pin("p")
    });
    assert!(output.contains("D p\n"));
    assert!(output.contains("OK closing connection"));
}

#[test]
fn percent_decode_edge_cases() {
    // Truncated percent sequence
    assert_eq!(percent_decode("abc%2"), "abc%2");
    assert_eq!(percent_decode("abc%"), "abc%");
    // Invalid hex
    assert_eq!(percent_decode("%ZZ"), "%ZZ");
    // Multiple sequences
    assert_eq!(percent_decode("%25%0A%0D"), "%\n\r");
}

#[test]
fn crlf_line_endings() {
    let output = run_conversation("NOP\r\nBYE\r\n", |_| HandlerResult::Canceled);
    let lines: Vec<&str> = output.lines().collect();
    assert_eq!(lines[0], "OK Pleased to meet you");
    assert_eq!(lines[1], "OK");
    assert_eq!(lines[2], "OK closing connection");
}

#[test]
fn getpin_returns_confirmed_treated_as_cancel() {
    let output = run_conversation("GETPIN\nBYE\n", |_| HandlerResult::Confirmed);
    let lines: Vec<&str> = output.lines().collect();
    assert!(lines[1].starts_with("ERR 83886179"));
}

#[test]
fn confirm_returns_pin_treated_as_cancel() {
    let output = run_conversation("CONFIRM\nBYE\n", |_| pin("x"));
    let lines: Vec<&str> = output.lines().collect();
    assert!(lines[1].starts_with("ERR 83886179"));
}

#[test]
fn percent_decode_multibyte_utf8() {
    // %C3%BC = UTF-8 for 'ü' (U+00FC)
    assert_eq!(percent_decode("%C3%BC"), "ü");
    // %E2%9C%93 = UTF-8 for '✓' (U+2713)
    assert_eq!(percent_decode("%E2%9C%93"), "✓");
    // Mixed literal and encoded
    assert_eq!(percent_decode("hello%C3%BCworld"), "helloüworld");
}

#[test]
fn long_data_split_into_multiple_d_lines() {
    // Create a passphrase longer than 997 bytes to trigger line splitting
    let long_pin = "A".repeat(2000);
    let output = run_conversation("GETPIN\nBYE\n", |_| HandlerResult::Pin(long_pin.clone()));
    let d_lines: Vec<&str> = output.lines().filter(|l| l.starts_with("D ")).collect();
    // Should be split into multiple D lines (2000 bytes > 997)
    assert!(
        d_lines.len() >= 2,
        "expected multiple D lines, got {}",
        d_lines.len()
    );
    // The reassembled data equals what was sent.
    let reassembled: String = d_lines
        .iter()
        .map(|l| l.strip_prefix("D ").unwrap())
        .collect();
    assert_eq!(reassembled, long_pin);
}

// ---------------------------------------------------------------- further cases

#[test]
fn percent_decode_sign_is_not_a_hex_digit() {
    // An escape needs two hex digits; a sign makes it malformed.
    assert_eq!(percent_decode("%+A"), "%+A");
    assert_eq!(percent_decode("%-A"), "%-A");
}

#[test]
fn percent_decode_invalid_utf8_is_replaced() {
    assert_eq!(percent_decode("a%FFb"), "a\u{FFFD}b");
}

#[test]
fn percent_decode_lowercase_hex() {
    assert_eq!(percent_decode("%c3%bc"), "ü");
}

#[test]
fn percent_roundtrip_samples() {
    for s in ["", "plain", "100%", "a\nb\rc", "%%%", "ü✓ mixed % \n", "%0A literal"] {
        assert_eq!(percent_decode(&percent_encode_data(s)), s);
    }
}

#[test]
fn percent_encode_escapes_only_three_characters() {
    assert_eq!(percent_encode_data("a%b\nc\rd é"), "a%25b%0Ac%0Dd é");
}

#[test]
fn percent_decode_without_percent_is_identity() {
    for s in ["abc XYZ 019", "ünïcödé", "", "# comment-like"] {
        assert_eq!(percent_decode(s), s);
    }
}

#[test]
fn data_lines_are_at_most_997_bytes() {
    let long_pin = "B".repeat(997 * 2 + 3);
    let output = run_conversation("GETPIN\n", |_| HandlerResult::Pin(long_pin.clone()));
    let d_lines: Vec<&str> = output.lines().filter(|l| l.starts_with("D ")).collect();
    assert_eq!(d_lines.len(), 3);
    assert_eq!(d_lines[0].len(), 2 + 997);
    assert_eq!(d_lines[1].len(), 2 + 997);
    assert_eq!(d_lines[2].len(), 2 + 3);
}

#[test]
fn empty_pin_sends_only_ok() {
    let output = run_conversation("GETPIN\n", |_| pin(""));
    assert_eq!(output, "OK Pleased to meet you\nOK\n");
}

#[test]
fn message_not_confirmed_is_ok() {
    let output = run_conversation("MESSAGE\n", |_| HandlerResult::NotConfirmed);
    assert_eq!(output, "OK Pleased to meet you\nOK\n");
}

#[test]
fn settimeout_invalid_clears_timeout() {
    run_conversation("SETTIMEOUT 30\nSETTIMEOUT abc\nGETPIN\n", |state| {
        assert_eq!(state.timeout, None);
        pin("p")
    });
    run_conversation("SETTIMEOUT +7\nGETPIN\n", |state| {
        assert_eq!(state.timeout, Some(7));
        pin("p")
    });
    run_conversation("SETTIMEOUT 4294967296\nGETPIN\n", |state| {
        assert_eq!(state.timeout, None);
        pin("p")
    });
}

#[test]
fn setkeyinfo_is_not_decoded() {
    run_conversation("SETKEYINFO a%25b\nGETPIN\n", |state| {
        assert_eq!(state.keyinfo.as_deref(), Some("a%25b"));
        pin("p")
    });
}

#[test]
fn parameter_leading_white_space_is_dropped() {
    run_conversation("SETDESC    spaced out \nGETPIN\n", |state| {
        assert_eq!(state.desc.as_deref(), Some("spaced out "));
        pin("p")
    });
}

#[test]
fn unknown_command_error_text() {
    let output = run_conversation("FOO bar\n", |_| HandlerResult::Canceled);
    assert_eq!(output, "OK Pleased to meet you\nERR 83886381 Unknown command\n");
}

#[test]
fn error_texts_of_handler_replies() {
    let output = run_conversation("GETPIN\nCONFIRM\n", |state| {
        if state.cmd().is_some() && state.to_request().cmd == pinentry_zellij::protocol::PinentryCmd::GetPin {
            HandlerResult::Canceled
        } else {
            HandlerResult::NotConfirmed
        }
    });
    assert_eq!(
        output,
        "OK Pleased to meet you\nERR 83886179 Operation cancelled\nERR 83886194 Not confirmed\n"
    );
}

#[test]
fn options_survive_getpin() {
    let count = std::cell::Cell::new(0);
    run_conversation("OPTION lc-ctype=C\nSETDESC x\nGETPIN\nGETPIN\n", |state| {
        count.set(count.get() + 1);
        assert_eq!(state.options.get("lc-ctype").map(String::as_str), Some("C"));
        pin("p")
    });
    assert_eq!(count.get(), 2);
}

#[test]
fn handler_is_asked_once_per_request_before_bye() {
    let mut seen = Vec::new();
    let out = run_conversation(
        "SETDESC a\nGETPIN\nconfirm\n# comment\nNOP\nMESSAGE\nbye\nGETPIN\n",
        |st| {
            seen.push(st.cmd().copied());
            HandlerResult::Confirmed
        },
    );
    assert_eq!(
        seen,
        vec![
            Some(pinentry_zellij::protocol::PinentryCmd::GetPin),
            Some(pinentry_zellij::protocol::PinentryCmd::Confirm),
            Some(pinentry_zellij::protocol::PinentryCmd::Message),
        ]
    );
    assert!(out.ends_with("OK closing connection\n"));
}

#[test]
fn data_reply_splits_long_text_into_short_lines() {
    let text = "x".repeat(2500);
    let mut out = Vec::new();
    pinentry_zellij::assuan::push_data_reply(&mut out, &text);
    let s = String::from_utf8(out).unwrap();
    let lines: Vec<&str> = s.split_inclusive('\n').collect();
    assert_eq!(lines.len(), 4);
    for l in &lines[..3] {
        assert!(l.starts_with("D "));
        assert!(l.len() <= 1000);
    }
    assert_eq!(lines[3], "OK\n");
    let mut empty = Vec::new();
    pinentry_zellij::assuan::push_data_reply(&mut empty, "");
    assert_eq!(empty, b"OK\n".to_vec());
}
