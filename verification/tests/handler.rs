use pinentry_zellij::assuan::HandlerResult;
use pinentry_zellij::handler::{response_to_handler_result, result_to_output};
use pinentry_zellij::protocol::{PinResponse, PinStatus, PinentryCmd, PinentryRequest};

fn request(cmd: PinentryCmd) -> PinentryRequest {
    PinentryRequest {
        cmd,
        title: None,
        desc: None,
        prompt: None,
        error: None,
        ok: None,
        cancel: None,
        notok: None,
        repeat: None,
        repeat_error: None,
    }
}

#[test]
fn response_to_handler_pin_ok() {
    let req = request(PinentryCmd::GetPin);
    let resp = PinResponse {
        status: PinStatus::Okay,
        passphrase: Some("pw".into()),
    };
    let result = response_to_handler_result(&req, resp);
    match result {
        HandlerResult::Pin(p) => assert_eq!(&*p, "pw"),
        _ => panic!("expected Pin"),
    }
}

#[test]
fn response_to_handler_confirm_ok() {
    let req = request(PinentryCmd::Confirm);
    let resp = PinResponse {
        status: PinStatus::Okay,
        passphrase: None,
    };
    let result = response_to_handler_result(&req, resp);
    assert!(matches!(result, HandlerResult::Confirmed));
}

#[test]
fn response_to_handler_canceled() {
    let req = request(PinentryCmd::GetPin);
    let resp = PinResponse {
        status: PinStatus::Canceled,
        passphrase: None,
    };
    let result = response_to_handler_result(&req, resp);
    assert!(matches!(result, HandlerResult::Canceled));
}

#[test]
fn response_to_handler_not_confirmed() {
    let req = request(PinentryCmd::Confirm);
    let resp = PinResponse {
        status: PinStatus::NotConfirmed,
        passphrase: None,
    };
    let result = response_to_handler_result(&req, resp);
    assert!(matches!(result, HandlerResult::NotConfirmed));
}

#[test]
fn response_getpin_ok_no_passphrase_is_canceled() {
    let req = request(PinentryCmd::GetPin);
    let resp = PinResponse {
        status: PinStatus::Okay,
        passphrase: None,
    };
    let result = response_to_handler_result(&req, resp);
    assert!(matches!(result, HandlerResult::Canceled));
}

#[test]
fn response_message_ok_is_confirmed() {
    let req = request(PinentryCmd::Message);
    let resp = PinResponse {
        status: PinStatus::Okay,
        passphrase: None,
    };
    let result = response_to_handler_result(&req, resp);
    assert!(matches!(result, HandlerResult::Confirmed));
}

#[test]
fn pin_result_produces_output_and_success() {
    let result = HandlerResult::Pin("secret".into());
    let (output, success) = result_to_output(result);
    assert_eq!(&*output.unwrap(), "secret");
    assert!(success);
}

#[test]
fn canceled_produces_no_output_and_failure() {
    let (output, success) = result_to_output(HandlerResult::Canceled);
    assert!(output.is_none());
    assert!(!success);
}

#[test]
fn not_confirmed_produces_failure() {
    let (output, success) = result_to_output(HandlerResult::NotConfirmed);
    assert!(output.is_none());
    assert!(!success);
}

#[test]
fn confirmed_produces_failure() {
    let (output, success) = result_to_output(HandlerResult::Confirmed);
    assert!(output.is_none());
    assert!(!success);
}

#[test]
fn canceled_response_ignores_passphrase() {
    let req = request(PinentryCmd::GetPin);
    let resp = PinResponse {
        status: PinStatus::Canceled,
        passphrase: Some("leaked".into()),
    };
    assert!(matches!(response_to_handler_result(&req, resp), HandlerResult::Canceled));
}
