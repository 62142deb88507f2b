//! Turning the plugin's response into the user's answer, and the answer
//! into what askpass mode prints.

use vstd::prelude::*;

use crate::assuan::{HandlerOutcome, HandlerResult};
use crate::protocol::{PinResponse, PinStatus, PinentryCmd, PinentryRequest};

verus! {

/// The answer that the plugin's response stands for. An `Ok` with a
/// passphrase is that passphrase; an `Ok` without one confirms a
/// CONFIRM or MESSAGE and cancels a GETPIN.
pub open spec fn response_outcome(cmd: PinentryCmd, status: PinStatus, passphrase: Option<
    Seq<char>,
>) -> HandlerOutcome {
    match status {
        PinStatus::Okay => match passphrase {
            Some(p) => HandlerOutcome::Pin(p),
            None => match cmd {
                PinentryCmd::GetPin => HandlerOutcome::Canceled,
                _ => HandlerOutcome::Confirmed,
            },
        },
        PinStatus::Canceled => HandlerOutcome::Canceled,
        PinStatus::NotConfirmed => HandlerOutcome::NotConfirmed,
    }
}

/// Converts a plugin response into the user's answer to `request`.
pub fn response_to_handler_result(request: &PinentryRequest, response: PinResponse) -> (r:
    HandlerResult)
    ensures
        r@ == response_outcome(
            request.cmd,
            response.status,
            crate::protocol::opt_view(response.passphrase),
        ),
{
    match response.status {
        PinStatus::Okay => {
            if let Some(passphrase) = response.passphrase {
                HandlerResult::Pin(passphrase)
            } else {
                match request.cmd {
                    PinentryCmd::GetPin => HandlerResult::Canceled,
                    PinentryCmd::Confirm | PinentryCmd::Message => HandlerResult::Confirmed,
                }
            }
        },
        PinStatus::Canceled => HandlerResult::Canceled,
        PinStatus::NotConfirmed => HandlerResult::NotConfirmed,
    }
}

/// In askpass mode, what to print and whether the program succeeds: a
/// passphrase is printed and is a success; every other answer prints
/// nothing and is a failure.
pub fn result_to_output(result: HandlerResult) -> (r: (Option<String>, bool))
    ensures
        match result@ {
            HandlerOutcome::Pin(p) => r.0 is Some && r.0.unwrap()@ == p && r.1,
            _ => r.0 is None && !r.1,
        },
{
    match result {
        HandlerResult::Pin(passphrase) => (Some(passphrase), true),
        HandlerResult::Confirmed | HandlerResult::Canceled | HandlerResult::NotConfirmed => (
            None,
            false,
        ),
    }
}

/// Only an OK without a passphrase depends on what was asked (it cancels
/// GETPIN and confirms CONFIRM and MESSAGE): a cancel is a cancel and a
/// "not ok" is "not ok" for every command, and an OK with a passphrase is
/// that passphrase.
pub proof fn law_response_outcome_by_status(
    a: PinentryCmd,
    b: PinentryCmd,
    status: PinStatus,
    passphrase: Option<Seq<char>>,
)
    ensures
        response_outcome(a, PinStatus::Canceled, passphrase) == HandlerOutcome::Canceled,
        response_outcome(a, PinStatus::NotConfirmed, passphrase) == HandlerOutcome::NotConfirmed,
        passphrase matches Some(p) ==> response_outcome(a, PinStatus::Okay, passphrase)
            == HandlerOutcome::Pin(p),
        !(status == PinStatus::Okay && passphrase is None) ==> response_outcome(a, status, passphrase)
            == response_outcome(b, status, passphrase),
        response_outcome(PinentryCmd::GetPin, PinStatus::Okay, None) == HandlerOutcome::Canceled,
        a != PinentryCmd::GetPin ==> response_outcome(a, PinStatus::Okay, None)
            == HandlerOutcome::Confirmed,
{
}

} // verus!
