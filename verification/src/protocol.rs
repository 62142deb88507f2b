//! Request and response types exchanged between the pinentry binary and
//! the Zellij plugin (the plugin's JSON encoding of them lives outside the
//! library).

use vstd::prelude::*;

verus! {

/// The type of pinentry operation requested.
#[derive(Debug, Clone, Copy, PartialEq, Eq, Structural)]
pub enum PinentryCmd {
    GetPin,
    Confirm,
    Message,
}

/// The text of an optional string.
pub open spec fn opt_view(o: Option<String>) -> Option<Seq<char>> {
    match o {
        Some(s) => Some(s@),
        None => None,
    }
}

/// A copy of an optional string.
pub fn clone_opt(o: &Option<String>) -> (r: Option<String>)
    ensures
        opt_view(r) == opt_view(*o),
{
    match o {
        Some(s) => Some(s.clone()),
        None => None,
    }
}

/// Pinentry request sent from the binary to the plugin.
#[derive(Debug, Clone, PartialEq, Eq)]
pub struct PinentryRequest {
    pub cmd: PinentryCmd,
    pub title: Option<String>,
    pub desc: Option<String>,
    pub prompt: Option<String>,
    pub error: Option<String>,
    pub ok: Option<String>,
    pub cancel: Option<String>,
    pub notok: Option<String>,
    pub repeat: Option<String>,
    pub repeat_error: Option<String>,
}

/// The texts of a request.
pub struct RequestView {
    pub cmd: PinentryCmd,
    pub title: Option<Seq<char>>,
    pub desc: Option<Seq<char>>,
    pub prompt: Option<Seq<char>>,
    pub error: Option<Seq<char>>,
    pub ok: Option<Seq<char>>,
    pub cancel: Option<Seq<char>>,
    pub notok: Option<Seq<char>>,
    pub repeat: Option<Seq<char>>,
    pub repeat_error: Option<Seq<char>>,
}

impl View for PinentryRequest {
    type V = RequestView;

    open spec fn view(&self) -> RequestView {
        RequestView {
            cmd: self.cmd,
            title: opt_view(self.title),
            desc: opt_view(self.desc),
            prompt: opt_view(self.prompt),
            error: opt_view(self.error),
            ok: opt_view(self.ok),
            cancel: opt_view(self.cancel),
            notok: opt_view(self.notok),
            repeat: opt_view(self.repeat),
            repeat_error: opt_view(self.repeat_error),
        }
    }
}

/// Status returned by the plugin.
#[derive(Debug, Clone, Copy, PartialEq, Eq, Structural)]
pub enum PinStatus {
    Okay,
    Canceled,
    NotConfirmed,
}

/// Response from the plugin back to the binary.
#[derive(Debug, Clone, PartialEq, Eq)]
pub struct PinResponse {
    pub status: PinStatus,
    pub passphrase: Option<String>,
}

} // verus!
