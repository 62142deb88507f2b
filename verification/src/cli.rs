//! The command line: which mode a set of arguments selects, and the help
//! text.

use vstd::prelude::*;

use crate::assuan::chars_equal;
use crate::state::{initial_state, PinentryState, StateView};
use crate::protocol::PinentryCmd;
use crate::text::{chars_of, push_str, string_of};

verus! {

/// The version of this program, as `--version` and `GETINFO version` give it.
pub const VERSION: &'static str = "0.1.0";

/// What the program does for its arguments.
pub enum Mode {
    /// Print the help text.
    Help,
    /// Print the version.
    Version,
    /// Askpass mode with this prompt.
    Askpass(String),
    /// Assuan mode on standard input and output.
    Assuan,
}

/// The mode for the program's arguments (`args[0]` is the program name):
/// `--help`/`-h` and `--version` as the first argument print and exit, any
/// other first argument is an askpass prompt, and no argument selects
/// Assuan mode.
pub fn mode_for_args(args: &[String]) -> (r: Mode)
    ensures
        args@.len() <= 1 ==> r is Assuan,
        args@.len() > 1 ==> {
            let a = args@[1]@;
            if a == "--help"@ || a == "-h"@ {
                r is Help
            } else if a == "--version"@ {
                r is Version
            } else {
                r matches Mode::Askpass(p) && p@ == a
            }
        },
{
    if args.len() <= 1 {
        return Mode::Assuan;
    }
    let a = chars_of(args[1].as_str());
    if chars_equal(a.as_slice(), chars_of("--help").as_slice()) || chars_equal(
        a.as_slice(),
        chars_of("-h").as_slice(),
    ) {
        Mode::Help
    } else if chars_equal(a.as_slice(), chars_of("--version").as_slice()) {
        Mode::Version
    } else {
        Mode::Askpass(args[1].clone())
    }
}

/// The text `--version` prints.
pub open spec fn version_text_spec(version: Seq<char>) -> Seq<char> {
    "pinentry-zellij "@ + version
}

/// The text `--version` prints for `version`.
pub fn version_text(version: &str) -> (r: String)
    ensures
        r@ == version_text_spec(version@),
{
    let mut r = string_of("pinentry-zellij ");
    push_str(&mut r, version);
    r
}

/// The body of the help text, after the version.
pub open spec fn help_body() -> Seq<char> {
    "\nPinentry program for Zellij\n\nUSAGE:\n    pinentry-zellij              Assuan mode (gpg-agent)\n    pinentry-zellij <prompt>     Askpass mode (SSH_ASKPASS / SUDO_ASKPASS)\n\nENVIRONMENT:\n    PINENTRY_ZELLIJ_PLUGIN   Override plugin path (skips auto-install)\n    RUST_LOG                 Tracing filter (e.g. pinentry_zellij=debug)\n\nInside Zellij, prompts appear as a floating plugin pane.\nOutside Zellij, falls back to rpassword on the TTY."@
}

/// The help text `--help` prints.
pub fn help_text() -> (r: String)
    ensures
        r@ == version_text_spec(VERSION@) + help_body(),
{
    let mut r = version_text(VERSION);
    push_str(
        &mut r,
        "\nPinentry program for Zellij\n\nUSAGE:\n    pinentry-zellij              Assuan mode (gpg-agent)\n    pinentry-zellij <prompt>     Askpass mode (SSH_ASKPASS / SUDO_ASKPASS)\n\nENVIRONMENT:\n    PINENTRY_ZELLIJ_PLUGIN   Override plugin path (skips auto-install)\n    RUST_LOG                 Tracing filter (e.g. pinentry_zellij=debug)\n\nInside Zellij, prompts appear as a floating plugin pane.\nOutside Zellij, falls back to rpassword on the TTY.",
    );
    r
}

/// The pinentry state for an askpass prompt: the prompt (if not empty) is
/// the dialog's description, the field keeps its default label, and the
/// command is GetPin.
pub open spec fn askpass_state_spec(prompt: Seq<char>) -> StateView {
    StateView {
        desc: if prompt.len() > 0 {
            Some(prompt)
        } else {
            None
        },
        cmd: Some(PinentryCmd::GetPin),
        ..initial_state()
    }
}

/// The pinentry state for askpass mode with `prompt`.
pub fn askpass_state(prompt: &str) -> (r: PinentryState)
    ensures
        r@ == askpass_state_spec(prompt@),
{
    let mut state = PinentryState::default();
    if !prompt.is_empty() {
        state.desc = Some(string_of(prompt));
    }
    state.set_cmd_getpin();
    state
}

} // verus!
