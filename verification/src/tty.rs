//! The pinentry dialog on the terminal, used outside Zellij or when the
//! plugin fails. The prompts and the reading of answers are the decisions
//! here; the terminal itself is reached through `TtyIo`.

use vstd::prelude::*;

use crate::assuan::{HandlerOutcome, HandlerResult};
use crate::protocol::{opt_view, PinentryCmd};
use crate::secret::zeroize_string;
use crate::state::{PinentryState, StateView};
use crate::assuan::chars_equal;
use crate::text::{
    ascii_lower_seq, chars_of, push_str, string_of, to_ascii_lowercase, trim,
    trim_chars,
};

verus! {

/// A call made on a terminal, with what it returned.
pub enum TtyEvent {
    /// A message written to standard error.
    Wrote(Seq<char>),
    /// A passphrase read after the prompt: the entry, or none.
    ReadPassword(Seq<char>, Option<Seq<char>>),
    /// A line read after the prompt: the line, or none.
    ReadLine(Seq<char>, Option<Seq<char>>),
}

/// Terminal input and output, as the dialog needs it.
///
/// A terminal may keep a record of the calls made on it (`records`); one
/// that does adds each call, with what it returned, to the end of
/// `record`. A terminal that keeps none promises nothing.
pub trait TtyIo {
    /// Whether this terminal keeps a record of its calls.
    open spec fn records(&self) -> bool {
        false
    }

    /// The calls made on this terminal so far, where it keeps a record.
    open spec fn record(&self) -> Seq<TtyEvent> {
        Seq::empty()
    }

    /// Writes a message to standard error (visible to the user).
    fn write_stderr(&mut self, msg: &str)
        ensures
            old(self).records() ==> final(self).records() && final(self).record() == old(
                self,
            ).record().push(TtyEvent::Wrote(msg@)),
    ;

    /// Reads a passphrase with echo disabled.
    fn read_password(&mut self, prompt: &str) -> (r: Option<String>)
        ensures
            old(self).records() ==> final(self).records() && final(self).record() == old(
                self,
            ).record().push(TtyEvent::ReadPassword(prompt@, opt_view(r))),
    ;

    /// Reads a line of text (with echo).
    fn read_line(&mut self, prompt: &str) -> (r: Option<String>)
        ensures
            old(self).records() ==> final(self).records() && final(self).record() == old(
                self,
            ).record().push(TtyEvent::ReadLine(prompt@, opt_view(r))),
    ;
}

/// The messages written, in order, in the calls `es`.
pub open spec fn wrote_messages(es: Seq<TtyEvent>) -> Seq<Seq<char>>
    decreases es.len(),
{
    if es.len() == 0 {
        Seq::empty()
    } else {
        let m = wrote_messages(es.drop_last());
        match es.last() {
            TtyEvent::Wrote(w) => m.push(w),
            _ => m,
        }
    }
}

/// A terminal that answers from a script: the passphrases and the lines to
/// return, in order (none once they run out). It keeps what was written
/// and a record of every call.
pub struct ScriptedTty {
    passwords: Vec<String>,
    lines: Vec<String>,
    next_password: usize,
    next_line: usize,
    written: Vec<String>,
    calls: Ghost<Seq<TtyEvent>>,
}

impl ScriptedTty {
    /// A terminal that will return `passwords` and `lines`, in order,
    /// with nothing written or called yet.
    pub fn new(passwords: Vec<String>, lines: Vec<String>) -> (r: ScriptedTty)
        ensures
            r.records(),
            r.record() == Seq::<TtyEvent>::empty(),
    {
        let written: Vec<String> = Vec::new();
        proof {
            assert(written@.map_values(|w: String| w@) =~= Seq::<Seq<char>>::empty());
        }
        ScriptedTty {
            passwords,
            lines,
            next_password: 0,
            next_line: 0,
            written,
            calls: Ghost(Seq::empty()),
        }
    }

    /// What was written is what the record shows written.
    #[verifier::type_invariant]
    spec fn messages_recorded(self) -> bool {
        self.written@.map_values(|w: String| w@) == wrote_messages(self.calls@)
    }

    /// The messages written so far, in order.
    pub fn written(&self) -> (r: &Vec<String>)
        ensures
            r@.map_values(|w: String| w@) == wrote_messages(self.record()),
    {
        proof {
            use_type_invariant(self);
        }
        &self.written
    }
}

impl TtyIo for ScriptedTty {
    open spec fn records(&self) -> bool {
        true
    }

    closed spec fn record(&self) -> Seq<TtyEvent> {
        self.calls@
    }

    fn write_stderr(&mut self, msg: &str) {
        let mut held = ScriptedTty::new(Vec::new(), Vec::new());
        core::mem::swap(self, &mut held);
        proof {
            use_type_invariant(&held);
        }
        let ScriptedTty { passwords, lines, next_password, next_line, mut written, calls } = held;
        let ghost before = calls@;
        written.push(string_of(msg));
        proof {
            assert(before.push(TtyEvent::Wrote(msg@)).drop_last() =~= before);
            assert(written@.map_values(|w: String| w@) =~= wrote_messages(before).push(msg@));
        }
        *self = ScriptedTty {
            passwords,
            lines,
            next_password,
            next_line,
            written,
            calls: Ghost(before.push(TtyEvent::Wrote(msg@))),
        };
    }

    fn read_password(&mut self, prompt: &str) -> (r: Option<String>) {
        proof {
            use_type_invariant(&*self);
        }
        let r = if self.next_password < self.passwords.len() {
            let p = string_of(self.passwords[self.next_password].as_str());
            self.next_password = self.next_password + 1;
            Some(p)
        } else {
            None
        };
        proof {
            let before = self.calls@;
            assert(before.push(TtyEvent::ReadPassword(prompt@, opt_view(r))).drop_last() =~= before);
        }
        self.calls = Ghost(self.calls@.push(TtyEvent::ReadPassword(prompt@, opt_view(r))));
        r
    }

    fn read_line(&mut self, prompt: &str) -> (r: Option<String>) {
        proof {
            use_type_invariant(&*self);
        }
        let r = if self.next_line < self.lines.len() {
            let l = string_of(self.lines[self.next_line].as_str());
            self.next_line = self.next_line + 1;
            Some(l)
        } else {
            None
        };
        proof {
            let before = self.calls@;
            assert(before.push(TtyEvent::ReadLine(prompt@, opt_view(r))).drop_last() =~= before);
        }
        self.calls = Ghost(self.calls@.push(TtyEvent::ReadLine(prompt@, opt_view(r))));
        r
    }
}

/// `prompt` ending in `:` or `?` followed by a space (a `:` is added where
/// it ends otherwise).
pub open spec fn format_prompt_spec(prompt: Seq<char>) -> Seq<char> {
    if prompt.len() > 0 && (prompt.last() == ':' || prompt.last() == '?') {
        prompt + " "@
    } else {
        prompt + ": "@
    }
}

/// Ensures the prompt ends with `:` or `?` followed by a space.
pub fn format_prompt(prompt: &str) -> (r: String)
    ensures
        r@ == format_prompt_spec(prompt@),
{
    let cs = chars_of(prompt);
    let mut r = string_of(prompt);
    if cs.len() > 0 && (cs[cs.len() - 1] == ':' || cs[cs.len() - 1] == '?') {
        push_str(&mut r, " ");
    } else {
        push_str(&mut r, ": ");
    }
    r
}

/// `text` on a line of its own.
pub open spec fn line_spec(text: Seq<char>) -> Seq<char> {
    text + "\n"@
}

/// `text` framed as an error: `*** text ***` on a line.
pub open spec fn error_line_spec(text: Seq<char>) -> Seq<char> {
    "*** "@ + text + " ***\n"@
}

fn line_of(text: &str) -> (r: String)
    ensures
        r@ == line_spec(text@),
{
    let mut r = string_of(text);
    push_str(&mut r, "\n");
    r
}

fn error_line(text: &str) -> (r: String)
    ensures
        r@ == error_line_spec(text@),
{
    let mut r = string_of("*** ");
    push_str(&mut r, text);
    push_str(&mut r, " ***\n");
    r
}

/// The prompt for the passphrase.
pub open spec fn getpin_prompt_spec(st: StateView) -> Seq<char> {
    format_prompt_spec(
        match st.prompt {
            Some(p) => p,
            None => "PIN:"@,
        },
    )
}

/// The message shown when the repeated passphrase differs.
pub open spec fn repeat_error_spec(st: StateView) -> Seq<char> {
    error_line_spec(
        match st.repeat_error {
            Some(e) => e,
            None => "Passphrases don't match."@,
        },
    )
}

/// The CONFIRM question, naming the choices.
pub open spec fn confirm_prompt_spec(st: StateView) -> Seq<char> {
    let ok = match st.ok {
        Some(o) => o,
        None => "OK"@,
    };
    let cancel = match st.cancel {
        Some(c) => c,
        None => "Cancel"@,
    };
    match st.notok {
        Some(n) => "[y]"@ + ok + " [n]"@ + n + " [c]"@ + cancel + "? "@,
        None => "[y]"@ + ok + " [n]"@ + cancel + "? "@,
    }
}

/// The answer that a reply to the CONFIRM question stands for: `y`/`yes`
/// confirms, `n`/`no` is "not ok" where a not-ok choice was offered and a
/// cancel otherwise, anything else cancels (white space around the reply and
/// ASCII case do not matter).
pub open spec fn confirm_answer_spec(st: StateView, reply: Seq<char>) -> HandlerOutcome {
    let a = ascii_lower_seq(trim(reply));
    if a == "y"@ || a == "yes"@ {
        HandlerOutcome::Confirmed
    } else if a == "n"@ || a == "no"@ {
        if st.notok is Some {
            HandlerOutcome::NotConfirmed
        } else {
            HandlerOutcome::Canceled
        }
    } else {
        HandlerOutcome::Canceled
    }
}

/// The prompt for the passphrase.
pub fn getpin_prompt(state: &PinentryState) -> (r: String)
    ensures
        r@ == getpin_prompt_spec(state@),
{
    match &state.prompt {
        Some(p) => format_prompt(p.as_str()),
        None => format_prompt("PIN:"),
    }
}

/// The message shown when the repeated passphrase differs.
pub fn repeat_error(state: &PinentryState) -> (r: String)
    ensures
        r@ == repeat_error_spec(state@),
{
    match &state.repeat_error {
        Some(e) => error_line(e.as_str()),
        None => error_line("Passphrases don't match."),
    }
}

/// The CONFIRM question, naming the choices.
pub fn confirm_prompt(state: &PinentryState) -> (r: String)
    ensures
        r@ == confirm_prompt_spec(state@),
{
    let mut r = string_of("[y]");
    match &state.ok {
        Some(o) => push_str(&mut r, o.as_str()),
        None => push_str(&mut r, "OK"),
    }
    push_str(&mut r, " [n]");
    match &state.notok {
        Some(n) => {
            push_str(&mut r, n.as_str());
            push_str(&mut r, " [c]");
        },
        None => {},
    }
    match &state.cancel {
        Some(c) => push_str(&mut r, c.as_str()),
        None => push_str(&mut r, "Cancel"),
    }
    push_str(&mut r, "? ");
    r
}

/// The answer that a reply to the CONFIRM question stands for.
pub fn confirm_answer(state: &PinentryState, reply: &str) -> (r: HandlerResult)
    ensures
        r@ == confirm_answer_spec(state@, reply@),
{
    let cs = chars_of(reply);
    let t = trim_chars(cs.as_slice());
    let a = to_ascii_lowercase(t.as_slice());
    let is = |w: &str| -> (b: bool)
        ensures
            b == (a@ == w@),
        { chars_equal(a.as_slice(), chars_of(w).as_slice()) };
    if is("y") || is("yes") {
        HandlerResult::Confirmed
    } else if is("n") || is("no") {
        if state.notok.is_some() {
            HandlerResult::NotConfirmed
        } else {
            HandlerResult::Canceled
        }
    } else {
        HandlerResult::Canceled
    }
}

/// Handles a request on the terminal by running the dialog for its
/// command: the answer is the one the dialog gives for the replies the
/// terminal returned, and a terminal that keeps a record of its calls
/// records exactly the dialog's writes and reads for those replies. Whatever those are: a request without a command is
/// canceled, MESSAGE is always confirmed, GETPIN gives a passphrase or a
/// cancel, and CONFIRM gives "not ok" only where a not-ok choice was
/// offered.
pub fn handle_tty<T: TtyIo>(state: &PinentryState, io: &mut T) -> (r: HandlerResult)
    ensures
        exists|replies: Seq<Option<Seq<char>>>|
            dialog_ran(state@, state@.cmd, replies, *old(io), *final(io), r@),
        state@.cmd is None ==> r@ is Canceled,
        state@.cmd == Some(PinentryCmd::GetPin) ==> (r@ is Pin || r@ is Canceled),
        state@.cmd == Some(PinentryCmd::Confirm) ==> (r@ is Confirmed || r@ is Canceled || (
        r@ is NotConfirmed && state@.notok is Some)),
        state@.cmd == Some(PinentryCmd::Message) ==> r@ is Confirmed,
{
    match state.cmd {
        Some(PinentryCmd::GetPin) => handle_getpin(state, io),
        Some(PinentryCmd::Confirm) => handle_confirm(state, io),
        Some(PinentryCmd::Message) => handle_message(state, io),
        None => {
            proof {
                let e = Seq::<Option<Seq<char>>>::empty();
                assert(dialog_transcript(state@, None, e) =~= Seq::<TtyEvent>::empty());
                assert(io.record() + dialog_transcript(state@, None, e) =~= io.record());
                assert(dialog_ran(state@, None, e, *old(io), *io, HandlerOutcome::Canceled));
            }
            HandlerResult::Canceled
        },
    }
}

/// The answer to GETPIN given what the terminal returned: the entry (none
/// on end of input or error) and, where the request asks for it to be
/// repeated, the second entry. The entry is the passphrase unless a repeat
/// was asked for and does not match.
pub open spec fn getpin_outcome(st: StateView, first: Option<Seq<char>>, second: Option<Seq<char>>) -> HandlerOutcome {
    match first {
        None => HandlerOutcome::Canceled,
        Some(p) => if st.repeat is None {
            HandlerOutcome::Pin(p)
        } else {
            match second {
                Some(q) => if q == p {
                    HandlerOutcome::Pin(p)
                } else {
                    HandlerOutcome::Canceled
                },
                None => HandlerOutcome::Canceled,
            }
        },
    }
}

/// Whether both entries were read and differ (the mismatch is then shown).
pub open spec fn entries_differ(st: StateView, first: Option<Seq<char>>, second: Option<Seq<char>>) -> bool {
    st.repeat is Some && first is Some && second is Some && second != first
}

/// The answer to GETPIN from the entries read, and whether to show that
/// they differ; the entries not handed back are zeroized.
pub fn getpin_result(state: &PinentryState, first: Option<String>, second: Option<String>) -> (r: (
    HandlerResult,
    bool,
))
    ensures
        r.0@ == getpin_outcome(state@, opt_view(first), opt_view(second)),
        r.1 == entries_differ(state@, opt_view(first), opt_view(second)),
{
    let mut passphrase = match first {
        Some(p) => p,
        None => {
            if let Some(mut q) = second {
                zeroize_string(&mut q);
            }
            return (HandlerResult::Canceled, false);
        },
    };
    if state.repeat.is_none() {
        if let Some(mut q) = second {
            zeroize_string(&mut q);
        }
        return (HandlerResult::Pin(passphrase), false);
    }
    match second {
        Some(mut passphrase2) => {
            let same = passphrase == passphrase2;
            zeroize_string(&mut passphrase2);
            if same {
                (HandlerResult::Pin(passphrase), false)
            } else {
                zeroize_string(&mut passphrase);
                (HandlerResult::Canceled, true)
            }
        },
        None => {
            zeroize_string(&mut passphrase);
            (HandlerResult::Canceled, false)
        },
    }
}

// ---------------------------------------------------------------- the dialog

/// What the dialog does after writing its lines: read a passphrase or a
/// line after a prompt, or finish with an answer.
pub enum TtyNext {
    ReadPassword(String),
    ReadLine(String),
    Finish(HandlerResult),
}

/// One step of the dialog: lines to write to standard error, in order,
/// then what follows.
pub struct TtyStep {
    pub writes: Vec<String>,
    pub next: TtyNext,
}

/// What the dialog waits for.
pub enum TtyPhase {
    /// GETPIN: the passphrase.
    FirstEntry,
    /// GETPIN: the passphrase again, the first entry held.
    RepeatEntry(String),
    /// CONFIRM: the answer to the question.
    Answer,
    /// MESSAGE: Enter.
    Enter,
    /// Nothing: the dialog is over.
    Over,
}

/// The content of a `TtyNext`.
pub enum NextView {
    ReadPassword(Seq<char>),
    ReadLine(Seq<char>),
    Finish(HandlerOutcome),
}

/// The content of a `TtyStep`.
pub struct StepView {
    pub writes: Seq<Seq<char>>,
    pub next: NextView,
}

/// The content of a `TtyPhase`.
pub enum PhaseView {
    FirstEntry,
    RepeatEntry(Seq<char>),
    Answer,
    Enter,
    Over,
}

impl View for TtyNext {
    type V = NextView;

    open spec fn view(&self) -> NextView {
        match self {
            TtyNext::ReadPassword(p) => NextView::ReadPassword(p@),
            TtyNext::ReadLine(p) => NextView::ReadLine(p@),
            TtyNext::Finish(r) => NextView::Finish(r@),
        }
    }
}

impl View for TtyStep {
    type V = StepView;

    open spec fn view(&self) -> StepView {
        StepView { writes: self.writes@.map_values(|w: String| w@), next: self.next@ }
    }
}

impl View for TtyPhase {
    type V = PhaseView;

    open spec fn view(&self) -> PhaseView {
        match self {
            TtyPhase::FirstEntry => PhaseView::FirstEntry,
            TtyPhase::RepeatEntry(p) => PhaseView::RepeatEntry(p@),
            TtyPhase::Answer => PhaseView::Answer,
            TtyPhase::Enter => PhaseView::Enter,
            TtyPhase::Over => PhaseView::Over,
        }
    }
}

/// A step that writes nothing and finishes with `r`.
pub open spec fn finish(r: HandlerOutcome) -> StepView {
    StepView { writes: Seq::empty(), next: NextView::Finish(r) }
}

/// The description on a line of its own, where there is one.
pub open spec fn desc_writes(st: StateView) -> Seq<Seq<char>> {
    match st.desc {
        Some(d) => seq![line_spec(d)],
        None => Seq::empty(),
    }
}

/// How the dialog for `cmd` opens:
/// - GETPIN writes the description and the error (framed), then reads the
///   passphrase after `getpin_prompt_spec`;
/// - CONFIRM writes the description, then reads a line after the question;
/// - MESSAGE writes the description and `Press enter to continue.`, then
///   reads a line after an empty prompt;
/// - without a command it finishes at once, canceled.
pub open spec fn dialog_start_spec(st: StateView, cmd: Option<PinentryCmd>) -> (PhaseView, StepView) {
    match cmd {
        None => (PhaseView::Over, finish(HandlerOutcome::Canceled)),
        Some(PinentryCmd::GetPin) => (
            PhaseView::FirstEntry,
            StepView {
                writes: desc_writes(st) + match st.error {
                    Some(e) => seq![error_line_spec(e)],
                    None => Seq::empty(),
                },
                next: NextView::ReadPassword(getpin_prompt_spec(st)),
            },
        ),
        Some(PinentryCmd::Confirm) => (
            PhaseView::Answer,
            StepView { writes: desc_writes(st), next: NextView::ReadLine(confirm_prompt_spec(st)) },
        ),
        Some(PinentryCmd::Message) => (
            PhaseView::Enter,
            StepView {
                writes: desc_writes(st) + seq!["Press enter to continue."@],
                next: NextView::ReadLine(Seq::empty()),
            },
        ),
    }
}

/// How the dialog goes on after `reply` (none on end of input or error):
/// - the first entry, where a repeat is asked for, leads to a second read
///   after the repeat prompt; otherwise it is the answer (none cancels);
/// - the repeated entry gives the first one where they match; where they
///   differ the mismatch message is written and the dialog is canceled;
/// - the answer to the question is read by `confirm_answer_spec`;
/// - Enter (or anything) after a message confirms.
pub open spec fn dialog_reply_spec(st: StateView, phase: PhaseView, reply: Option<Seq<char>>) -> (
    PhaseView,
    StepView,
) {
    match phase {
        PhaseView::FirstEntry => match (reply, st.repeat) {
            (Some(p), Some(rp)) => (
                PhaseView::RepeatEntry(p),
                StepView { writes: Seq::empty(), next: NextView::ReadPassword(format_prompt_spec(rp)) },
            ),
            _ => (PhaseView::Over, finish(getpin_outcome(st, reply, None))),
        },
        PhaseView::RepeatEntry(p) => (
            PhaseView::Over,
            StepView {
                writes: if entries_differ(st, Some(p), reply) {
                    seq![repeat_error_spec(st)]
                } else {
                    Seq::empty()
                },
                next: NextView::Finish(getpin_outcome(st, Some(p), reply)),
            },
        ),
        PhaseView::Answer => (
            PhaseView::Over,
            finish(
                match reply {
                    Some(a) => confirm_answer_spec(st, a),
                    None => HandlerOutcome::Canceled,
                },
            ),
        ),
        PhaseView::Enter => (PhaseView::Over, finish(HandlerOutcome::Confirmed)),
        PhaseView::Over => (PhaseView::Over, finish(HandlerOutcome::Canceled)),
    }
}

/// The answer that the dialog from `phase` and `step` gives when the reads
/// return `replies`, one each; none where the number of replies does not
/// match the number of reads.
pub open spec fn run_from(
    st: StateView,
    phase: PhaseView,
    step: StepView,
    replies: Seq<Option<Seq<char>>>,
) -> Option<HandlerOutcome>
    decreases replies.len(),
{
    match step.next {
        NextView::Finish(r) => if replies.len() == 0 {
            Some(r)
        } else {
            None
        },
        _ => if replies.len() == 0 {
            None
        } else {
            let (p2, s2) = dialog_reply_spec(st, phase, replies[0]);
            run_from(st, p2, s2, replies.drop_first())
        },
    }
}

/// The answer that the dialog for `cmd` gives when its reads return
/// `replies`.
pub open spec fn dialog_outcome(st: StateView, cmd: Option<PinentryCmd>, replies: Seq<Option<Seq<char>>>) -> Option<HandlerOutcome> {
    run_from(st, dialog_start_spec(st, cmd).0, dialog_start_spec(st, cmd).1, replies)
}

/// How many reads are left at most.
pub open spec fn phase_rank(phase: PhaseView) -> nat {
    match phase {
        PhaseView::FirstEntry => 2,
        PhaseView::Over => 0,
        _ => 1,
    }
}

/// How the dialog for `cmd` opens (see `dialog_start_spec`).
pub fn dialog_start(state: &PinentryState, cmd: Option<PinentryCmd>) -> (r: (TtyPhase, TtyStep))
    ensures
        (r.0@, r.1@) == dialog_start_spec(state@, cmd),
{
    let mut writes: Vec<String> = Vec::new();
    let r = match cmd {
        None => (TtyPhase::Over, TtyStep { writes, next: TtyNext::Finish(HandlerResult::Canceled) }),
        Some(PinentryCmd::GetPin) => {
            if let Some(desc) = &state.desc {
                writes.push(line_of(desc.as_str()));
            }
            if let Some(error) = &state.error {
                writes.push(error_line(error.as_str()));
            }
            (TtyPhase::FirstEntry, TtyStep { writes, next: TtyNext::ReadPassword(getpin_prompt(state)) })
        },
        Some(PinentryCmd::Confirm) => {
            if let Some(desc) = &state.desc {
                writes.push(line_of(desc.as_str()));
            }
            (TtyPhase::Answer, TtyStep { writes, next: TtyNext::ReadLine(confirm_prompt(state)) })
        },
        Some(PinentryCmd::Message) => {
            if let Some(desc) = &state.desc {
                writes.push(line_of(desc.as_str()));
            }
            writes.push(string_of("Press enter to continue."));
            let prompt = string_of("");
            proof {
                reveal_strlit("");
                assert(prompt@ =~= Seq::<char>::empty());
            }
            (TtyPhase::Enter, TtyStep { writes, next: TtyNext::ReadLine(prompt) })
        },
    };
    assert(r.1@.writes =~= dialog_start_spec(state@, cmd).1.writes);
    assert(r.1@.next == dialog_start_spec(state@, cmd).1.next);
    r
}

/// How the dialog goes on after `reply` (see `dialog_reply_spec`); entries
/// not handed back are zeroized.
pub fn dialog_reply(state: &PinentryState, phase: TtyPhase, reply: Option<String>) -> (r: (
    TtyPhase,
    TtyStep,
))
    ensures
        (r.0@, r.1@) == dialog_reply_spec(state@, phase@, opt_view(reply)),
{
    let mut writes: Vec<String> = Vec::new();
    match phase {
        TtyPhase::FirstEntry => {
            match (reply, &state.repeat) {
                (Some(p), Some(rp)) => {
                    let r = (
                        TtyPhase::RepeatEntry(p),
                        TtyStep { writes, next: TtyNext::ReadPassword(format_prompt(rp.as_str())) },
                    );
                    assert(r.1@.writes =~= Seq::<Seq<char>>::empty());
                    r
                },
                (first, _) => {
                    let (result, _) = getpin_result(state, first, None);
                    let r = (TtyPhase::Over, TtyStep { writes, next: TtyNext::Finish(result) });
                    assert(r.1@.writes =~= Seq::<Seq<char>>::empty());
                    r
                },
            }
        },
        TtyPhase::RepeatEntry(p) => {
            let (result, differ) = getpin_result(state, Some(p), reply);
            if differ {
                writes.push(repeat_error(state));
            }
            let r = (TtyPhase::Over, TtyStep { writes, next: TtyNext::Finish(result) });
            assert(r.1@.writes =~= dialog_reply_spec(state@, phase@, opt_view(reply)).1.writes);
            r
        },
        TtyPhase::Answer => {
            let result = match reply {
                Some(a) => confirm_answer(state, a.as_str()),
                None => HandlerResult::Canceled,
            };
            let r = (TtyPhase::Over, TtyStep { writes, next: TtyNext::Finish(result) });
            assert(r.1@.writes =~= Seq::<Seq<char>>::empty());
            r
        },
        TtyPhase::Enter => {
            let r = (TtyPhase::Over, TtyStep { writes, next: TtyNext::Finish(HandlerResult::Confirmed) });
            assert(r.1@.writes =~= Seq::<Seq<char>>::empty());
            r
        },
        TtyPhase::Over => {
            let r = (TtyPhase::Over, TtyStep { writes, next: TtyNext::Finish(HandlerResult::Canceled) });
            assert(r.1@.writes =~= Seq::<Seq<char>>::empty());
            r
        },
    }
}

/// The writes of the messages `ws`, in order.
pub open spec fn wrote_all(ws: Seq<Seq<char>>) -> Seq<TtyEvent> {
    ws.map_values(|w: Seq<char>| TtyEvent::Wrote(w))
}

/// The calls the dialog from `phase` and `step` makes on the terminal when
/// its reads return `replies`, one each: each step's writes, then its read
/// with the reply it got.
pub open spec fn transcript_from(
    st: StateView,
    phase: PhaseView,
    step: StepView,
    replies: Seq<Option<Seq<char>>>,
) -> Seq<TtyEvent>
    decreases replies.len(),
{
    wrote_all(step.writes) + match step.next {
        NextView::Finish(_) => Seq::empty(),
        NextView::ReadPassword(p) => if replies.len() == 0 {
            Seq::empty()
        } else {
            let (p2, s2) = dialog_reply_spec(st, phase, replies[0]);
            seq![TtyEvent::ReadPassword(p, replies[0])] + transcript_from(
                st,
                p2,
                s2,
                replies.drop_first(),
            )
        },
        NextView::ReadLine(p) => if replies.len() == 0 {
            Seq::empty()
        } else {
            let (p2, s2) = dialog_reply_spec(st, phase, replies[0]);
            seq![TtyEvent::ReadLine(p, replies[0])] + transcript_from(
                st,
                p2,
                s2,
                replies.drop_first(),
            )
        },
    }
}

/// The calls the dialog for `cmd` makes on the terminal when its reads
/// return `replies`.
pub open spec fn dialog_transcript(st: StateView, cmd: Option<PinentryCmd>, replies: Seq<Option<Seq<char>>>) -> Seq<TtyEvent> {
    transcript_from(st, dialog_start_spec(st, cmd).0, dialog_start_spec(st, cmd).1, replies)
}

/// What the dialog for `cmd` gives when its reads return `replies`: the
/// answer, and the calls made on a terminal that keeps a record of them.
pub open spec fn dialog_ran<T: TtyIo>(
    st: StateView,
    cmd: Option<PinentryCmd>,
    replies: Seq<Option<Seq<char>>>,
    before: T,
    after: T,
    r: HandlerOutcome,
) -> bool {
    &&& dialog_outcome(st, cmd, replies) == Some(r)
    &&& before.records() ==> after.records() && after.record() == before.record()
        + dialog_transcript(st, cmd, replies)
}

/// Runs the dialog for `cmd` on the terminal: each step's lines are
/// written, its read made, and the reply handed to `dialog_reply`, until
/// the dialog finishes. The answer is the one the dialog gives for the
/// replies the terminal returned: on a terminal that keeps a record, the
/// record grows by exactly the calls the dialog makes for those replies.
fn run_dialog<T: TtyIo>(state: &PinentryState, cmd: Option<PinentryCmd>, io: &mut T) -> (r: HandlerResult)
    ensures
        exists|replies: Seq<Option<Seq<char>>>|
            dialog_ran(state@, cmd, replies, *old(io), *final(io), r@),
{
    let (mut phase, mut step) = dialog_start(state, cmd);
    let ghost st = state@;
    let ghost p0 = phase@;
    let ghost s0 = step@;
    let ghost got: Seq<Option<Seq<char>>> = Seq::empty();
    proof {
        assert forall|rest: Seq<Option<Seq<char>>>| run_from(st, p0, s0, #[trigger] (got + rest)) == run_from(st, phase@, step@, rest) by {
            assert(got + rest =~= rest);
        }
        assert forall|rest: Seq<Option<Seq<char>>>|
            old(io).record() + transcript_from(st, p0, s0, #[trigger] (got + rest)) == io.record()
                + transcript_from(st, phase@, step@, rest) by {
            assert(got + rest =~= rest);
        }
    }
    loop
        invariant
            st == state@,
            (p0, s0) == dialog_start_spec(st, cmd),
            forall|rest: Seq<Option<Seq<char>>>|
                run_from(st, p0, s0, #[trigger] (got + rest)) == run_from(st, phase@, step@, rest),
            old(io).records() ==> io.records(),
            old(io).records() ==> forall|rest: Seq<Option<Seq<char>>>|
                old(io).record() + transcript_from(st, p0, s0, #[trigger] (got + rest)) == io.record()
                    + transcript_from(st, phase@, step@, rest),
            !(step@.next is Finish) ==> !(phase@ is Over),
        decreases phase_rank(phase@),
    {
        let ghost sv = step@;
        let ghost rec = io.record();
        let TtyStep { writes, next } = step;
        let ghost ws = writes@.map_values(|w: String| w@);
        assert(sv.writes == ws);
        assert(sv.next == next@);
        let mut i: usize = 0;
        assert(ws.take(0) =~= Seq::<Seq<char>>::empty());
        assert(wrote_all(ws.take(0)) =~= Seq::<TtyEvent>::empty());
        assert(rec + wrote_all(ws.take(0)) =~= rec);
        while i < writes.len()
            invariant
                i <= writes.len(),
                ws == writes@.map_values(|w: String| w@),
                old(io).records() ==> io.records(),
                old(io).records() ==> io.record() == rec + wrote_all(ws.take(i as int)),
                old(io).records() ==> forall|rest: Seq<Option<Seq<char>>>|
                    old(io).record() + transcript_from(st, p0, s0, #[trigger] (got + rest)) == rec
                        + transcript_from(st, phase@, sv, rest),
            decreases writes.len() - i,
        {
            io.write_stderr(writes[i].as_str());
            proof {
                assert(ws.take(i + 1) =~= ws.take(i as int).push(ws[i as int]));
                assert(wrote_all(ws.take(i + 1)) =~= wrote_all(ws.take(i as int)).push(
                    TtyEvent::Wrote(ws[i as int]),
                ));
                assert(rec + wrote_all(ws.take(i + 1)) =~= (rec + wrote_all(ws.take(i as int))).push(
                    TtyEvent::Wrote(ws[i as int]),
                ));
            }
            i = i + 1;
        }
        assert(ws.take(writes.len() as int) =~= ws);
        let ghost mut ev: TtyEvent = TtyEvent::Wrote(Seq::empty());
        let reply = match next {
            TtyNext::Finish(r) => {
                proof {
                    let e = Seq::<Option<Seq<char>>>::empty();
                    assert(got + e =~= got);
                    assert(run_from(st, phase@, sv, e) == Some(r@));
                    assert(run_from(st, p0, s0, got + e) == Some(r@));
                    if old(io).records() {
                        assert(transcript_from(st, phase@, sv, e) =~= wrote_all(ws));
                        assert(old(io).record() + transcript_from(st, p0, s0, got + e) == rec
                            + transcript_from(st, phase@, sv, e));
                    }
                    assert(dialog_ran(state@, cmd, got, *old(io), *io, r@));
                }
                return r;
            },
            TtyNext::ReadPassword(prompt) => {
                let x = io.read_password(prompt.as_str());
                proof {
                    ev = TtyEvent::ReadPassword(prompt@, opt_view(x));
                }
                x
            },
            TtyNext::ReadLine(prompt) => {
                let x = io.read_line(prompt.as_str());
                proof {
                    ev = TtyEvent::ReadLine(prompt@, opt_view(x));
                }
                x
            },
        };
        let ghost x = opt_view(reply);
        let ghost ph = phase@;
        let (p2, s2) = dialog_reply(state, phase, reply);
        proof {
            assert forall|rest: Seq<Option<Seq<char>>>|
                run_from(st, p0, s0, #[trigger] (got.push(x) + rest)) == run_from(st, p2@, s2@, rest) by {
                assert(got.push(x) + rest =~= got + (seq![x] + rest));
                assert((seq![x] + rest).drop_first() =~= rest);
                assert((seq![x] + rest)[0] == x);
            }
            if old(io).records() {
                assert forall|rest: Seq<Option<Seq<char>>>|
                    old(io).record() + transcript_from(st, p0, s0, #[trigger] (got.push(x) + rest))
                        == io.record() + transcript_from(st, p2@, s2@, rest) by {
                    let xr = seq![x] + rest;
                    assert(got.push(x) + rest =~= got + xr);
                    assert(xr.drop_first() =~= rest);
                    assert(xr[0] == x);
                    assert(transcript_from(st, ph, sv, xr) == wrote_all(ws) + (seq![ev]
                        + transcript_from(st, p2@, s2@, rest)));
                    assert(io.record() == (rec + wrote_all(ws)).push(ev));
                    assert(rec + (wrote_all(ws) + (seq![ev] + transcript_from(st, p2@, s2@, rest)))
                        =~= (rec + wrote_all(ws)).push(ev) + transcript_from(st, p2@, s2@, rest));
                }
            }
            got = got.push(x);
        }
        phase = p2;
        step = s2;
    }
}

/// What holds of every answer of the GETPIN dialog: a passphrase or a
/// cancel.
proof fn lemma_getpin_answers(st: StateView, replies: Seq<Option<Seq<char>>>)
    ensures
        dialog_outcome(st, Some(PinentryCmd::GetPin), replies) matches Some(r) ==> (r is Pin
            || r is Canceled),
{
    reveal_with_fuel(run_from, 3);
}

/// What holds of every answer of the CONFIRM dialog: confirmed, canceled,
/// or "not ok" where a not-ok choice was offered.
proof fn lemma_confirm_answers(st: StateView, replies: Seq<Option<Seq<char>>>)
    ensures
        dialog_outcome(st, Some(PinentryCmd::Confirm), replies) matches Some(r) ==> (r is Confirmed
            || r is Canceled || (r is NotConfirmed && st.notok is Some)),
{
    reveal_with_fuel(run_from, 2);
}

/// Every answer of the MESSAGE dialog confirms.
proof fn lemma_message_answers(st: StateView, replies: Seq<Option<Seq<char>>>)
    ensures
        dialog_outcome(st, Some(PinentryCmd::Message), replies) matches Some(r) ==> r is Confirmed,
{
    reveal_with_fuel(run_from, 2);
}

fn handle_getpin<T: TtyIo>(state: &PinentryState, io: &mut T) -> (r: HandlerResult)
    ensures
        exists|replies: Seq<Option<Seq<char>>>|
            dialog_ran(state@, Some(PinentryCmd::GetPin), replies, *old(io), *final(io), r@),
        r@ is Pin || r@ is Canceled,
{
    let r = run_dialog(state, Some(PinentryCmd::GetPin), io);
    proof {
        let replies = choose|replies: Seq<Option<Seq<char>>>|
            dialog_ran(state@, Some(PinentryCmd::GetPin), replies, *old(io), *io, r@);
        lemma_getpin_answers(state@, replies);
    }
    r
}

fn handle_confirm<T: TtyIo>(state: &PinentryState, io: &mut T) -> (r: HandlerResult)
    ensures
        exists|replies: Seq<Option<Seq<char>>>|
            dialog_ran(state@, Some(PinentryCmd::Confirm), replies, *old(io), *final(io), r@),
        r@ is Confirmed || r@ is Canceled || (r@ is NotConfirmed && state@.notok is Some),
{
    let r = run_dialog(state, Some(PinentryCmd::Confirm), io);
    proof {
        let replies = choose|replies: Seq<Option<Seq<char>>>|
            dialog_ran(state@, Some(PinentryCmd::Confirm), replies, *old(io), *io, r@);
        lemma_confirm_answers(state@, replies);
    }
    r
}

fn handle_message<T: TtyIo>(state: &PinentryState, io: &mut T) -> (r: HandlerResult)
    ensures
        exists|replies: Seq<Option<Seq<char>>>|
            dialog_ran(state@, Some(PinentryCmd::Message), replies, *old(io), *final(io), r@),
        r@ is Confirmed,
{
    let r = run_dialog(state, Some(PinentryCmd::Message), io);
    proof {
        let replies = choose|replies: Seq<Option<Seq<char>>>|
            dialog_ran(state@, Some(PinentryCmd::Message), replies, *old(io), *io, r@);
        lemma_message_answers(state@, replies);
    }
    r
}

// ---------------------------------------------------------------- laws

/// Where GETPIN asks for the passphrase to be repeated, the first entry
/// leads to a second read after the repeat prompt; two equal entries give
/// the passphrase, and two that differ write the mismatch message and
/// cancel. Without a repeat the first entry is the answer.
pub proof fn law_repeat_is_asked_and_checked(st: StateView, p: Seq<char>, q: Seq<char>)
    ensures
        st.repeat matches Some(rp) ==> dialog_reply_spec(st, PhaseView::FirstEntry, Some(p)) == (
        PhaseView::RepeatEntry(p),
        StepView { writes: Seq::empty(), next: NextView::ReadPassword(format_prompt_spec(rp)) }),
        st.repeat is Some ==> dialog_outcome(st, Some(PinentryCmd::GetPin), seq![Some(p), Some(q)])
            == Some(
            if q == p {
                HandlerOutcome::Pin(p)
            } else {
                HandlerOutcome::Canceled
            },
        ),
        st.repeat is Some && q != p ==> dialog_reply_spec(
            st,
            PhaseView::RepeatEntry(p),
            Some(q),
        ).1.writes == seq![repeat_error_spec(st)],
        st.repeat is None ==> dialog_outcome(st, Some(PinentryCmd::GetPin), seq![Some(p)])
            == Some(HandlerOutcome::Pin(p)),
{
    reveal_with_fuel(run_from, 3);
    assert(seq![Some(p), Some(q)].drop_first() =~= seq![Some(q)]);
    assert(seq![Some(q)].drop_first() =~= Seq::<Option<Seq<char>>>::empty());
    assert(seq![Some(p)].drop_first() =~= Seq::<Option<Seq<char>>>::empty());
}

/// GETPIN answers with exactly what the terminal returned. A passphrase is
/// the answer only where the read after the PIN prompt returned it (and,
/// where a repeat is asked for, the repeated read returned it too): without
/// a repeat the answer is `p` exactly when the one read returned `p`; with
/// one, exactly when both reads returned `p`.
pub proof fn law_getpin_answers_what_was_read(
    st: StateView,
    replies: Seq<Option<Seq<char>>>,
    p: Seq<char>,
)
    ensures
        dialog_outcome(st, Some(PinentryCmd::GetPin), replies) == Some(HandlerOutcome::Pin(p))
            ==> replies[0] == Some(p) && dialog_transcript(
            st,
            Some(PinentryCmd::GetPin),
            replies,
        ).contains(TtyEvent::ReadPassword(getpin_prompt_spec(st), Some(p))),
        st.repeat is None ==> (dialog_outcome(st, Some(PinentryCmd::GetPin), replies) == Some(
            HandlerOutcome::Pin(p),
        ) <==> replies == seq![Some(p)]),
        st.repeat is Some ==> (dialog_outcome(st, Some(PinentryCmd::GetPin), replies) == Some(
            HandlerOutcome::Pin(p),
        ) <==> replies == seq![Some(p), Some(p)]),
{
    reveal_with_fuel(run_from, 3);
    reveal_with_fuel(transcript_from, 2);
    let (p0, s0) = dialog_start_spec(st, Some(PinentryCmd::GetPin));
    let out = dialog_outcome(st, Some(PinentryCmd::GetPin), replies);
    if replies.len() >= 1 {
        let r1 = replies.drop_first();
        let (p1, s1) = dialog_reply_spec(st, p0, replies[0]);
        if r1.len() >= 1 {
            let r2 = r1.drop_first();
            assert(r1[0] == replies[1]);
            if replies.len() == 2 {
                assert(r2.len() == 0);
                if st.repeat is Some && replies[0] == Some(p) && replies[1] == Some(p) {
                    assert(replies =~= seq![Some(p), Some(p)]);
                }
            }
        } else {
            assert(replies =~= seq![replies[0]]);
        }
        if out == Some(HandlerOutcome::Pin(p)) {
            let t = dialog_transcript(st, Some(PinentryCmd::GetPin), replies);
            let k = wrote_all(s0.writes).len() as int;
            assert(t[k] == TtyEvent::ReadPassword(getpin_prompt_spec(st), replies[0]));
        }
    }
    if st.repeat is None && replies == seq![Some(p)] {
        assert(replies.drop_first() =~= Seq::<Option<Seq<char>>>::empty());
    }
    if st.repeat is Some && replies == seq![Some(p), Some(p)] {
        assert(replies.drop_first() =~= seq![Some(p)]);
        assert(replies.drop_first().drop_first() =~= Seq::<Option<Seq<char>>>::empty());
    }
}

} // verus!
