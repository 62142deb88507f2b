//! The server side of the GnuPG Assuan protocol spoken by pinentry programs.
//!
//! gpg-agent sends one command per line; the server answers with `OK`,
//! `ERR`, or `D` data lines followed by `OK`. Reading the lines, writing the
//! answers and asking the user are left to the caller: `Server` decides,
//! for each line it is given, what to answer and whether the user must be
//! asked, and `Server::handler_reply` turns the user's answer into the reply.

use vstd::prelude::*;
use vstd::utf8::*;

use crate::decimal::{dec, parse_u32, parse_u32_spec, u32_to_decimal};
use crate::percent::{
    law_decode_inverts_encode, pct_decode_bytes, pct_decode_text, pct_encode, percent_decode,
    percent_encode_data,
};
use crate::convert::bytes_to_text;
use crate::protocol::{PinentryCmd, RequestView};
use crate::secret::zeroize_string;
use crate::state::{initial_state, request_of, reset_view, PinentryState, StateView};
use crate::text::{
    chars_eq_ignore_ascii_case, chars_of, eq_ignore_ascii_case, leading_ws,
    push_str_bytes, skip_ws, string_from_chars, trim_start,
};

verus! {

// GPG error codes (source=1 GPG_ERR_SOURCE_UNKNOWN | code).
pub const GPG_ERR_CANCELED: u32 = 83886179;

pub const GPG_ERR_NOT_CONFIRMED: u32 = 83886194;

pub const GPG_ERR_ASS_UNKNOWN_CMD: u32 = 83886381;

/// Assuan line limit: 1000 bytes including CRLF. The "D " prefix is 2 bytes
/// and the LF 1 byte, which leaves 997 bytes for encoded data.
pub const MAX_CHUNK: usize = 997;

/// The user's answer to GETPIN/CONFIRM/MESSAGE.
pub enum HandlerResult {
    /// Passphrase obtained (GETPIN only).
    Pin(String),
    /// User confirmed (CONFIRM/MESSAGE).
    Confirmed,
    /// User canceled the operation.
    Canceled,
    /// User chose "not ok" (CONFIRM only).
    NotConfirmed,
}

/// The content of a `HandlerResult`.
pub enum HandlerOutcome {
    Pin(Seq<char>),
    Confirmed,
    Canceled,
    NotConfirmed,
}

impl View for HandlerResult {
    type V = HandlerOutcome;

    open spec fn view(&self) -> HandlerOutcome {
        match self {
            HandlerResult::Pin(p) => HandlerOutcome::Pin(p@),
            HandlerResult::Confirmed => HandlerOutcome::Confirmed,
            HandlerResult::Canceled => HandlerOutcome::Canceled,
            HandlerResult::NotConfirmed => HandlerOutcome::NotConfirmed,
        }
    }
}

// ---------------------------------------------------------------- replies

/// The bytes of `OK` on a line.
pub open spec fn ok_reply() -> Seq<u8> {
    encode_utf8("OK\n"@)
}

/// The greeting sent when a connection opens.
pub open spec fn greeting_reply() -> Seq<u8> {
    encode_utf8("OK Pleased to meet you\n"@)
}

/// The answer to BYE.
pub open spec fn bye_reply() -> Seq<u8> {
    encode_utf8("OK closing connection\n"@)
}

/// The line `ERR <code> <desc>`.
pub open spec fn err_reply(code: u32, desc: Seq<char>) -> Seq<u8> {
    encode_utf8("ERR "@) + encode_utf8(dec(code as nat)) + encode_utf8(" "@) + encode_utf8(desc)
        + encode_utf8("\n"@)
}

/// The number of bytes of `e` that the next `D` line carries.
pub open spec fn chunk_len(e: Seq<u8>) -> int {
    if e.len() < MAX_CHUNK {
        e.len() as int
    } else {
        MAX_CHUNK as int
    }
}

/// `D` lines carrying the encoded data `e`, at most `MAX_CHUNK` bytes each.
pub open spec fn d_lines(e: Seq<u8>) -> Seq<u8>
    decreases e.len(),
{
    if e.len() == 0 {
        seq![]
    } else {
        seq![0x44u8, 0x20u8] + e.take(chunk_len(e)) + seq![0x0au8] + d_lines(e.skip(chunk_len(e)))
    }
}

/// The reply that sends `text` as data: its percent-encoding in `D` lines,
/// then `OK`.
pub open spec fn data_reply(text: Seq<char>) -> Seq<u8> {
    d_lines(encode_utf8(pct_encode(text))) + ok_reply()
}

/// The reply to `GETINFO param`.
pub open spec fn getinfo_reply(param: Seq<char>, pid: u32, version: Seq<char>) -> Seq<u8> {
    if param == "pid"@ {
        data_reply(dec(pid as nat))
    } else if param == "version"@ {
        data_reply(version)
    } else if param == "flavor"@ {
        data_reply("zellij"@)
    } else if param == "ttyinfo"@ {
        data_reply("- - -"@)
    } else {
        err_reply(GPG_ERR_ASS_UNKNOWN_CMD, "Unknown GETINFO subcommand"@)
    }
}

/// The reply that ends GETPIN/CONFIRM/MESSAGE, given the user's answer.
pub open spec fn handler_reply_bytes(cmd: PinentryCmd, r: HandlerOutcome) -> Seq<u8> {
    match cmd {
        PinentryCmd::GetPin => match r {
            HandlerOutcome::Pin(p) => data_reply(p),
            _ => err_reply(GPG_ERR_CANCELED, "Operation cancelled"@),
        },
        PinentryCmd::Confirm => match r {
            HandlerOutcome::Confirmed => ok_reply(),
            HandlerOutcome::NotConfirmed => err_reply(GPG_ERR_NOT_CONFIRMED, "Not confirmed"@),
            _ => err_reply(GPG_ERR_CANCELED, "Operation cancelled"@),
        },
        PinentryCmd::Message => match r {
            HandlerOutcome::Canceled => err_reply(GPG_ERR_CANCELED, "Operation cancelled"@),
            _ => ok_reply(),
        },
    }
}

// ---------------------------------------------------------------- commands

/// The Assuan commands a pinentry understands.
pub enum Command {
    SetDesc,
    SetPrompt,
    SetTitle,
    SetError,
    SetOk,
    SetNotOk,
    SetCancel,
    SetRepeat,
    SetRepeatError,
    SetTimeout,
    SetQualityBar,
    SetKeyInfo,
    Option,
    GetPin,
    Confirm,
    Message,
    GetInfo,
    Nop,
    Bye,
    Unknown,
}

/// The command named by `cmd`, compared without regard to ASCII case.
pub open spec fn classify(cmd: Seq<char>) -> Command {
    if eq_ignore_ascii_case(cmd, "SETDESC"@) {
        Command::SetDesc
    } else if eq_ignore_ascii_case(cmd, "SETPROMPT"@) {
        Command::SetPrompt
    } else if eq_ignore_ascii_case(cmd, "SETTITLE"@) {
        Command::SetTitle
    } else if eq_ignore_ascii_case(cmd, "SETERROR"@) {
        Command::SetError
    } else if eq_ignore_ascii_case(cmd, "SETOK"@) {
        Command::SetOk
    } else if eq_ignore_ascii_case(cmd, "SETNOTOK"@) {
        Command::SetNotOk
    } else if eq_ignore_ascii_case(cmd, "SETCANCEL"@) {
        Command::SetCancel
    } else if eq_ignore_ascii_case(cmd, "SETREPEAT"@) {
        Command::SetRepeat
    } else if eq_ignore_ascii_case(cmd, "SETREPEATERROR"@) {
        Command::SetRepeatError
    } else if eq_ignore_ascii_case(cmd, "SETTIMEOUT"@) {
        Command::SetTimeout
    } else if eq_ignore_ascii_case(cmd, "SETQUALITYBAR"@) {
        Command::SetQualityBar
    } else if eq_ignore_ascii_case(cmd, "SETKEYINFO"@) {
        Command::SetKeyInfo
    } else if eq_ignore_ascii_case(cmd, "OPTION"@) {
        Command::Option
    } else if eq_ignore_ascii_case(cmd, "GETPIN"@) {
        Command::GetPin
    } else if eq_ignore_ascii_case(cmd, "CONFIRM"@) {
        Command::Confirm
    } else if eq_ignore_ascii_case(cmd, "MESSAGE"@) {
        Command::Message
    } else if eq_ignore_ascii_case(cmd, "GETINFO"@) {
        Command::GetInfo
    } else if eq_ignore_ascii_case(cmd, "NOP"@) {
        Command::Nop
    } else if eq_ignore_ascii_case(cmd, "BYE"@) {
        Command::Bye
    } else {
        Command::Unknown
    }
}

/// The index of the first `c` in `s`.
pub open spec fn find_char(s: Seq<char>, c: char) -> Option<int>
    decreases s.len(),
{
    if s.len() == 0 {
        None
    } else if s[0] == c {
        Some(0)
    } else {
        match find_char(s.drop_first(), c) {
            Some(i) => Some(i + 1),
            None => None,
        }
    }
}

/// `line` without the line feeds and carriage returns at its end.
pub open spec fn strip_line_end(line: Seq<char>) -> Seq<char>
    decreases line.len(),
{
    if line.len() > 0 && (line.last() == '\r' || line.last() == '\n') {
        strip_line_end(line.drop_last())
    } else {
        line
    }
}

/// A line split at its first space into the command word and the
/// parameter (with leading white space removed).
pub open spec fn split_command(l: Seq<char>) -> (Seq<char>, Seq<char>) {
    match find_char(l, ' ') {
        Some(p) => (l.take(p), trim_start(l.skip(p + 1))),
        None => (l, Seq::empty()),
    }
}

/// An OPTION parameter split into key and value at its first `=` (the
/// value is empty where there is none).
pub open spec fn split_option(param: Seq<char>) -> (Seq<char>, Seq<char>) {
    match find_char(param, '=') {
        Some(p) => (param.take(p), param.skip(p + 1)),
        None => (param, Seq::empty()),
    }
}

/// What the server does after a line.
pub enum LineOutcome {
    /// Write these bytes (possibly none) and read the next line.
    Reply(Vec<u8>),
    /// Ask the user (the request is the server's state), then hand the
    /// answer to `Server::handler_reply`.
    AwaitHandler,
    /// Write these bytes and close the connection.
    Close(Vec<u8>),
}

/// The content of a `LineOutcome`.
pub enum OutcomeView {
    Reply(Seq<u8>),
    AwaitHandler,
    Close(Seq<u8>),
}

impl View for LineOutcome {
    type V = OutcomeView;

    open spec fn view(&self) -> OutcomeView {
        match self {
            LineOutcome::Reply(b) => OutcomeView::Reply(b@),
            LineOutcome::AwaitHandler => OutcomeView::AwaitHandler,
            LineOutcome::Close(b) => OutcomeView::Close(b@),
        }
    }
}

/// The state after command `c` with parameter `param`, and what follows.
pub open spec fn command_step(
    st: StateView,
    c: Command,
    param: Seq<char>,
    pid: u32,
    version: Seq<char>,
) -> (StateView, OutcomeView) {
    let ok = OutcomeView::Reply(ok_reply());
    match c {
        Command::SetDesc => (StateView { desc: Some(pct_decode_text(param)), ..st }, ok),
        Command::SetPrompt => (StateView { prompt: Some(pct_decode_text(param)), ..st }, ok),
        Command::SetTitle => (StateView { title: Some(pct_decode_text(param)), ..st }, ok),
        Command::SetError => (StateView { error: Some(pct_decode_text(param)), ..st }, ok),
        Command::SetOk => (StateView { ok: Some(pct_decode_text(param)), ..st }, ok),
        Command::SetNotOk => (StateView { notok: Some(pct_decode_text(param)), ..st }, ok),
        Command::SetCancel => (StateView { cancel: Some(pct_decode_text(param)), ..st }, ok),
        Command::SetRepeat => (StateView { repeat: Some(pct_decode_text(param)), ..st }, ok),
        Command::SetRepeatError => (
            StateView { repeat_error: Some(pct_decode_text(param)), ..st },
            ok,
        ),
        Command::SetTimeout => (StateView { timeout: parse_u32_spec(param), ..st }, ok),
        Command::SetQualityBar => (StateView { quality_bar: true, ..st }, ok),
        Command::SetKeyInfo => (StateView { keyinfo: Some(param), ..st }, ok),
        Command::Option => (
            StateView {
                options: st.options.insert(split_option(param).0, split_option(param).1),
                ..st
            },
            ok,
        ),
        Command::GetPin => (
            StateView { cmd: Some(PinentryCmd::GetPin), ..st },
            OutcomeView::AwaitHandler,
        ),
        Command::Confirm => (
            StateView { cmd: Some(PinentryCmd::Confirm), ..st },
            OutcomeView::AwaitHandler,
        ),
        Command::Message => (
            StateView { cmd: Some(PinentryCmd::Message), ..st },
            OutcomeView::AwaitHandler,
        ),
        Command::GetInfo => (st, OutcomeView::Reply(getinfo_reply(param, pid, version))),
        Command::Nop => (st, ok),
        Command::Bye => (st, OutcomeView::Close(bye_reply())),
        Command::Unknown => (
            st,
            OutcomeView::Reply(err_reply(GPG_ERR_ASS_UNKNOWN_CMD, "Unknown command"@)),
        ),
    }
}

/// The state after `line`, and what follows: empty lines and comments
/// (`#...`) change nothing and get no reply; any other line is a command.
pub open spec fn line_step(st: StateView, line: Seq<char>, pid: u32, version: Seq<char>) -> (
    StateView,
    OutcomeView,
) {
    let l = strip_line_end(line);
    if l.len() == 0 || l[0] == '#' {
        (st, OutcomeView::Reply(Seq::empty()))
    } else {
        command_step(st, classify(split_command(l).0), split_command(l).1, pid, version)
    }
}

// ---------------------------------------------------------------- lemmas

proof fn lemma_find_char_prefix(s: Seq<char>, c: char, i: int)
    requires
        0 <= i <= s.len(),
        forall|j: int| 0 <= j < i ==> #[trigger] s[j] != c,
    ensures
        find_char(s, c) == match find_char(s.skip(i), c) {
            Some(k) => Some(k + i),
            None => None,
        },
    decreases i,
{
    if i == 0 {
        assert(s.skip(0) =~= s);
    } else {
        assert(s[0] != c);
        assert(s.drop_first().skip(i - 1) =~= s.skip(i));
        assert forall|j: int| 0 <= j < i - 1 implies #[trigger] s.drop_first()[j] != c by {
            assert(s.drop_first()[j] == s[j + 1]);
        }
        lemma_find_char_prefix(s.drop_first(), c, i - 1);
    }
}

proof fn lemma_strip_line_end(s: Seq<char>, i: int)
    requires
        0 <= i <= s.len(),
        forall|j: int| i <= j < s.len() ==> (#[trigger] s[j] == '\r' || s[j] == '\n'),
        i == 0 || (s[i - 1] != '\r' && s[i - 1] != '\n'),
    ensures
        strip_line_end(s) == s.take(i),
    decreases s.len(),
{
    if s.len() == i {
        assert(s.take(i) =~= s);
    } else {
        assert(s.drop_last().take(i) =~= s.take(i));
        assert forall|j: int| i <= j < s.drop_last().len() implies (#[trigger] s.drop_last()[j]
            == '\r' || s.drop_last()[j] == '\n') by {
            assert(s.drop_last()[j] == s[j]);
        }
        lemma_strip_line_end(s.drop_last(), i);
    }
}

// ---------------------------------------------------------------- exec helpers

/// The characters `s[from..to]`.
pub fn sub_chars(s: &[char], from: usize, to: usize) -> (r: Vec<char>)
    requires
        from <= to <= s.len(),
    ensures
        r@ == s@.subrange(from as int, to as int),
{
    let mut r: Vec<char> = Vec::new();
    let mut i = from;
    while i < to
        invariant
            from <= i <= to <= s.len(),
            r@ == s@.subrange(from as int, i as int),
        decreases to - i,
    {
        r.push(s[i]);
        i = i + 1;
        assert(r@ =~= s@.subrange(from as int, i as int));
    }
    r
}

/// The index of the first `c` in `s`, if any.
pub fn find_char_index(s: &[char], c: char) -> (r: Option<usize>)
    ensures
        match r {
            Some(i) => find_char(s@, c) == Some(i as int) && i < s.len() && s@[i as int] == c,
            None => find_char(s@, c) is None,
        },
{
    let mut i: usize = 0;
    while i < s.len()
        invariant
            i <= s.len(),
            forall|j: int| 0 <= j < i ==> #[trigger] s@[j] != c,
        decreases s.len() - i,
    {
        if s[i] == c {
            proof {
                lemma_find_char_prefix(s@, c, i as int);
                assert(s@.skip(i as int)[0] == c);
            }
            return Some(i);
        }
        i = i + 1;
    }
    proof {
        lemma_find_char_prefix(s@, c, i as int);
        assert(s@.skip(i as int).len() == 0);
    }
    None
}

/// Whether `a` and `b` hold the same characters.
pub fn chars_equal(a: &[char], b: &[char]) -> (r: bool)
    ensures
        r == (a@ == b@),
{
    if a.len() != b.len() {
        return false;
    }
    let mut i: usize = 0;
    while i < a.len()
        invariant
            i <= a.len() == b.len(),
            forall|j: int| 0 <= j < i ==> a@[j] == b@[j],
        decreases a.len() - i,
    {
        if a[i] != b[i] {
            return false;
        }
        i = i + 1;
    }
    assert(a@ =~= b@);
    true
}

fn is_keyword(cmd: &[char], name: &str) -> (r: bool)
    ensures
        r == eq_ignore_ascii_case(cmd@, name@),
{
    let n = chars_of(name);
    chars_eq_ignore_ascii_case(cmd, n.as_slice())
}

fn is_word(param: &[char], word: &str) -> (r: bool)
    ensures
        r == (param@ == word@),
{
    let w = chars_of(word);
    chars_equal(param, w.as_slice())
}

/// The command named by `cmd`.
pub fn classify_command(cmd: &[char]) -> (r: Command)
    ensures
        r == classify(cmd@),
{
    if is_keyword(cmd, "SETDESC") {
        Command::SetDesc
    } else if is_keyword(cmd, "SETPROMPT") {
        Command::SetPrompt
    } else if is_keyword(cmd, "SETTITLE") {
        Command::SetTitle
    } else if is_keyword(cmd, "SETERROR") {
        Command::SetError
    } else if is_keyword(cmd, "SETOK") {
        Command::SetOk
    } else if is_keyword(cmd, "SETNOTOK") {
        Command::SetNotOk
    } else if is_keyword(cmd, "SETCANCEL") {
        Command::SetCancel
    } else if is_keyword(cmd, "SETREPEAT") {
        Command::SetRepeat
    } else if is_keyword(cmd, "SETREPEATERROR") {
        Command::SetRepeatError
    } else if is_keyword(cmd, "SETTIMEOUT") {
        Command::SetTimeout
    } else if is_keyword(cmd, "SETQUALITYBAR") {
        Command::SetQualityBar
    } else if is_keyword(cmd, "SETKEYINFO") {
        Command::SetKeyInfo
    } else if is_keyword(cmd, "OPTION") {
        Command::Option
    } else if is_keyword(cmd, "GETPIN") {
        Command::GetPin
    } else if is_keyword(cmd, "CONFIRM") {
        Command::Confirm
    } else if is_keyword(cmd, "MESSAGE") {
        Command::Message
    } else if is_keyword(cmd, "GETINFO") {
        Command::GetInfo
    } else if is_keyword(cmd, "NOP") {
        Command::Nop
    } else if is_keyword(cmd, "BYE") {
        Command::Bye
    } else {
        Command::Unknown
    }
}

/// Appends the `D` lines that carry `e`.
fn push_data_lines(out: &mut Vec<u8>, e: &[u8])
    ensures
        final(out)@ == old(out)@ + d_lines(e@),
{
    let mut pos: usize = 0;
    assert(e@.skip(0) =~= e@);
    assert(old(out)@ + d_lines(e@) =~= out@ + d_lines(e@.skip(0)));
    while pos < e.len()
        invariant
            pos <= e.len(),
            old(out)@ + d_lines(e@) == out@ + d_lines(e@.skip(pos as int)),
        decreases e.len() - pos,
    {
        let ghost rest = e@.skip(pos as int);
        let n: usize = if e.len() - pos < MAX_CHUNK {
            e.len() - pos
        } else {
            MAX_CHUNK
        };
        assert(n == chunk_len(rest));
        out.push(0x44u8);
        out.push(0x20u8);
        let mut k: usize = 0;
        let ghost before = out@;
        while k < n
            invariant
                k <= n,
                pos + n <= e.len(),
                out@ == before + e@.subrange(pos as int, pos + k),
            decreases n - k,
        {
            out.push(e[pos + k]);
            k = k + 1;
            assert(out@ =~= before + e@.subrange(pos as int, pos + k));
        }
        out.push(0x0au8);
        assert(rest.take(n as int) =~= e@.subrange(pos as int, pos + n));
        assert(rest.skip(n as int) =~= e@.skip(pos + n));
        pos = pos + n;
        assert(old(out)@ + d_lines(e@) =~= out@ + d_lines(e@.skip(pos as int)));
    }
    assert(e@.skip(pos as int) =~= Seq::<u8>::empty());
    assert(out@ =~= out@ + d_lines(Seq::<u8>::empty()));
}

/// Appends the reply that sends `text` as data.
pub fn push_data_reply(out: &mut Vec<u8>, text: &str)
    ensures
        final(out)@ == old(out)@ + data_reply(text@),
{
    let mut encoded = percent_encode_data(text);
    let bytes = encoded.as_str().as_bytes();
    push_data_lines(out, bytes);
    zeroize_string(&mut encoded);
    push_str_bytes(out, "OK\n");
    assert(final(out)@ =~= old(out)@ + data_reply(text@));
}

/// Appends the line `ERR <code> <desc>`.
fn push_err(out: &mut Vec<u8>, code: u32, desc: &str)
    ensures
        final(out)@ == old(out)@ + err_reply(code, desc@),
{
    let num = u32_to_decimal(code);
    push_str_bytes(out, "ERR ");
    push_str_bytes(out, num.as_str());
    push_str_bytes(out, " ");
    push_str_bytes(out, desc);
    push_str_bytes(out, "\n");
    assert(final(out)@ =~= old(out)@ + err_reply(code, desc@));
}

// ---------------------------------------------------------------- server

/// The Assuan server: the state accumulated from setter commands, and what
/// GETINFO reports about this process.
pub struct Server {
    state: PinentryState,
    pid: u32,
    version: String,
}

impl Server {
    /// The state accumulated so far.
    pub closed spec fn spec_state(&self) -> StateView {
        self.state@
    }

    /// The process id reported by `GETINFO pid`.
    pub closed spec fn spec_pid(&self) -> u32 {
        self.pid
    }

    /// The version reported by `GETINFO version`.
    pub closed spec fn spec_version(&self) -> Seq<char> {
        self.version@
    }

    /// A server with empty state, which reports `pid` and `version` to
    /// GETINFO.
    pub fn new(pid: u32, version: String) -> (r: Self)
        ensures
            r.spec_state() == initial_state(),
            r.spec_pid() == pid,
            r.spec_version() == version@,
    {
        Server { state: PinentryState::default(), pid, version }
    }

    /// The greeting to send when the connection opens.
    pub fn greeting(&self) -> (r: Vec<u8>)
        ensures
            r@ == greeting_reply(),
    {
        let mut out: Vec<u8> = Vec::new();
        push_str_bytes(&mut out, "OK Pleased to meet you\n");
        assert(out@ =~= greeting_reply());
        out
    }

    /// The state accumulated so far (the request that a GETPIN, CONFIRM or
    /// MESSAGE puts to the user).
    pub fn state(&self) -> (r: &PinentryState)
        ensures
            r@ == self.spec_state(),
    {
        &self.state
    }

    /// Carries out command `c` with parameter `param`.
    fn run_command(&mut self, c: Command, param: &[char]) -> (r: LineOutcome)
        ensures
            (final(self).spec_state(), r@) == command_step(
                old(self).spec_state(),
                c,
                param@,
                old(self).pid,
                old(self).version@,
            ),
            final(self).pid == old(self).pid,
            final(self).version@ == old(self).version@,
    {
        let mut out: Vec<u8> = Vec::new();
        match c {
            Command::SetDesc | Command::SetPrompt | Command::SetTitle | Command::SetError
            | Command::SetOk | Command::SetNotOk | Command::SetCancel | Command::SetRepeat
            | Command::SetRepeatError => {
                let p = string_from_chars(param);
                let v = Some(percent_decode(p.as_str()));
                match c {
                    Command::SetDesc => self.state.desc = v,
                    Command::SetPrompt => self.state.prompt = v,
                    Command::SetTitle => self.state.title = v,
                    Command::SetError => self.state.error = v,
                    Command::SetOk => self.state.ok = v,
                    Command::SetNotOk => self.state.notok = v,
                    Command::SetCancel => self.state.cancel = v,
                    Command::SetRepeat => self.state.repeat = v,
                    _ => self.state.repeat_error = v,
                }
            },
            Command::SetTimeout => {
                self.state.timeout = parse_u32(param);
            },
            Command::SetQualityBar => {
                self.state.quality_bar = true;
            },
            Command::SetKeyInfo => {
                self.state.keyinfo = Some(string_from_chars(param));
            },
            Command::Option => {
                match find_char_index(param, '=') {
                    Some(p) => {
                        let key = string_from_chars(sub_chars(param, 0, p).as_slice());
                        let val = string_from_chars(
                            sub_chars(param, p + 1, param.len()).as_slice(),
                        );
                        assert(param@.subrange(0, p as int) =~= param@.take(p as int));
                        assert(param@.subrange(p + 1, param@.len() as int) =~= param@.skip(
                            p + 1,
                        ));
                        self.state.set_option(key, val);
                    },
                    None => {
                        let key = string_from_chars(param);
                        self.state.set_option(key, String::new());
                    },
                }
            },
            Command::GetPin => {
                self.state.set_cmd_getpin();
                return LineOutcome::AwaitHandler;
            },
            Command::Confirm => {
                self.state.set_cmd_confirm();
                return LineOutcome::AwaitHandler;
            },
            Command::Message => {
                self.state.set_cmd_message();
                return LineOutcome::AwaitHandler;
            },
            Command::GetInfo => {
                if is_word(param, "pid") {
                    let num = u32_to_decimal(self.pid);
                    push_data_reply(&mut out, num.as_str());
                } else if is_word(param, "version") {
                    push_data_reply(&mut out, self.version.as_str());
                } else if is_word(param, "flavor") {
                    push_data_reply(&mut out, "zellij");
                } else if is_word(param, "ttyinfo") {
                    push_data_reply(&mut out, "- - -");
                } else {
                    push_err(&mut out, GPG_ERR_ASS_UNKNOWN_CMD, "Unknown GETINFO subcommand");
                }
                assert(out@ =~= getinfo_reply(param@, self.pid, self.version@));
                return LineOutcome::Reply(out);
            },
            Command::Nop => {},
            Command::Bye => {
                push_str_bytes(&mut out, "OK closing connection\n");
                assert(out@ =~= bye_reply());
                return LineOutcome::Close(out);
            },
            Command::Unknown => {
                push_err(&mut out, GPG_ERR_ASS_UNKNOWN_CMD, "Unknown command");
                assert(out@ =~= err_reply(GPG_ERR_ASS_UNKNOWN_CMD, "Unknown command"@));
                return LineOutcome::Reply(out);
            },
        }
        push_str_bytes(&mut out, "OK\n");
        assert(out@ =~= ok_reply());
        LineOutcome::Reply(out)
    }

    /// Processes one line from gpg-agent (with or without its line end).
    pub fn process_line(&mut self, line: &str) -> (r: LineOutcome)
        ensures
            (final(self).spec_state(), r@) == line_step(
                old(self).spec_state(),
                line@,
                old(self).spec_pid(),
                old(self).spec_version(),
            ),
            final(self).spec_pid() == old(self).spec_pid(),
            final(self).spec_version() == old(self).spec_version(),
    {
        let cs = chars_of(line);
        let mut end = cs.len();
        while end > 0 && (cs[end - 1] == '\r' || cs[end - 1] == '\n')
            invariant
                end <= cs.len(),
                forall|j: int| end <= j < cs.len() ==> (#[trigger] cs@[j] == '\r' || cs@[j] == '\n'),
            decreases end,
        {
            end = end - 1;
        }
        proof {
            lemma_strip_line_end(cs@, end as int);
        }
        let l = sub_chars(cs.as_slice(), 0, end);
        assert(l@ =~= strip_line_end(line@));
        if l.len() == 0 || l[0] == '#' {
            return LineOutcome::Reply(Vec::new());
        }
        let (cmd, param) = match find_char_index(l.as_slice(), ' ') {
            Some(p) => {
                let start = skip_ws(l.as_slice(), p + 1);
                assert(l@.skip(p + 1).skip(leading_ws(l@.skip(p + 1)) as int) =~= l@.subrange(
                    start as int,
                    l@.len() as int,
                ));
                assert(l@.subrange(0, p as int) =~= l@.take(p as int));
                (sub_chars(l.as_slice(), 0, p), sub_chars(l.as_slice(), start, l.len()))
            },
            None => (l.clone(), Vec::new()),
        };
        assert(cmd@ == split_command(l@).0);
        assert(param@ =~= split_command(l@).1);
        let c = classify_command(cmd.as_slice());
        self.run_command(c, param.as_slice())
    }

    /// Ends a GETPIN, CONFIRM or MESSAGE with the user's answer: the reply
    /// to send, and the state reset for the next request (options kept).
    pub fn handler_reply(&mut self, result: HandlerResult) -> (r: Vec<u8>)
        requires
            old(self).spec_state().cmd is Some,
        ensures
            r@ == handler_reply_bytes(old(self).spec_state().cmd.unwrap(), result@),
            final(self).spec_state() == reset_view(old(self).spec_state()),
            final(self).spec_pid() == old(self).spec_pid(),
            final(self).spec_version() == old(self).spec_version(),
    {
        let mut out: Vec<u8> = Vec::new();
        let cmd = match self.state.cmd {
            Some(c) => c,
            None => PinentryCmd::GetPin,
        };
        match cmd {
            PinentryCmd::GetPin => match result {
                HandlerResult::Pin(mut p) => {
                    push_data_reply(&mut out, p.as_str());
                    zeroize_string(&mut p);
                },
                _ => push_err(&mut out, GPG_ERR_CANCELED, "Operation cancelled"),
            },
            PinentryCmd::Confirm => match result {
                HandlerResult::Confirmed => push_str_bytes(&mut out, "OK\n"),
                HandlerResult::NotConfirmed => push_err(
                    &mut out,
                    GPG_ERR_NOT_CONFIRMED,
                    "Not confirmed",
                ),
                _ => push_err(&mut out, GPG_ERR_CANCELED, "Operation cancelled"),
            },
            PinentryCmd::Message => match result {
                HandlerResult::Canceled => push_err(
                    &mut out,
                    GPG_ERR_CANCELED,
                    "Operation cancelled",
                ),
                _ => push_str_bytes(&mut out, "OK\n"),
            },
        }
        self.state.reset();
        assert(out@ =~= handler_reply_bytes(cmd, result@));
        out
    }
}

// ---------------------------------------------------------------- laws

/// The payloads of the `D` lines that carry `e`, in order.
pub open spec fn d_chunks(e: Seq<u8>) -> Seq<Seq<u8>>
    decreases e.len(),
{
    if e.len() == 0 {
        Seq::empty()
    } else {
        seq![e.take(chunk_len(e))] + d_chunks(e.skip(chunk_len(e)))
    }
}

/// Byte strings one after the other.
pub open spec fn concat(cs: Seq<Seq<u8>>) -> Seq<u8>
    decreases cs.len(),
{
    if cs.len() == 0 {
        Seq::empty()
    } else {
        cs[0] + concat(cs.drop_first())
    }
}

/// Payloads framed as `D` lines: `D `, the payload, a line feed.
pub open spec fn framed(cs: Seq<Seq<u8>>) -> Seq<u8>
    decreases cs.len(),
{
    if cs.len() == 0 {
        Seq::empty()
    } else {
        seq![0x44u8, 0x20u8] + cs[0] + seq![0x0au8] + framed(cs.drop_first())
    }
}

/// Data survives the split into `D` lines: the lines are the framed
/// payloads, each payload holds between one and `MAX_CHUNK` bytes (so a
/// line, with `D ` and its line feed, stays within Assuan's 1000 bytes), and
/// the payloads put back together are the data.
pub proof fn law_d_lines_carry_data(e: Seq<u8>)
    ensures
        d_lines(e) == framed(d_chunks(e)),
        concat(d_chunks(e)) == e,
        forall|i: int|
            0 <= i < d_chunks(e).len() ==> 1 <= (#[trigger] d_chunks(e)[i]).len() <= MAX_CHUNK,
    decreases e.len(),
{
    if e.len() > 0 {
        let n = chunk_len(e);
        let rest = e.skip(n);
        law_d_lines_carry_data(rest);
        let cs = d_chunks(e);
        assert(cs.drop_first() =~= d_chunks(rest));
        assert(cs[0] == e.take(n));
        assert(e.take(n) + rest =~= e);
        assert forall|i: int| 0 <= i < cs.len() implies 1 <= (#[trigger] cs[i]).len()
            <= MAX_CHUNK by {
            if i > 0 {
                assert(cs[i] == d_chunks(rest)[i - 1]);
            }
        }
    }
}

/// A data reply is `D` lines and then `OK`: for any text, the lines carry
/// payloads of one to `MAX_CHUNK` bytes (so each line, with `D ` and its
/// line feed, holds at most 1000 bytes) that put together are the text's
/// percent-encoding, and the reply ends with `OK`; empty text gives `OK`
/// alone.
pub proof fn law_data_reply_lines(text: Seq<char>)
    ensures
        ({
            let e = encode_utf8(pct_encode(text));
            &&& data_reply(text) == framed(d_chunks(e)) + ok_reply()
            &&& concat(d_chunks(e)) == e
            &&& forall|i: int|
                0 <= i < d_chunks(e).len() ==> 1 <= (#[trigger] d_chunks(e)[i]).len() <= MAX_CHUNK
            &&& text.len() == 0 ==> data_reply(text) == ok_reply()
        }),
{
    law_d_lines_carry_data(encode_utf8(pct_encode(text)));
    if text.len() == 0 {
        assert(pct_encode(text) =~= Seq::<char>::empty());
        assert(encode_utf8(Seq::<char>::empty()) =~= Seq::<u8>::empty());
        assert(data_reply(text) =~= ok_reply());
    }
}

/// What gpg-agent reads back from a data reply is the text that was sent:
/// the `D` payloads put together and percent-decoded give `text` again.
pub proof fn law_data_reply_carries_text(text: Seq<char>)
    ensures
        bytes_to_text(pct_decode_bytes(concat(d_chunks(encode_utf8(pct_encode(text)))))) == text,
{
    law_d_lines_carry_data(encode_utf8(pct_encode(text)));
    law_decode_inverts_encode(text);
}

/// Command words are read without regard to ASCII case: two words equal up
/// to case name the same command.
pub proof fn law_command_case_insensitive(a: Seq<char>, b: Seq<char>)
    requires
        eq_ignore_ascii_case(a, b),
    ensures
        classify(a) == classify(b),
{
    assert forall|x: Seq<char>| eq_ignore_ascii_case(a, x) == eq_ignore_ascii_case(b, x) by {
        if eq_ignore_ascii_case(a, x) {
            assert forall|i: int| 0 <= i < b.len() implies #[trigger] crate::text::ascii_lower(
                b[i],
            ) == crate::text::ascii_lower(x[i]) by {
                assert(crate::text::ascii_lower(a[i]) == crate::text::ascii_lower(x[i]));
            }
        }
        if eq_ignore_ascii_case(b, x) {
            assert forall|i: int| 0 <= i < a.len() implies #[trigger] crate::text::ascii_lower(
                a[i],
            ) == crate::text::ascii_lower(x[i]) by {
                assert(crate::text::ascii_lower(b[i]) == crate::text::ascii_lower(x[i]));
            }
        }
    }
}

/// Empty lines and comments change nothing and get no reply.
pub proof fn law_comments_and_blank_lines_are_ignored(
    st: StateView,
    line: Seq<char>,
    pid: u32,
    version: Seq<char>,
)
    requires
        strip_line_end(line).len() == 0 || strip_line_end(line)[0] == '#',
    ensures
        line_step(st, line, pid, version) == (st, OutcomeView::Reply(Seq::<u8>::empty())),
{
}

/// Queries leave the state alone: GETINFO, NOP, BYE and unknown commands
/// change nothing.
pub proof fn law_queries_keep_state(
    st: StateView,
    c: Command,
    param: Seq<char>,
    pid: u32,
    version: Seq<char>,
)
    requires
        c is GetInfo || c is Nop || c is Bye || c is Unknown,
    ensures
        command_step(st, c, param, pid, version).0 == st,
{
}

/// What the setters write is what the request reads: after SETDESC,
/// SETPROMPT and SETTITLE (with percent-encoded parameters) a GETPIN asks
/// for a PIN with the decoded texts, the other settings as they were, and
/// the server waits for the user's answer.
pub proof fn law_request_reflects_setters(
    st: StateView,
    desc: Seq<char>,
    prompt: Seq<char>,
    title: Seq<char>,
    pid: u32,
    version: Seq<char>,
)
    ensures
        ({
            let s1 = command_step(st, Command::SetDesc, desc, pid, version).0;
            let s2 = command_step(s1, Command::SetPrompt, prompt, pid, version).0;
            let s3 = command_step(s2, Command::SetTitle, title, pid, version).0;
            let (s4, out) = command_step(s3, Command::GetPin, Seq::empty(), pid, version);
            &&& out == OutcomeView::AwaitHandler
            &&& request_of(s4) == (RequestView {
                cmd: PinentryCmd::GetPin,
                desc: Some(pct_decode_text(desc)),
                prompt: Some(pct_decode_text(prompt)),
                title: Some(pct_decode_text(title)),
                ..request_of(st)
            })
        }),
{
}

/// A later setter replaces an earlier one.
pub proof fn law_last_setter_wins(
    st: StateView,
    first: Seq<char>,
    second: Seq<char>,
    pid: u32,
    version: Seq<char>,
)
    ensures
        command_step(
            command_step(st, Command::SetDesc, first, pid, version).0,
            Command::SetDesc,
            second,
            pid,
            version,
        ).0 == command_step(st, Command::SetDesc, second, pid, version).0,
{
}

/// Answering a request forgets everything it was set up with except the
/// options: the next request starts from the initial state with the same
/// options.
pub proof fn law_answer_keeps_only_options(st: StateView)
    ensures
        reset_view(st).options == st.options,
        reset_view(st) == (StateView { options: st.options, ..initial_state() }),
        request_of(reset_view(st)) == request_of(initial_state()),
{
}

/// A description sent percent-encoded reads back as the text itself.
pub proof fn law_encoded_description_reads_back(
    st: StateView,
    text: Seq<char>,
    pid: u32,
    version: Seq<char>,
)
    ensures
        command_step(st, Command::SetDesc, pct_encode(text), pid, version).0.desc == Some(text),
{
    law_decode_inverts_encode(text);
}


/// The command that `line` carries: none for an empty line or a comment.
pub open spec fn line_command(line: Seq<char>) -> Option<Command> {
    let l = strip_line_end(line);
    if l.len() == 0 || l[0] == '#' {
        None
    } else {
        Some(classify(split_command(l).0))
    }
}

/// What a conversation over `lines` has done: the state it leaves, the
/// bytes sent, the state the user was asked with at each GETPIN, CONFIRM
/// or MESSAGE, and whether the connection was closed.
pub struct Conversation {
    pub state: StateView,
    pub sent: Seq<u8>,
    pub asked: Seq<StateView>,
    pub closed: bool,
}

/// A conversation from state `st`: each line is processed as
/// `Server::process_line` does; where it asks the user, the next of
/// `answers` is handed to `Server::handler_reply`; a BYE closes it and the
/// lines after it are never read.
pub open spec fn converse(
    st: StateView,
    lines: Seq<Seq<char>>,
    answers: Seq<HandlerOutcome>,
    pid: u32,
    version: Seq<char>,
) -> Conversation
    decreases lines.len(),
{
    if lines.len() == 0 {
        Conversation { state: st, sent: Seq::empty(), asked: Seq::empty(), closed: false }
    } else {
        let (s1, out) = line_step(st, lines[0], pid, version);
        match out {
            OutcomeView::Reply(b) => {
                let rest = converse(s1, lines.drop_first(), answers, pid, version);
                Conversation { sent: b + rest.sent, ..rest }
            },
            OutcomeView::Close(b) => Conversation {
                state: s1,
                sent: b,
                asked: Seq::empty(),
                closed: true,
            },
            OutcomeView::AwaitHandler => {
                let reply = handler_reply_bytes(s1.cmd.unwrap(), answers[0]);
                let rest = converse(
                    reset_view(s1),
                    lines.drop_first(),
                    answers.drop_first(),
                    pid,
                    version,
                );
                Conversation { sent: reply + rest.sent, asked: seq![s1] + rest.asked, ..rest }
            },
        }
    }
}

/// The requests among `lines` that reach the user: the GETPIN, CONFIRM and
/// MESSAGE lines before the first BYE, in order.
pub open spec fn requested(lines: Seq<Seq<char>>) -> Seq<PinentryCmd>
    decreases lines.len(),
{
    if lines.len() == 0 {
        Seq::empty()
    } else {
        let rest = requested(lines.drop_first());
        match line_command(lines[0]) {
            Some(Command::Bye) => Seq::empty(),
            Some(Command::GetPin) => seq![PinentryCmd::GetPin] + rest,
            Some(Command::Confirm) => seq![PinentryCmd::Confirm] + rest,
            Some(Command::Message) => seq![PinentryCmd::Message] + rest,
            _ => rest,
        }
    }
}

/// A line closes the connection exactly when its command is BYE (in any
/// ASCII case); it then answers `OK closing connection` and leaves the
/// state as it was.
pub proof fn law_closes_exactly_on_bye(st: StateView, line: Seq<char>, pid: u32, version: Seq<char>)
    ensures
        (line_step(st, line, pid, version).1 is Close) <==> line_command(line) == Some(
            Command::Bye,
        ),
        line_command(line) == Some(Command::Bye) ==> line_step(st, line, pid, version) == (
        st,
        OutcomeView::Close(bye_reply())),
{
}

/// Over any sequence of lines, the connection is closed exactly when one of
/// them is a BYE, and the user is asked exactly once for each GETPIN,
/// CONFIRM and MESSAGE before the first BYE, in order, with the pending
/// command of the state set to that request's command; never for any
/// other line, and never after the BYE.
pub proof fn law_conversation_asks_for_each_request(
    st: StateView,
    lines: Seq<Seq<char>>,
    answers: Seq<HandlerOutcome>,
    pid: u32,
    version: Seq<char>,
)
    ensures
        converse(st, lines, answers, pid, version).closed <==> exists|i: int|
            0 <= i < lines.len() && line_command(#[trigger] lines[i]) == Some(Command::Bye),
        converse(st, lines, answers, pid, version).asked.len() == requested(lines).len(),
        forall|i: int|
            0 <= i < requested(lines).len() ==> (#[trigger] converse(
                st,
                lines,
                answers,
                pid,
                version,
            ).asked[i]).cmd == Some(requested(lines)[i]),
    decreases lines.len(),
{
    if lines.len() > 0 {
        let (s1, out) = line_step(st, lines[0], pid, version);
        let next = match out {
            OutcomeView::AwaitHandler => reset_view(s1),
            _ => s1,
        };
        let more = match out {
            OutcomeView::AwaitHandler => answers.drop_first(),
            _ => answers,
        };
        law_conversation_asks_for_each_request(next, lines.drop_first(), more, pid, version);
        law_closes_exactly_on_bye(st, lines[0], pid, version);
        assert forall|i: int| 0 <= i < lines.drop_first().len() implies lines.drop_first()[i]
            == lines[i + 1] by {}
        if line_command(lines[0]) != Some(Command::Bye) {
            if exists|i: int| 0 <= i < lines.len() && line_command(#[trigger] lines[i]) == Some(
                Command::Bye,
            ) {
                let i = choose|i: int|
                    0 <= i < lines.len() && line_command(#[trigger] lines[i]) == Some(Command::Bye);
                assert(i > 0);
                assert(line_command(lines.drop_first()[i - 1]) == Some(Command::Bye));
            }
        }
    }
}

} // verus!
