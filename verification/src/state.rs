//! State accumulated from Assuan setter commands.
//!
//! gpg-agent sends SETDESC, SETPROMPT, etc. before each GETPIN/CONFIRM/MESSAGE;
//! this state collects those values so the handler has the full context.

use vstd::hash_map::StringHashMap;
use vstd::prelude::*;

use crate::protocol::{clone_opt, opt_view, PinentryCmd, PinentryRequest, RequestView};

verus! {

/// State accumulated from Assuan setter commands between action commands.
pub struct PinentryState {
    pub title: Option<String>,
    pub desc: Option<String>,
    pub prompt: Option<String>,
    pub error: Option<String>,
    pub ok: Option<String>,
    pub notok: Option<String>,
    pub cancel: Option<String>,
    pub repeat: Option<String>,
    pub repeat_error: Option<String>,
    pub keyinfo: Option<String>,
    pub quality_bar: bool,
    pub timeout: Option<u32>,
    pub options: StringHashMap<String>,
    pub cmd: Option<PinentryCmd>,
}

/// The mathematical content of a `PinentryState`.
pub struct StateView {
    pub title: Option<Seq<char>>,
    pub desc: Option<Seq<char>>,
    pub prompt: Option<Seq<char>>,
    pub error: Option<Seq<char>>,
    pub ok: Option<Seq<char>>,
    pub notok: Option<Seq<char>>,
    pub cancel: Option<Seq<char>>,
    pub repeat: Option<Seq<char>>,
    pub repeat_error: Option<Seq<char>>,
    pub keyinfo: Option<Seq<char>>,
    pub quality_bar: bool,
    pub timeout: Option<u32>,
    pub options: Map<Seq<char>, Seq<char>>,
    pub cmd: Option<PinentryCmd>,
}

impl View for PinentryState {
    type V = StateView;

    open spec fn view(&self) -> StateView {
        StateView {
            title: opt_view(self.title),
            desc: opt_view(self.desc),
            prompt: opt_view(self.prompt),
            error: opt_view(self.error),
            ok: opt_view(self.ok),
            notok: opt_view(self.notok),
            cancel: opt_view(self.cancel),
            repeat: opt_view(self.repeat),
            repeat_error: opt_view(self.repeat_error),
            keyinfo: opt_view(self.keyinfo),
            quality_bar: self.quality_bar,
            timeout: self.timeout,
            options: self.options@.map_values(|v: String| v@),
            cmd: self.cmd,
        }
    }
}

/// The state before any command: nothing set, no options.
pub open spec fn initial_state() -> StateView {
    StateView {
        title: None,
        desc: None,
        prompt: None,
        error: None,
        ok: None,
        notok: None,
        cancel: None,
        repeat: None,
        repeat_error: None,
        keyinfo: None,
        quality_bar: false,
        timeout: None,
        options: Map::empty(),
        cmd: None,
    }
}

/// `st` after a GETPIN/CONFIRM/MESSAGE: every setter value and the pending
/// command cleared, the options kept.
pub open spec fn reset_view(st: StateView) -> StateView {
    StateView { options: st.options, ..initial_state() }
}

/// The request that `st` stands for: its texts, and its command
/// (GETPIN where none is set).
pub open spec fn request_of(st: StateView) -> RequestView {
    RequestView {
        cmd: match st.cmd {
            Some(c) => c,
            None => PinentryCmd::GetPin,
        },
        title: st.title,
        desc: st.desc,
        prompt: st.prompt,
        error: st.error,
        ok: st.ok,
        cancel: st.cancel,
        notok: st.notok,
        repeat: st.repeat,
        repeat_error: st.repeat_error,
    }
}

impl Default for PinentryState {
    fn default() -> (r: Self)
        ensures
            r@ == initial_state(),
    {
        let r = PinentryState {
            title: None,
            desc: None,
            prompt: None,
            error: None,
            ok: None,
            notok: None,
            cancel: None,
            repeat: None,
            repeat_error: None,
            keyinfo: None,
            quality_bar: false,
            timeout: None,
            options: StringHashMap::new(),
            cmd: None,
        };
        assert(r@.options =~= Map::<Seq<char>, Seq<char>>::empty());
        r
    }
}

impl PinentryState {
    /// Records the Assuan option `key` with value `val` (replacing an
    /// earlier value of the same key).
    pub fn set_option(&mut self, key: String, val: String)
        ensures
            final(self)@ == (StateView { options: old(self)@.options.insert(key@, val@), ..old(self)@ }),
    {
        let ghost k = key@;
        let ghost v = val@;
        self.options.insert(key, val);
        assert(self@.options =~= old(self)@.options.insert(k, v));
    }

    /// Marks the pending command as GETPIN.
    pub fn set_cmd_getpin(&mut self)
        ensures
            final(self)@ == (StateView { cmd: Some(PinentryCmd::GetPin), ..old(self)@ }),
    {
        self.cmd = Some(PinentryCmd::GetPin);
    }

    /// Marks the pending command as CONFIRM.
    pub fn set_cmd_confirm(&mut self)
        ensures
            final(self)@ == (StateView { cmd: Some(PinentryCmd::Confirm), ..old(self)@ }),
    {
        self.cmd = Some(PinentryCmd::Confirm);
    }

    /// Marks the pending command as MESSAGE.
    pub fn set_cmd_message(&mut self)
        ensures
            final(self)@ == (StateView { cmd: Some(PinentryCmd::Message), ..old(self)@ }),
    {
        self.cmd = Some(PinentryCmd::Message);
    }

    /// The pending command, if any.
    pub fn cmd(&self) -> (r: Option<&PinentryCmd>)
        ensures
            match r {
                Some(c) => self@.cmd == Some(*c),
                None => self@.cmd is None,
            },
    {
        match &self.cmd {
            Some(c) => Some(c),
            None => None,
        }
    }

    /// Converts the accumulated state into a request for the plugin.
    pub fn to_request(&self) -> (r: PinentryRequest)
        ensures
            r@ == request_of(self@),
    {
        PinentryRequest {
            cmd: match self.cmd {
                Some(c) => c,
                None => PinentryCmd::GetPin,
            },
            title: clone_opt(&self.title),
            desc: clone_opt(&self.desc),
            prompt: clone_opt(&self.prompt),
            error: clone_opt(&self.error),
            ok: clone_opt(&self.ok),
            cancel: clone_opt(&self.cancel),
            notok: clone_opt(&self.notok),
            repeat: clone_opt(&self.repeat),
            repeat_error: clone_opt(&self.repeat_error),
        }
    }

    /// Resets the setter state after a GETPIN/CONFIRM/MESSAGE command.
    /// Options are kept (they persist across commands in the Assuan
    /// protocol).
    pub fn reset(&mut self)
        ensures
            final(self)@ == reset_view(old(self)@),
    {
        self.title = None;
        self.desc = None;
        self.prompt = None;
        self.error = None;
        self.ok = None;
        self.notok = None;
        self.cancel = None;
        self.repeat = None;
        self.repeat_error = None;
        self.keyinfo = None;
        self.quality_bar = false;
        self.timeout = None;
        self.cmd = None;
    }
}

// ---------------------------------------------------------------- laws

/// One call on a `PinentryState`: `set_cmd_getpin`, `set_cmd_confirm` or
/// `set_cmd_message` (`SetCmd`), `set_option`, `reset`, or a write of the
/// public setter fields, which leaves the pending command as it is
/// (`Write`, with the values written).
pub enum StateOp {
    SetCmd(PinentryCmd),
    SetOption(Seq<char>, Seq<char>),
    Reset,
    Write(StateView),
}

/// The state after `op`, as the contract of the call it stands for says.
pub open spec fn apply_op(st: StateView, op: StateOp) -> StateView {
    match op {
        StateOp::SetCmd(c) => StateView { cmd: Some(c), ..st },
        StateOp::SetOption(k, v) => StateView { options: st.options.insert(k, v), ..st },
        StateOp::Reset => reset_view(st),
        StateOp::Write(f) => StateView { cmd: st.cmd, ..f },
    }
}

/// The state after the calls `ops`, one after the other.
pub open spec fn apply_ops(st: StateView, ops: Seq<StateOp>) -> StateView
    decreases ops.len(),
{
    if ops.len() == 0 {
        st
    } else {
        apply_op(apply_ops(st, ops.drop_last()), ops.last())
    }
}

/// The pending command follows the calls: from a new state, after any
/// sequence of calls, there is none where no command was set since the
/// start or the last reset, and otherwise it is the command set last.
pub proof fn law_pending_command_is_last_set(ops: Seq<StateOp>)
    ensures
        (apply_ops(initial_state(), ops).cmd is None) <==> forall|i: int|
            0 <= i < ops.len() && (#[trigger] ops[i]) is SetCmd ==> exists|j: int|
                i < j < ops.len() && (#[trigger] ops[j]) is Reset,
        forall|i: int|
            0 <= i < ops.len() && (#[trigger] ops[i]) is SetCmd && (forall|j: int|
                i < j < ops.len() ==> !(#[trigger] ops[j] is SetCmd) && !(ops[j] is Reset))
                ==> apply_ops(initial_state(), ops).cmd == Some(ops[i]->SetCmd_0),
    decreases ops.len(),
{
    if ops.len() > 0 {
        let init = ops.drop_last();
        law_pending_command_is_last_set(init);
        assert forall|i: int| 0 <= i < init.len() implies init[i] == ops[i] by {}
        let n = ops.len() - 1;
        match ops.last() {
            StateOp::SetCmd(c) => {
                assert(ops[n] is SetCmd);
                assert forall|i: int|
                    0 <= i < ops.len() && (#[trigger] ops[i]) is SetCmd && (forall|j: int|
                        i < j < ops.len() ==> !(#[trigger] ops[j] is SetCmd) && !(ops[j] is Reset))
                        implies apply_ops(initial_state(), ops).cmd == Some(ops[i]->SetCmd_0) by {
                    if i < n {
                        assert(!(ops[n] is SetCmd));
                    }
                }
            },
            StateOp::Reset => {
                assert forall|i: int|
                    0 <= i < ops.len() && (#[trigger] ops[i]) is SetCmd implies exists|j: int|
                        i < j < ops.len() && (#[trigger] ops[j]) is Reset by {
                    assert(ops[n] is Reset);
                }
            },
            _ => {
                if apply_ops(initial_state(), ops).cmd is None {
                    assert forall|i: int|
                        0 <= i < ops.len() && (#[trigger] ops[i]) is SetCmd implies exists|j: int|
                            i < j < ops.len() && (#[trigger] ops[j]) is Reset by {
                        assert(i < n);
                        assert(init[i] is SetCmd);
                        let j = choose|j: int| i < j < init.len() && (#[trigger] init[j]) is Reset;
                        assert(ops[j] is Reset);
                    }
                } else {
                    if forall|i: int|
                        0 <= i < ops.len() && (#[trigger] ops[i]) is SetCmd ==> exists|j: int|
                            i < j < ops.len() && (#[trigger] ops[j]) is Reset {
                        assert forall|i: int|
                            0 <= i < init.len() && (#[trigger] init[i]) is SetCmd implies exists|
                                j: int,
                            | i < j < init.len() && (#[trigger] init[j]) is Reset by {
                            assert(ops[i] is SetCmd);
                            let j = choose|j: int| i < j < ops.len() && (#[trigger] ops[j]) is Reset;
                            assert(j < n);
                            assert(init[j] is Reset);
                        }
                    }
                }
                assert forall|i: int|
                    0 <= i < ops.len() && (#[trigger] ops[i]) is SetCmd && (forall|j: int|
                        i < j < ops.len() ==> !(#[trigger] ops[j] is SetCmd) && !(ops[j] is Reset))
                        implies apply_ops(initial_state(), ops).cmd == Some(ops[i]->SetCmd_0) by {
                    assert(i < n);
                    assert(init[i] == ops[i]);
                    assert forall|j: int| i < j < init.len() implies !(#[trigger] init[j] is SetCmd)
                        && !(init[j] is Reset) by {
                        assert(ops[j] == init[j]);
                    }
                }
            },
        }
    }
}

} // verus!
