//! The Zellij plugin's decisions: which pipe requests it takes, how it
//! sizes and places its pane, how keys edit the PIN, what it answers, and
//! what it draws.
//!
//! Each step takes an event and gives back what the host is to do (the
//! pane actions, and whether to redraw); the plugin's host loop performs
//! them.

use vstd::prelude::*;

use crate::backend::{ansi_text, AnsiBackend, BackendView, Position};
use crate::protocol::{opt_view, PinResponse, PinStatus, PinentryCmd, PinentryRequest, RequestView};
use crate::secret::zeroize_string;
use crate::text::{byte_len, char_bytes, lemma_byte_len_push, pop_char, push_char, string_of, utf8_width};
use crate::ui::{dialog_dimensions, dialog_dimensions_spec, dialog_grid, dims_fit, len16, prompt_text, render};

verus! {

/// The longest PIN, in bytes, that the dialog accepts.
pub const MAX_INPUT_LEN: usize = 1024;

/// A key, as much of it as the dialog reads.
#[derive(Debug, Clone, Copy, PartialEq, Eq, Structural)]
pub enum Key {
    Enter,
    Esc,
    Backspace,
    Char(char),
    Other,
}

/// The display area of a tab: columns and rows.
#[derive(Debug, Clone, Copy, PartialEq, Eq, Structural)]
pub struct TabSize {
    pub cols: u16,
    pub rows: u16,
}

/// An event from Zellij.
#[derive(Debug, Clone, Copy, PartialEq, Eq, Structural)]
pub enum PluginEvent {
    /// The tabs changed: the display area (columns, rows) of the active tab,
    /// if a tab is active.
    TabUpdate(Option<TabSize>),
    /// A key was pressed; the flag tells whether it came without modifiers.
    Key(Key, bool),
    /// Any other event.
    Other,
}

/// Something the plugin asks Zellij to do.
pub enum PaneAction {
    /// Hold the CLI pipe with this id open until the answer.
    BlockPipe(String),
    /// Give the plugin pane this title.
    Rename(String),
    /// Hide the plugin pane.
    Hide,
    /// Move the plugin pane to the tab that has the focus.
    MoveToFocusedTab,
    /// Make the plugin pane floating.
    Float,
    /// Place the floating pane, without border, at (`x`, `y`) with this
    /// size.
    Place { x: u16, y: u16, width: u16, height: u16 },
    /// Focus the plugin pane.
    Focus,
    /// Answer on the CLI pipe with this id (serialised as JSON), and release
    /// it.
    Respond { pipe_id: String, response: PinResponse },
}

/// A pane action as a plain value.
pub enum ActionView {
    BlockPipe(Seq<char>),
    Rename(Seq<char>),
    Hide,
    MoveToFocusedTab,
    Float,
    Place { x: u16, y: u16, width: u16, height: u16 },
    Focus,
    Respond { pipe_id: Seq<char>, status: PinStatus, passphrase: Option<Seq<char>> },
}

impl View for PaneAction {
    type V = ActionView;

    open spec fn view(&self) -> ActionView {
        match self {
            PaneAction::BlockPipe(id) => ActionView::BlockPipe(id@),
            PaneAction::Rename(t) => ActionView::Rename(t@),
            PaneAction::Hide => ActionView::Hide,
            PaneAction::MoveToFocusedTab => ActionView::MoveToFocusedTab,
            PaneAction::Float => ActionView::Float,
            PaneAction::Place { x, y, width, height } => ActionView::Place {
                x: *x,
                y: *y,
                width: *width,
                height: *height,
            },
            PaneAction::Focus => ActionView::Focus,
            PaneAction::Respond { pipe_id, response } => ActionView::Respond {
                pipe_id: pipe_id@,
                status: response.status,
                passphrase: opt_view(response.passphrase),
            },
        }
    }
}

/// The views of a sequence of actions.
pub open spec fn actions_view(a: Seq<PaneAction>) -> Seq<ActionView> {
    a.map_values(|x: PaneAction| x@)
}

/// The plugin's state.
pub struct PinentryPlugin {
    request: Option<PinentryRequest>,
    pipe_id: Option<String>,
    input: String,
    done: bool,
    sized_for_tab: bool,
    expected_cols: u16,
    last_tab_dims: Option<TabSize>,
}

/// The plugin's state as plain values: the request being shown, the id of
/// the CLI pipe it came on, the PIN typed so far, whether it has been
/// answered, whether the pane has been sized for the tab since it came, the
/// pane width a resize was asked for (0 for none), and the last display
/// area seen of the active tab.
pub struct PluginView {
    pub request: Option<RequestView>,
    pub pipe_id: Option<Seq<char>>,
    pub input: Seq<char>,
    pub done: bool,
    pub sized_for_tab: bool,
    pub expected_cols: u16,
    pub last_tab_dims: Option<TabSize>,
}

/// The view of an optional request.
pub open spec fn req_view(o: Option<PinentryRequest>) -> Option<RequestView> {
    match o {
        Some(r) => Some(r@),
        None => None,
    }
}

impl View for PinentryPlugin {
    type V = PluginView;

    closed spec fn view(&self) -> PluginView {
        PluginView {
            request: req_view(self.request),
            pipe_id: opt_view(self.pipe_id),
            input: self.input@,
            done: self.done,
            sized_for_tab: self.sized_for_tab,
            expected_cols: self.expected_cols,
            last_tab_dims: self.last_tab_dims,
        }
    }
}

/// The state the plugin starts in: no request, nothing typed.
pub open spec fn initial_plugin() -> PluginView {
    PluginView {
        request: None,
        pipe_id: None,
        input: Seq::empty(),
        done: false,
        sized_for_tab: false,
        expected_cols: 0,
        last_tab_dims: None,
    }
}

/// Where the pane for request `r` goes on a tab of `tc` by `tr`: its size
/// from `dialog_dimensions`, centred.
pub open spec fn placement(r: RequestView, tc: u16, tr: u16) -> ActionView {
    let d = dialog_dimensions_spec(r, tc, tr);
    ActionView::Place {
        x: ((if tc >= d.0 {
            tc - d.0
        } else {
            0
        }) / 2) as u16,
        y: ((if tr >= d.1 {
            tr - d.1
        } else {
            0
        }) / 2) as u16,
        width: d.0 as u16,
        height: d.1 as u16,
    }
}

/// The actions that answer a request: the answer on the pipe if there is
/// one, then hiding the pane (which stays for the next request).
pub open spec fn respond_actions(pipe_id: Option<Seq<char>>, status: PinStatus, passphrase: Option<
    Seq<char>,
>) -> Seq<ActionView> {
    match pipe_id {
        Some(id) => seq![
            ActionView::Respond { pipe_id: id, status, passphrase },
            ActionView::Hide,
        ],
        None => seq![ActionView::Hide],
    }
}

/// The state after answering: the PIN wiped and the request done.
pub open spec fn answered(v: PluginView) -> PluginView {
    PluginView { input: Seq::empty(), done: true, ..v }
}

/// Whether a pipe message is taken: no unanswered request is being shown,
/// it came on a CLI pipe, and its payload is a request.
pub open spec fn takes_pipe(v: PluginView, cli: bool, has_request: bool) -> bool {
    !(v.request is Some && !v.done) && cli && has_request
}

/// What an event does to the plugin: whether to redraw, the new state and
/// the actions (see `PinentryPlugin::update`).
pub open spec fn update_step(v: PluginView, event: PluginEvent) -> (bool, PluginView, Seq<
    ActionView,
>) {
    if v.done || v.request is None {
        (false, v, Seq::empty())
    } else {
        let q = v.request.unwrap();
        match event {
            PluginEvent::TabUpdate(Some(d)) => if v.sized_for_tab {
                (false, PluginView { last_tab_dims: Some(d), ..v }, Seq::empty())
            } else {
                (
                    false,
                    PluginView {
                        last_tab_dims: Some(d),
                        sized_for_tab: true,
                        expected_cols: dialog_dimensions_spec(q, d.cols, d.rows).0 as u16,
                        ..v
                    },
                    seq![placement(q, d.cols, d.rows), ActionView::Focus],
                )
            },
            PluginEvent::Key(Key::Enter, true) => (
                true,
                answered(v),
                respond_actions(
                    v.pipe_id,
                    PinStatus::Okay,
                    if q.cmd == PinentryCmd::GetPin {
                        Some(v.input)
                    } else {
                        None
                    },
                ),
            ),
            PluginEvent::Key(Key::Esc, true) => (
                true,
                answered(v),
                respond_actions(v.pipe_id, PinStatus::Canceled, None),
            ),
            PluginEvent::Key(Key::Backspace, true) => (
                true,
                PluginView {
                    input: if v.input.len() > 0 {
                        v.input.drop_last()
                    } else {
                        v.input
                    },
                    ..v
                },
                Seq::empty(),
            ),
            PluginEvent::Key(Key::Char(c), true) => if q.cmd == PinentryCmd::GetPin && byte_len(
                v.input,
            ) + char_bytes(c) <= MAX_INPUT_LEN {
                (true, PluginView { input: v.input.push(c), ..v }, Seq::empty())
            } else {
                (false, v, Seq::empty())
            },
            _ => (false, v, Seq::empty()),
        }
    }
}

impl PinentryPlugin {
    /// The PIN stays within the limit.
    pub closed spec fn wf(&self) -> bool {
        byte_len(self.input@) <= MAX_INPUT_LEN
    }

    /// Well-formedness, said of the view: the PIN takes at most
    /// `MAX_INPUT_LEN` bytes.
    pub proof fn lemma_wf_view(&self)
        ensures
            self.wf() <==> byte_len(self@.input) <= MAX_INPUT_LEN,
    {
    }

    /// A plugin with no request.
    pub fn new() -> (r: PinentryPlugin)
        ensures
            r.wf(),
            r@ == initial_plugin(),
    {
        let r = PinentryPlugin {
            request: None,
            pipe_id: None,
            input: String::new(),
            done: false,
            sized_for_tab: false,
            expected_cols: 0,
            last_tab_dims: None,
        };
        assert(r.input@ =~= Seq::<char>::empty());
        r
    }
}

/// The placement of the pane for `request` on a tab of `tc` by `tr`.
fn place(request: &PinentryRequest, tc: u16, tr: u16) -> (r: PaneAction)
    requires
        dims_fit(request@, tc),
    ensures
        r@ == placement(request@, tc, tr),
{
    let (w, h) = dialog_dimensions(request, tc, tr);
    let x = (if tc >= w {
        tc - w
    } else {
        0
    }) / 2;
    let y = (if tr >= h {
        tr - h
    } else {
        0
    }) / 2;
    PaneAction::Place { x, y, width: w, height: h }
}

impl PinentryPlugin {
    /// A pipe message: `cli_pipe` is the id of the CLI pipe it came on (none
    /// for other sources) and `request` its payload read as a request (none
    /// if it had none or it did not parse). A message is taken unless a
    /// request is still unanswered: the pane is hidden, renamed blank, moved
    /// to the focused tab and floated, the pipe is held open, and, if a tab
    /// size is known, the pane is placed for it at once. Gives whether to
    /// redraw and the actions.
    pub fn pipe(&mut self, cli_pipe: Option<String>, request: Option<PinentryRequest>) -> (r: (
        bool,
        Vec<PaneAction>,
    ))
        requires
            old(self).wf(),
            takes_pipe(old(self)@, cli_pipe is Some, request is Some) ==> match (
                request,
                old(self)@.last_tab_dims,
            ) {
                (Some(q), Some(d)) => dims_fit(q@, d.cols),
                _ => true,
            },
        ensures
            final(self).wf(),
            r.0 == takes_pipe(old(self)@, cli_pipe is Some, request is Some),
            !r.0 ==> final(self)@ == old(self)@ && r.1@.len() == 0,
            r.0 ==> {
                let id = opt_view(cli_pipe).unwrap();
                let q = req_view(request).unwrap();
                &&& final(self)@ == (PluginView {
                    request: Some(q),
                    pipe_id: Some(id),
                    input: Seq::empty(),
                    done: false,
                    sized_for_tab: false,
                    expected_cols: match old(self)@.last_tab_dims {
                        Some(d) => dialog_dimensions_spec(q, d.cols, d.rows).0 as u16,
                        None => old(self)@.expected_cols,
                    },
                    last_tab_dims: old(self)@.last_tab_dims,
                })
                &&& actions_view(r.1@) == seq![
                    ActionView::BlockPipe(id),
                    ActionView::Rename(" "@),
                    ActionView::Hide,
                    ActionView::MoveToFocusedTab,
                    ActionView::Float,
                ] + match old(self)@.last_tab_dims {
                    Some(d) => seq![placement(q, d.cols, d.rows)],
                    None => Seq::empty(),
                }
            },
    {
        let mut actions: Vec<PaneAction> = Vec::new();
        if self.request.is_some() && !self.done {
            return (false, actions);
        }
        let pipe_id = match cli_pipe {
            Some(id) => id,
            None => return (false, actions),
        };
        let req = match request {
            Some(q) => q,
            None => return (false, actions),
        };
        zeroize_string(&mut self.input);
        if let Some(old_id) = &mut self.pipe_id {
            zeroize_string(old_id);
        }
        self.pipe_id = Some(pipe_id.clone());
        actions.push(PaneAction::BlockPipe(pipe_id));
        actions.push(PaneAction::Rename(string_of(" ")));
        actions.push(PaneAction::Hide);
        actions.push(PaneAction::MoveToFocusedTab);
        actions.push(PaneAction::Float);
        if let Some(TabSize { cols: tc, rows: tr }) = self.last_tab_dims {
            let placed = place(&req, tc, tr);
            if let PaneAction::Place { width, .. } = placed {
                self.expected_cols = width;
            }
            actions.push(placed);
        }
        self.request = Some(req);
        self.sized_for_tab = false;
        self.done = false;
        proof {
            let q = req_view(request).unwrap();
            let base = seq![
                ActionView::BlockPipe(opt_view(cli_pipe).unwrap()),
                ActionView::Rename(" "@),
                ActionView::Hide,
                ActionView::MoveToFocusedTab,
                ActionView::Float,
            ];
            assert(actions_view(actions@) =~= base + match old(self)@.last_tab_dims {
                Some(d) => seq![placement(q, d.cols, d.rows)],
                None => Seq::empty(),
            });
        }
        (true, actions)
    }

    /// Answers the request with `status` (and the PIN, if given): the
    /// answer goes out on the pipe, the PIN is wiped, the request is done
    /// and the pane is hidden for reuse.
    fn send_response(&mut self, status: PinStatus, passphrase: Option<String>) -> (r: Vec<PaneAction>)
        ensures
            final(self)@ == answered(old(self)@),
            final(self).wf(),
            actions_view(r@) == respond_actions(old(self)@.pipe_id, status, opt_view(passphrase)),
    {
        let mut actions: Vec<PaneAction> = Vec::new();
        let mut response = PinResponse { status, passphrase };
        match &self.pipe_id {
            Some(id) => {
                actions.push(PaneAction::Respond { pipe_id: id.clone(), response });
            },
            None => {
                if let Some(p) = &mut response.passphrase {
                    zeroize_string(p);
                }
            },
        }
        zeroize_string(&mut self.input);
        self.done = true;
        actions.push(PaneAction::Hide);
        proof {
            assert(actions_view(actions@) =~= respond_actions(
                old(self)@.pipe_id,
                status,
                opt_view(passphrase),
            ));
            assert(self@ =~= answered(old(self)@));
        }
        actions
    }

    /// An event from Zellij, while a request is shown and unanswered.
    ///
    /// - The first tab update after a request came sizes, centres and
    ///   focuses the pane for the active tab; every tab update records that
    ///   tab's size.
    /// - Enter (no modifiers) answers OK, with the PIN for GetPin.
    /// - Esc (no modifiers) answers Canceled.
    /// - Backspace (no modifiers) removes the last character of the PIN.
    /// - A character (no modifiers) is added to the PIN for GetPin while it
    ///   stays within `MAX_INPUT_LEN` bytes with it.
    ///
    /// Anything else, and any event once answered or before a request, does
    /// nothing. Gives whether to redraw and the actions.
    pub fn update(&mut self, event: PluginEvent) -> (r: (bool, Vec<PaneAction>))
        requires
            old(self).wf(),
            !old(self)@.done && !old(self)@.sized_for_tab ==> match (event, old(self)@.request) {
                (PluginEvent::TabUpdate(Some(d)), Some(q)) => dims_fit(q, d.cols),
                _ => true,
            },
        ensures
            final(self).wf(),
            byte_len(final(self)@.input) <= MAX_INPUT_LEN,
            (r.0, final(self)@, actions_view(r.1@)) == update_step(old(self)@, event),
    {
        let mut actions: Vec<PaneAction> = Vec::new();
        if self.done {
            return (false, actions);
        }
        let cmd = match &self.request {
            Some(q) => q.cmd,
            None => return (false, actions),
        };
        match event {
            PluginEvent::TabUpdate(Some(TabSize { cols: tc, rows: tr })) => {
                self.last_tab_dims = Some(TabSize { cols: tc, rows: tr });
                if self.sized_for_tab {
                    return (false, actions);
                }
                let placed = match &self.request {
                    Some(q) => place(q, tc, tr),
                    None => return (false, actions),
                };
                if let PaneAction::Place { width, .. } = placed {
                    self.expected_cols = width;
                }
                actions.push(placed);
                actions.push(PaneAction::Focus);
                self.sized_for_tab = true;
                proof {
                    assert(actions_view(actions@) =~= seq![
                        placement(old(self)@.request.unwrap(), tc, tr),
                        ActionView::Focus,
                    ]);
                }
                (false, actions)
            },
            PluginEvent::Key(Key::Enter, true) => {
                let passphrase = if cmd == PinentryCmd::GetPin {
                    let mut taken = String::new();
                    core::mem::swap(&mut taken, &mut self.input);
                    Some(taken)
                } else {
                    None
                };
                let actions = self.send_response(PinStatus::Okay, passphrase);
                (true, actions)
            },
            PluginEvent::Key(Key::Esc, true) => {
                let actions = self.send_response(PinStatus::Canceled, None);
                (true, actions)
            },
            PluginEvent::Key(Key::Backspace, true) => {
                let _ = pop_char(&mut self.input);
                proof {
                    if old(self)@.input.len() > 0 {
                        let s = old(self)@.input;
                        assert(s =~= s.drop_last().push(s.last()));
                        lemma_byte_len_push(s.drop_last(), s.last());
                    }
                }
                (true, actions)
            },
            PluginEvent::Key(Key::Char(c), true) => {
                if cmd == PinentryCmd::GetPin && utf8_width(c) <= MAX_INPUT_LEN - self.input.as_str().len() {
                    proof {
                        lemma_byte_len_push(self.input@, c);
                    }
                    push_char(&mut self.input, c);
                    return (true, actions);
                }
                (false, actions)
            },
            _ => (false, actions),
        }
    }
}

/// The text that shows the dialog for the request of `v`, with its PIN
/// masked, on a pane of `rows` by `cols`: the ANSI rendering of the grid
/// `dialog_grid` paints for that request and the PIN's length in bytes.
pub open spec fn dialog_screen(v: PluginView, rows: u16, cols: u16) -> Seq<char> {
    ansi_text(
        BackendView {
            width: cols,
            height: rows,
            cells: dialog_grid(cols, rows, v.request->0, byte_len(v.input)),
            cursor: Position { x: 0, y: 0 },
            cursor_visible: false,
        },
    )
}

impl PinentryPlugin {
    /// Draws the dialog on a pane of `rows` by `cols` (each taken as a
    /// `u16`): nothing without a request, nothing while a resize to another
    /// width is still pending (so the dialog never shows at the wrong
    /// size); otherwise the text to print, `dialog_screen`, and no resize
    /// is pending any more.
    pub fn render(&mut self, rows: usize, cols: usize) -> (r: Option<String>)
        requires
            old(self).wf(),
            old(self)@.expected_cols == 0 || cols == old(self)@.expected_cols ==> match old(
                self,
            )@.request {
                Some(q) => q.cmd == PinentryCmd::GetPin ==> len16(prompt_text(q)) + 2 <= u16::MAX,
                None => true,
            },
        ensures
            final(self).wf(),
            ({
                let v = old(self)@;
                let ready = v.request is Some && (v.expected_cols == 0 || cols
                    == v.expected_cols);
                &&& r is Some <==> ready
                &&& ready ==> final(self)@ == (PluginView { expected_cols: 0, ..v })
                &&& !ready ==> final(self)@ == v
                &&& r matches Some(t) ==> t@ == dialog_screen(v, rows as u16, cols as u16)
            }),
    {
        match &self.request {
            None => None,
            Some(request) => {
                if self.expected_cols > 0 && cols != self.expected_cols as usize {
                    return None;
                }
                self.expected_cols = 0;
                let mut backend = AnsiBackend::new(cols as u16, rows as u16);
                render(&mut backend, request, self.input.as_str());
                let text = backend.to_ansi();
                proof {
                    assert(text@ == ansi_text(backend@));
                }
                Some(text)
            },
        }
    }

    /// The request being shown, if any.
    pub fn request(&self) -> (r: Option<&PinentryRequest>)
        ensures
            match r {
                Some(q) => self@.request == Some(q@),
                None => self@.request is None,
            },
    {
        match &self.request {
            Some(q) => Some(q),
            None => None,
        }
    }

    /// The PIN typed so far.
    pub fn input(&self) -> (r: &str)
        ensures
            r@ == self@.input,
    {
        self.input.as_str()
    }

    /// Whether the request has been answered.
    pub fn is_done(&self) -> (r: bool)
        ensures
            r == self@.done,
    {
        self.done
    }

    /// Whether the pane has been sized for the tab since the request came.
    pub fn is_sized_for_tab(&self) -> (r: bool)
        ensures
            r == self@.sized_for_tab,
    {
        self.sized_for_tab
    }

    /// The pane width a resize was asked for and not yet seen (0 for none).
    pub fn pending_width(&self) -> (r: u16)
        ensures
            r == self@.expected_cols,
    {
        self.expected_cols
    }

    /// The display area last seen of the active tab.
    pub fn last_tab_size(&self) -> (r: Option<TabSize>)
        ensures
            r == self@.last_tab_dims,
    {
        self.last_tab_dims
    }
}

// ---------------------------------------------------------------- laws

/// Key presses of the characters `cs`, without modifiers.
pub open spec fn key_presses(cs: Seq<char>) -> Seq<PluginEvent>
    decreases cs.len(),
{
    if cs.len() == 0 {
        Seq::empty()
    } else {
        key_presses(cs.drop_last()).push(char_key(cs.last()))
    }
}

/// The press of the key for `c`, without modifiers.
pub open spec fn char_key(c: char) -> PluginEvent {
    PluginEvent::Key(Key::Char(c), true)
}

/// The state after the events `es`, one after the other.
pub open spec fn run_events(v: PluginView, es: Seq<PluginEvent>) -> PluginView
    decreases es.len(),
{
    if es.len() == 0 {
        v
    } else {
        update_step(run_events(v, es.drop_last()), es.last()).1
    }
}

proof fn lemma_typing_fills_input(v: PluginView, cs: Seq<char>)
    requires
        v.request matches Some(q) && q.cmd == PinentryCmd::GetPin,
        !v.done,
        v.input == Seq::<char>::empty(),
        byte_len(cs) <= MAX_INPUT_LEN,
    ensures
        run_events(v, key_presses(cs)) == (PluginView { input: cs, ..v }),
    decreases cs.len(),
{
    if cs.len() == 0 {
        assert(cs =~= v.input);
    } else {
        let init = cs.drop_last();
        assert(cs =~= init.push(cs.last()));
        lemma_byte_len_push(init, cs.last());
        lemma_typing_fills_input(v, init);
        assert(key_presses(cs).drop_last() =~= key_presses(init));
    }
}

/// Typing a PIN and pressing Enter answers with exactly that PIN: for a
/// GetPin request not yet answered, with nothing typed and a pipe to answer
/// on, the characters `cs` (at most `MAX_INPUT_LEN` bytes) followed by
/// Enter send `cs` as the passphrase with status OK.
pub proof fn law_typed_pin_is_answered(v: PluginView, cs: Seq<char>)
    requires
        v.request matches Some(q) && q.cmd == PinentryCmd::GetPin,
        !v.done,
        v.input == Seq::<char>::empty(),
        v.pipe_id is Some,
        byte_len(cs) <= MAX_INPUT_LEN,
    ensures
        update_step(run_events(v, key_presses(cs)), PluginEvent::Key(Key::Enter, true)).2
            == seq![
            ActionView::Respond { pipe_id: v.pipe_id.unwrap(), status: PinStatus::Okay, passphrase: Some(cs) },
            ActionView::Hide,
        ],
{
    lemma_typing_fills_input(v, cs);
}

/// Backspace takes back a character that was accepted.
pub proof fn law_backspace_undoes_char(v: PluginView, c: char)
    requires
        update_step(v, PluginEvent::Key(Key::Char(c), true)).0,
    ensures
        update_step(update_step(v, PluginEvent::Key(Key::Char(c), true)).1, PluginEvent::Key(
            Key::Backspace,
            true,
        )).1 == v,
{
    assert(v.input.push(c).drop_last() =~= v.input);
}

/// Cancelling never sends the PIN, and leaves it wiped.
pub proof fn law_cancel_sends_no_pin(v: PluginView)
    requires
        !v.done,
        v.request is Some,
    ensures
        update_step(v, PluginEvent::Key(Key::Esc, true)).2 == respond_actions(
            v.pipe_id,
            PinStatus::Canceled,
            None,
        ),
        update_step(v, PluginEvent::Key(Key::Esc, true)).1.input == Seq::<char>::empty(),
{
}

/// Once a request is answered, events change nothing until the next
/// request comes.
pub proof fn law_answered_ignores_events(v: PluginView, e: PluginEvent)
    requires
        v.done,
    ensures
        update_step(v, e) == (false, v, Seq::<ActionView>::empty()),
{
}

/// The PIN never grows past `MAX_INPUT_LEN` bytes.
pub proof fn law_pin_stays_bounded(v: PluginView, e: PluginEvent)
    requires
        byte_len(v.input) <= MAX_INPUT_LEN,
    ensures
        byte_len(update_step(v, e).1.input) <= MAX_INPUT_LEN,
{
    if !v.done && v.request is Some {
        match e {
            PluginEvent::Key(Key::Char(c), true) => {
                lemma_byte_len_push(v.input, c);
            },
            PluginEvent::Key(Key::Backspace, true) => {
                if v.input.len() > 0 {
                    assert(v.input =~= v.input.drop_last().push(v.input.last()));
                    lemma_byte_len_push(v.input.drop_last(), v.input.last());
                }
            },
            _ => {},
        }
    }
}

/// The pane is centred on the tab and fits in it.
pub proof fn law_placement_within_tab(r: RequestView, tc: u16, tr: u16)
    ensures
        placement(r, tc, tr) matches ActionView::Place { x, y, width, height } && x + x + width
            <= tc && y + y + height <= tr,
{
    crate::ui::law_pane_within_terminal(r, tc, tr);
}

/// The pane is only ever focused right after it is placed for the tab:
/// an event either focuses nothing or places the pane and then focuses it,
/// so the user never sees the dialog at a stale size.
pub proof fn law_focus_follows_placement(v: PluginView, e: PluginEvent)
    ensures
        ({
            let a = update_step(v, e).2;
            (exists|i: int| 0 <= i < a.len() && a[i] is Focus) ==> a.len() == 2 && a[0] is Place
                && a[1] is Focus
        }),
{
    let a = update_step(v, e).2;
    if exists|i: int| 0 <= i < a.len() && a[i] is Focus {
        let i = choose|i: int| 0 <= i < a.len() && a[i] is Focus;
        if !v.done && v.request is Some {
            match e {
                PluginEvent::Key(Key::Enter, true) | PluginEvent::Key(Key::Esc, true) => {
                    assert(!(a[i] is Focus));
                },
                _ => {},
            }
        }
    }
}

/// Enter answers every unanswered request with OK, whatever its command:
/// for GetPin the answer carries the PIN typed so far, for Confirm and
/// Message no passphrase; the pane is then hidden, the PIN wiped and the
/// request done. Without a pipe to answer on, the pane is only hidden.
pub proof fn law_enter_answers_ok(v: PluginView)
    requires
        !v.done,
        v.request is Some,
    ensures
        ({
            let (redraw, after, actions) = update_step(v, PluginEvent::Key(Key::Enter, true));
            &&& redraw
            &&& after.done
            &&& after.input == Seq::<char>::empty()
            &&& v.pipe_id matches Some(id) ==> actions == seq![
                ActionView::Respond {
                    pipe_id: id,
                    status: PinStatus::Okay,
                    passphrase: if v.request.unwrap().cmd == PinentryCmd::GetPin {
                        Some(v.input)
                    } else {
                        None
                    },
                },
                ActionView::Hide,
            ]
            &&& v.pipe_id is None ==> actions == seq![ActionView::Hide]
        }),
{
}

} // verus!
