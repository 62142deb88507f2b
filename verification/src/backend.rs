//! A terminal back end that renders a grid of styled cells as one string
//! of ANSI escape sequences.
//!
//! Zellij plugins print their pane rather than write to a terminal, so the
//! dialog is drawn into this grid cell by cell and printed as a whole.

use arrayvec::ArrayString;
use vstd::prelude::*;

use crate::decimal::{dec, push_decimal};
use crate::symbol::{
    symbol_clear, symbol_new, symbol_push, symbol_str, symbol_text, symbol_try_push_str,
    SYMBOL_CAP,
};
use crate::text::{byte_len, lemma_byte_len_push, push_char, push_str};

verus! {

/// A colour, as ratatui names them.
#[derive(Debug, Clone, Copy, PartialEq, Eq, Structural)]
pub enum Color {
    Reset,
    Black,
    Red,
    Green,
    Yellow,
    Blue,
    Magenta,
    Cyan,
    Gray,
    DarkGray,
    LightRed,
    LightGreen,
    LightYellow,
    LightBlue,
    LightMagenta,
    LightCyan,
    White,
    Rgb(u8, u8, u8),
    Indexed(u8),
}

/// Bold text (the `Modifier` bit ratatui uses).
pub const BOLD: u16 = 0x1;

/// Dim text.
pub const DIM: u16 = 0x2;

/// Italic text.
pub const ITALIC: u16 = 0x4;

/// Underlined text.
pub const UNDERLINED: u16 = 0x8;

/// Slowly blinking text.
pub const SLOW_BLINK: u16 = 0x10;

/// Rapidly blinking text.
pub const RAPID_BLINK: u16 = 0x20;

/// Reversed colours.
pub const REVERSED: u16 = 0x40;

/// Hidden text.
pub const HIDDEN: u16 = 0x80;

/// Crossed-out text.
pub const CROSSED_OUT: u16 = 0x100;

/// A position on the grid.
#[derive(Debug, Clone, Copy, PartialEq, Eq, Structural)]
pub struct Position {
    pub x: u16,
    pub y: u16,
}

/// What a cell shows: its symbol and its style.
pub struct CellView {
    pub symbol: Seq<char>,
    pub fg: Option<Color>,
    pub bg: Option<Color>,
    pub modifiers: u16,
}

/// One cell of the grid, held without heap allocation.
struct CellState {
    symbol: ArrayString<4>,
    fg: Option<Color>,
    bg: Option<Color>,
    modifiers: u16,
}

impl CellState {
    spec fn view(self) -> CellView {
        CellView { symbol: symbol_text(self.symbol), fg: self.fg, bg: self.bg, modifiers: self.modifiers }
    }

    spec fn wf(self) -> bool {
        byte_len(symbol_text(self.symbol)) <= SYMBOL_CAP
    }

    /// A blank cell: a space with no style.
    fn blank() -> (r: CellState)
        ensures
            r.view() == blank_cell(),
            r.wf(),
    {
        let mut symbol = symbol_new();
        proof {
            lemma_byte_len_push(Seq::<char>::empty(), ' ');
            assert(Seq::<char>::empty().push(' ') =~= seq![' ']);
        }
        symbol_push(&mut symbol, ' ');
        assert(symbol_text(symbol) =~= seq![' ']);
        CellState { symbol, fg: None, bg: None, modifiers: 0 }
    }
}

/// A blank cell: a space with no colours and no modifiers.
pub open spec fn blank_cell() -> CellView {
    CellView { symbol: seq![' '], fg: None, bg: None, modifiers: 0 }
}

/// The grid, the cursor and its visibility.
pub struct BackendView {
    pub width: u16,
    pub height: u16,
    pub cells: Seq<Seq<CellView>>,
    pub cursor: Position,
    pub cursor_visible: bool,
}

/// A grid of `height` rows of `width` cells, each cell's symbol taking at
/// most `SYMBOL_CAP` bytes.
pub open spec fn grid_ok(v: BackendView) -> bool {
    &&& v.cells.len() == v.height
    &&& forall|y: int| 0 <= y < v.height ==> (#[trigger] v.cells[y]).len() == v.width
    &&& forall|y: int, x: int|
        0 <= y < v.height && 0 <= x < v.width ==> byte_len((#[trigger] v.cells[y][x]).symbol)
            <= SYMBOL_CAP
}

/// A grid of `width` by `height` blank cells.
pub open spec fn blank_grid(width: u16, height: u16) -> Seq<Seq<CellView>> {
    Seq::new(height as nat, |y: int| Seq::new(width as nat, |x: int| blank_cell()))
}

/// A back end that renders cells into an ANSI escape sequence string.
pub struct AnsiBackend {
    width: u16,
    height: u16,
    cells: Vec<Vec<CellState>>,
    cursor_pos: Position,
    cursor_visible: bool,
}

impl View for AnsiBackend {
    type V = BackendView;

    closed spec fn view(&self) -> BackendView {
        BackendView {
            width: self.width,
            height: self.height,
            cells: Seq::new(
                self.cells@.len(),
                |y: int| Seq::new(self.cells@[y]@.len(), |x: int| self.cells@[y]@[x].view()),
            ),
            cursor: self.cursor_pos,
            cursor_visible: self.cursor_visible,
        }
    }
}

impl AnsiBackend {
    /// The grid has `height` rows of `width` cells, and each symbol fits in
    /// a cell.
    pub closed spec fn wf(&self) -> bool {
        &&& self.cells@.len() == self.height
        &&& forall|y: int|
            0 <= y < self.cells@.len() ==> (#[trigger] self.cells@[y])@.len() == self.width
        &&& forall|y: int, x: int|
            0 <= y < self.cells@.len() && 0 <= x < self.cells@[y]@.len() ==> (
            #[trigger] self.cells@[y]@[x]).wf()
    }

    /// Well-formedness, said of the view: the grid has `height` rows of
    /// `width` cells, and each cell's symbol takes at most `SYMBOL_CAP`
    /// bytes.
    pub proof fn lemma_wf_view(&self)
        ensures
            self.wf() <==> grid_ok(self@),
    {
        if grid_ok(self@) {
            assert forall|y: int| 0 <= y < self.cells@.len() implies (
            #[trigger] self.cells@[y])@.len() == self.width by {
                assert(self@.cells[y].len() == self.width);
            }
            assert forall|y: int, x: int|
                0 <= y < self.cells@.len() && 0 <= x < self.cells@[y]@.len() implies (
            #[trigger] self.cells@[y]@[x]).wf() by {
                assert(self@.cells[y][x] == self.cells@[y]@[x].view());
            }
        }
    }

    /// A well-formed back end's grid has `height` rows of `width` cells.
    pub proof fn lemma_wf_shape(&self)
        requires
            self.wf(),
        ensures
            self@.cells.len() == self@.height,
            forall|y: int| 0 <= y < self@.height ==> (#[trigger] self@.cells[y]).len() == self@.width,
    {
    }

    /// A back end of `width` by `height` blank cells, with the cursor hidden
    /// at the origin.
    pub fn new(width: u16, height: u16) -> (r: AnsiBackend)
        ensures
            r.wf(),
            r@.width == width,
            r@.height == height,
            r@.cells == blank_grid(width, height),
            r@.cursor == (Position { x: 0, y: 0 }),
            !r@.cursor_visible,
    {
        let mut cells: Vec<Vec<CellState>> = Vec::new();
        let mut y: u16 = 0;
        while y < height
            invariant
                y <= height,
                cells@.len() == y,
                forall|j: int| 0 <= j < y ==> (#[trigger] cells@[j])@.len() == width,
                forall|j: int, x: int|
                    0 <= j < y && 0 <= x < width ==> (#[trigger] cells@[j]@[x]).view()
                        == blank_cell() && cells@[j]@[x].wf(),
            decreases height - y,
        {
            let mut row: Vec<CellState> = Vec::new();
            let mut x: u16 = 0;
            while x < width
                invariant
                    x <= width,
                    row@.len() == x,
                    forall|i: int| 0 <= i < x ==> (#[trigger] row@[i]).view() == blank_cell()
                        && row@[i].wf(),
                decreases width - x,
            {
                row.push(CellState::blank());
                x = x + 1;
            }
            cells.push(row);
            y = y + 1;
        }
        let r = AnsiBackend {
            width,
            height,
            cells,
            cursor_pos: Position { x: 0, y: 0 },
            cursor_visible: false,
        };
        assert(r@.cells =~= blank_grid(width, height)) by {
            assert forall|j: int| 0 <= j < height implies #[trigger] r@.cells[j] =~= blank_grid(
                width,
                height,
            )[j] by {}
        }
        r
    }
}

// ---------------------------------------------------------------- ANSI text

/// The SGR code of a named colour in the foreground (the background's is
/// ten more).
pub open spec fn named_code(c: Color) -> nat {
    match c {
        Color::Black => 30,
        Color::Red => 31,
        Color::Green => 32,
        Color::Yellow => 33,
        Color::Blue => 34,
        Color::Magenta => 35,
        Color::Cyan => 36,
        Color::Gray => 37,
        Color::DarkGray => 90,
        Color::LightRed => 91,
        Color::LightGreen => 92,
        Color::LightYellow => 93,
        Color::LightBlue => 94,
        Color::LightMagenta => 95,
        Color::LightCyan => 96,
        Color::White => 97,
        _ => 0,
    }
}

/// The SGR parameters that select colour `c` for the foreground, or for
/// the background when `bg`: nothing for `Reset`, the named colour's code,
/// `38;2;r;g;b` / `48;2;r;g;b` for RGB and `38;5;i` / `48;5;i` for an
/// indexed colour.
pub open spec fn color_code(c: Color, bg: bool) -> Seq<char> {
    let prefix: nat = if bg {
        48
    } else {
        38
    };
    match c {
        Color::Reset => Seq::empty(),
        Color::Rgb(r, g, b) => dec(prefix) + ";2;"@ + dec(r as nat) + ";"@ + dec(g as nat) + ";"@
            + dec(b as nat),
        Color::Indexed(i) => dec(prefix) + ";5;"@ + dec(i as nat),
        _ => dec(
            named_code(c) + if bg {
                10nat
            } else {
                0nat
            },
        ),
    }
}

/// The SGR code `code` if the modifier bit `bit` is set in `m`.
pub open spec fn modifier_code(m: u16, bit: u16, code: char) -> Seq<Seq<char>> {
    if m & bit != 0 {
        seq![seq![code]]
    } else {
        Seq::empty()
    }
}

/// The SGR codes of the modifiers in `m`, in order: bold (1), dim (2),
/// italic (3), underlined (4) and reversed (7) as set.
pub open spec fn modifier_params(m: u16) -> Seq<Seq<char>> {
    modifier_code(m, BOLD, '1') + modifier_code(m, DIM, '2') + modifier_code(m, ITALIC, '3')
        + modifier_code(m, UNDERLINED, '4') + modifier_code(m, REVERSED, '7')
}

/// The SGR parameters of a cell, in order: bold (1), dim (2), italic (3),
/// underlined (4) and reversed (7) as set, then the foreground and the
/// background colour where there is one.
pub open spec fn sgr_params(c: CellView) -> Seq<Seq<char>> {
    modifier_params(c.modifiers) + match c.fg {
        Some(f) => seq![color_code(f, false)],
        None => Seq::empty(),
    } + match c.bg {
        Some(b) => seq![color_code(b, true)],
        None => Seq::empty(),
    }
}

/// The pieces `ps` joined with semicolons.
pub open spec fn join_semicolons(ps: Seq<Seq<char>>) -> Seq<char>
    decreases ps.len(),
{
    if ps.len() == 0 {
        Seq::empty()
    } else if ps.len() == 1 {
        ps[0]
    } else {
        join_semicolons(ps.drop_last()) + seq![';'] + ps.last()
    }
}

/// Whether a cell has any style: a colour or a modifier.
pub open spec fn has_style(c: CellView) -> bool {
    c.fg is Some || c.bg is Some || c.modifiers != 0
}

/// A cell as ANSI text: the bare symbol for an unstyled cell, else the SGR
/// sequence for its style, the symbol and a reset.
pub open spec fn cell_ansi(c: CellView) -> Seq<char> {
    if !has_style(c) {
        c.symbol
    } else {
        "\x1b["@ + join_semicolons(sgr_params(c)) + seq!['m'] + c.symbol + "\x1b[0m"@
    }
}

/// A row of cells as ANSI text.
pub open spec fn row_ansi(row: Seq<CellView>) -> Seq<char>
    decreases row.len(),
{
    if row.len() == 0 {
        Seq::empty()
    } else {
        row_ansi(row.drop_last()) + cell_ansi(row.last())
    }
}

/// Rows of cells as ANSI text, one after the other with CR LF between them.
pub open spec fn grid_ansi(rows: Seq<Seq<CellView>>) -> Seq<char>
    decreases rows.len(),
{
    if rows.len() == 0 {
        Seq::empty()
    } else {
        grid_ansi(rows.drop_last()) + (if rows.len() > 1 {
            "\r\n"@
        } else {
            Seq::empty()
        }) + row_ansi(rows.last())
    }
}

/// The whole grid as ANSI text: cursor home, clear screen, then the rows.
pub open spec fn ansi_text(v: BackendView) -> Seq<char> {
    "\x1b[H\x1b[2J"@ + grid_ansi(v.cells)
}

/// Appends the SGR parameters of colour `color` (for the background when
/// `bg`) to `out`.
pub fn write_color(out: &mut String, color: Color, bg: bool)
    ensures
        final(out)@ == old(out)@ + color_code(color, bg),
{
    let offset: u32 = if bg {
        10
    } else {
        0
    };
    let prefix: u32 = if bg {
        48
    } else {
        38
    };
    match color {
        Color::Reset => {
            assert(out@ =~= old(out)@ + color_code(color, bg));
        },
        Color::Black => push_decimal(out, 30 + offset),
        Color::Red => push_decimal(out, 31 + offset),
        Color::Green => push_decimal(out, 32 + offset),
        Color::Yellow => push_decimal(out, 33 + offset),
        Color::Blue => push_decimal(out, 34 + offset),
        Color::Magenta => push_decimal(out, 35 + offset),
        Color::Cyan => push_decimal(out, 36 + offset),
        Color::Gray => push_decimal(out, 37 + offset),
        Color::DarkGray => push_decimal(out, 90 + offset),
        Color::LightRed => push_decimal(out, 91 + offset),
        Color::LightGreen => push_decimal(out, 92 + offset),
        Color::LightYellow => push_decimal(out, 93 + offset),
        Color::LightBlue => push_decimal(out, 94 + offset),
        Color::LightMagenta => push_decimal(out, 95 + offset),
        Color::LightCyan => push_decimal(out, 96 + offset),
        Color::White => push_decimal(out, 97 + offset),
        Color::Rgb(r, g, b) => {
            push_decimal(out, prefix);
            push_str(out, ";2;");
            push_decimal(out, r as u32);
            push_str(out, ";");
            push_decimal(out, g as u32);
            push_str(out, ";");
            push_decimal(out, b as u32);
            assert(out@ =~= old(out)@ + color_code(color, bg));
        },
        Color::Indexed(i) => {
            push_decimal(out, prefix);
            push_str(out, ";5;");
            push_decimal(out, i as u32);
            assert(out@ =~= old(out)@ + color_code(color, bg));
        },
    }
}

proof fn lemma_join_push(ps: Seq<Seq<char>>, p: Seq<char>)
    ensures
        join_semicolons(ps.push(p)) == if ps.len() == 0 {
            p
        } else {
            join_semicolons(ps) + seq![';'] + p
        },
{
    assert(ps.push(p).drop_last() =~= ps);
    assert(ps.push(p).last() == p);
    if ps.len() == 0 {
        assert(ps.push(p)[0] == p);
    }
}

/// Appends the SGR code `code` as the next parameter after `ps`.
fn push_code(out: &mut String, need_sep: bool, code: char, Ghost(base): Ghost<Seq<char>>, Ghost(ps): Ghost<Seq<Seq<char>>>)
    requires
        old(out)@ == base + join_semicolons(ps),
        need_sep == (ps.len() > 0),
    ensures
        final(out)@ == base + join_semicolons(ps.push(seq![code])),
{
    proof {
        lemma_join_push(ps, seq![code]);
    }
    if need_sep {
        push_char(out, ';');
    }
    push_char(out, code);
    assert(out@ =~= base + join_semicolons(ps.push(seq![code])));
}

/// Appends the SGR parameters of a colour as the next parameter after `ps`.
fn push_color_code(out: &mut String, need_sep: bool, color: Color, bg: bool, Ghost(base): Ghost<Seq<char>>, Ghost(ps): Ghost<Seq<Seq<char>>>)
    requires
        old(out)@ == base + join_semicolons(ps),
        need_sep == (ps.len() > 0),
    ensures
        final(out)@ == base + join_semicolons(ps.push(color_code(color, bg))),
{
    proof {
        lemma_join_push(ps, color_code(color, bg));
    }
    if need_sep {
        push_char(out, ';');
    }
    write_color(out, color, bg);
    assert(out@ =~= base + join_semicolons(ps.push(color_code(color, bg))));
}

/// Appends the code for modifier `bit` if `m` has it set.
fn push_modifier(out: &mut String, m: u16, bit: u16, code: char, need_sep: bool, Ghost(base): Ghost<Seq<char>>, Ghost(ps): Ghost<Seq<Seq<char>>>) -> (r: bool)
    requires
        old(out)@ == base + join_semicolons(ps),
        need_sep == (ps.len() > 0),
    ensures
        final(out)@ == base + join_semicolons(ps + modifier_code(m, bit, code)),
        r == ((ps + modifier_code(m, bit, code)).len() > 0),
{
    if m & bit != 0 {
        push_code(out, need_sep, code, Ghost(base), Ghost(ps));
        assert(ps + modifier_code(m, bit, code) =~= ps.push(seq![code]));
        true
    } else {
        assert(ps + modifier_code(m, bit, code) =~= ps);
        need_sep
    }
}

/// Appends the SGR codes of the modifiers in `m`; tells whether it wrote
/// any.
fn push_modifiers(out: &mut String, m: u16) -> (r: bool)
    ensures
        final(out)@ == old(out)@ + join_semicolons(modifier_params(m)),
        r == (modifier_params(m).len() > 0),
{
    let ghost base = out@;
    let ghost p0: Seq<Seq<char>> = Seq::empty();
    assert(out@ =~= base + join_semicolons(p0));
    let n = push_modifier(out, m, BOLD, '1', false, Ghost(base), Ghost(p0));
    let ghost p1 = p0 + modifier_code(m, BOLD, '1');
    let n = push_modifier(out, m, DIM, '2', n, Ghost(base), Ghost(p1));
    let ghost p2 = p1 + modifier_code(m, DIM, '2');
    let n = push_modifier(out, m, ITALIC, '3', n, Ghost(base), Ghost(p2));
    let ghost p3 = p2 + modifier_code(m, ITALIC, '3');
    let n = push_modifier(out, m, UNDERLINED, '4', n, Ghost(base), Ghost(p3));
    let ghost p4 = p3 + modifier_code(m, UNDERLINED, '4');
    let n = push_modifier(out, m, REVERSED, '7', n, Ghost(base), Ghost(p4));
    assert(p4 + modifier_code(m, REVERSED, '7') =~= modifier_params(m));
    n
}

/// Appends the ANSI text of one cell to `out`.
fn push_cell(out: &mut String, cell: &CellState)
    ensures
        final(out)@ == old(out)@ + cell_ansi(cell.view()),
{
    let ghost c = cell.view();
    let styled = cell.fg.is_some() || cell.bg.is_some() || cell.modifiers != 0;
    if !styled {
        push_str(out, symbol_str(&cell.symbol));
        return;
    }
    push_str(out, "\x1b[");
    let ghost base = out@;
    let need_sep = push_modifiers(out, cell.modifiers);
    let ghost pm = modifier_params(cell.modifiers);
    let ghost pf: Seq<Seq<char>> = match cell.fg {
        Some(f) => pm.push(color_code(f, false)),
        None => pm,
    };
    let need_sep = match cell.fg {
        Some(fg) => {
            push_color_code(out, need_sep, fg, false, Ghost(base), Ghost(pm));
            true
        },
        None => need_sep,
    };
    let ghost pb: Seq<Seq<char>> = match cell.bg {
        Some(b) => pf.push(color_code(b, true)),
        None => pf,
    };
    match cell.bg {
        Some(bg) => {
            push_color_code(out, need_sep, bg, true, Ghost(base), Ghost(pf));
        },
        None => {},
    }
    assert(pb =~= sgr_params(c));
    push_char(out, 'm');
    push_str(out, symbol_str(&cell.symbol));
    push_str(out, "\x1b[0m");
    assert(out@ =~= old(out)@ + cell_ansi(c));
}

impl AnsiBackend {
    /// The grid as one string of ANSI escape sequences, ready to print.
    pub fn to_ansi(&self) -> (r: String)
        ensures
            r@ == ansi_text(self@),
    {
        let ghost v = self@;
        let mut out = String::new();
        push_str(&mut out, "\x1b[H\x1b[2J");
        let mut y: usize = 0;
        while y < self.cells.len()
            invariant
                v == self@,
                y <= self.cells@.len(),
                v.cells.len() == self.cells@.len(),
                out@ == "\x1b[H\x1b[2J"@ + grid_ansi(v.cells.take(y as int)),
            decreases self.cells.len() - y,
        {
            let ghost before = out@;
            if y > 0 {
                push_str(&mut out, "\r\n");
            }
            let ghost sep: Seq<char> = if y > 0 {
                "\r\n"@
            } else {
                Seq::empty()
            };
            assert(out@ =~= before + sep);
            let row = &self.cells[y];
            let ghost rv = v.cells[y as int];
            assert(rv.len() == row@.len());
            let mut x: usize = 0;
            while x < row.len()
                invariant
                    x <= row@.len(),
                    rv.len() == row@.len(),
                    rv == v.cells[y as int],
                    forall|i: int| 0 <= i < row@.len() ==> #[trigger] rv[i] == row@[i].view(),
                    out@ == before + sep + row_ansi(rv.take(x as int)),
                decreases row.len() - x,
            {
                push_cell(&mut out, &row[x]);
                proof {
                    assert(rv.take(x + 1).drop_last() =~= rv.take(x as int));
                    assert(rv.take(x + 1).last() == row@[x as int].view());
                }
                x = x + 1;
                assert(out@ =~= before + sep + row_ansi(rv.take(x as int)));
            }
            proof {
                assert(rv.take(row@.len() as int) =~= rv);
                let t = v.cells.take(y + 1);
                assert(t.drop_last() =~= v.cells.take(y as int));
                assert(t.last() == rv);
            }
            y = y + 1;
            assert(out@ =~= "\x1b[H\x1b[2J"@ + grid_ansi(v.cells.take(y as int)));
        }
        assert(v.cells.take(self.cells@.len() as int) =~= v.cells);
        out
    }
}

// ---------------------------------------------------------------- drawing

/// A colour as a cell keeps it: `Reset` means no colour.
pub open spec fn no_reset(c: Option<Color>) -> Option<Color> {
    match c {
        Some(Color::Reset) => None,
        _ => c,
    }
}

/// What a cell holds after drawing `symbol` in the given style: the symbol
/// if it fits in four bytes (else nothing), the colours other than `Reset`,
/// and the modifiers.
pub open spec fn drawn_cell(symbol: Seq<char>, fg: Option<Color>, bg: Option<Color>, modifiers: u16) -> CellView {
    CellView {
        symbol: if byte_len(symbol) <= SYMBOL_CAP {
            symbol
        } else {
            Seq::empty()
        },
        fg: no_reset(fg),
        bg: no_reset(bg),
        modifiers,
    }
}

/// The grid `cells` with cell (`x`, `y`) set to `c`, if it is on the grid.
pub open spec fn set_cell(v: BackendView, x: u16, y: u16, c: CellView) -> Seq<Seq<CellView>> {
    if y < v.cells.len() && x < v.width {
        v.cells.update(y as int, v.cells[y as int].update(x as int, c))
    } else {
        v.cells
    }
}

/// The kinds of clearing a terminal offers.
#[derive(Debug, Clone, Copy, PartialEq, Eq, Structural)]
pub enum ClearType {
    All,
    AfterCursor,
    BeforeCursor,
    CurrentLine,
    UntilNewLine,
}

/// The unit error of the back end's operations (none of which fails).
#[derive(Debug, Clone, Copy, PartialEq, Eq, Structural)]
pub struct AnsiBackendError;

impl AnsiBackendError {
    /// The error's message.
    pub fn message(&self) -> (r: String)
        ensures
            r@ == "AnsiBackend error"@,
    {
        crate::text::string_of("AnsiBackend error")
    }
}

fn keep_color(c: Option<Color>) -> (r: Option<Color>)
    ensures
        r == no_reset(c),
{
    match c {
        Some(Color::Reset) => None,
        other => other,
    }
}

impl AnsiBackend {
    /// Draws `symbol` with the given colours and modifiers at (`x`, `y`);
    /// a position off the grid is ignored, and a symbol longer than four
    /// bytes leaves the cell without one.
    pub fn draw_cell(
        &mut self,
        x: u16,
        y: u16,
        symbol: &str,
        fg: Option<Color>,
        bg: Option<Color>,
        modifiers: u16,
    )
        requires
            old(self).wf(),
            byte_len(symbol@) <= usize::MAX,
        ensures
            final(self).wf(),
            final(self)@.cells == set_cell(old(self)@, x, y, drawn_cell(symbol@, fg, bg, modifiers)),
            final(self)@.width == old(self)@.width,
            final(self)@.height == old(self)@.height,
            final(self)@.cursor == old(self)@.cursor,
            final(self)@.cursor_visible == old(self)@.cursor_visible,
    {
        let ghost v = self@;
        if (y as usize) < self.cells.len() && x < self.width {
            let mut cell = CellState::blank();
            symbol_clear(&mut cell.symbol);
            if symbol.len() <= SYMBOL_CAP {
                let _ = symbol_try_push_str(&mut cell.symbol, symbol);
            }
            assert(symbol_text(cell.symbol) =~= drawn_cell(symbol@, fg, bg, modifiers).symbol);
            cell.fg = keep_color(fg);
            cell.bg = keep_color(bg);
            cell.modifiers = modifiers;
            let yu = y as usize;
            let xu = x as usize;
            self.cells[yu][xu] = cell;
            assert(self@.cells =~= set_cell(v, x, y, drawn_cell(symbol@, fg, bg, modifiers))) by {
                assert forall|j: int| 0 <= j < self@.cells.len() implies #[trigger] self@.cells[j]
                    =~= set_cell(v, x, y, drawn_cell(symbol@, fg, bg, modifiers))[j] by {}
            }
        } else {
            assert(self@.cells =~= set_cell(v, x, y, drawn_cell(symbol@, fg, bg, modifiers)));
        }
    }

    /// Blanks every cell.
    pub fn clear(&mut self)
        requires
            old(self).wf(),
        ensures
            final(self).wf(),
            final(self)@.cells == blank_grid(old(self)@.width, old(self)@.height),
            final(self)@.width == old(self)@.width,
            final(self)@.height == old(self)@.height,
            final(self)@.cursor == old(self)@.cursor,
            final(self)@.cursor_visible == old(self)@.cursor_visible,
    {
        let ghost v = self@;
        let mut y: usize = 0;
        while y < self.cells.len()
            invariant
                self.wf(),
                y <= self.cells@.len(),
                self.width == v.width,
                self.height == v.height,
                self.cursor_pos == v.cursor,
                self.cursor_visible == v.cursor_visible,
                forall|j: int, i: int|
                    0 <= j < y && 0 <= i < self.width ==> (#[trigger] self.cells@[j]@[i]).view()
                        == blank_cell(),
            decreases self.cells.len() - y,
        {
            let mut x: usize = 0;
            while x < self.cells[y].len()
                invariant
                    self.wf(),
                    y < self.cells@.len(),
                    x <= self.cells@[y as int]@.len(),
                    self.width == v.width,
                    self.height == v.height,
                    self.cursor_pos == v.cursor,
                    self.cursor_visible == v.cursor_visible,
                    forall|j: int, i: int|
                        0 <= j < y && 0 <= i < self.width ==> (#[trigger] self.cells@[j]@[i]).view()
                            == blank_cell(),
                    forall|i: int|
                        0 <= i < x ==> (#[trigger] self.cells@[y as int]@[i]).view() == blank_cell(),
                decreases self.cells@[y as int]@.len() - x,
            {
                self.cells[y][x] = CellState::blank();
                x = x + 1;
            }
            y = y + 1;
        }
        assert(self@.cells =~= blank_grid(v.width, v.height)) by {
            assert forall|j: int| 0 <= j < v.height implies #[trigger] self@.cells[j] =~= blank_grid(
                v.width,
                v.height,
            )[j] by {}
        }
    }

    /// Clears the region `clear_type` names; only `All` has an effect
    /// (clearing every cell).
    pub fn clear_region(&mut self, clear_type: ClearType)
        requires
            old(self).wf(),
        ensures
            final(self).wf(),
            final(self)@.cells == if clear_type == ClearType::All {
                blank_grid(old(self)@.width, old(self)@.height)
            } else {
                old(self)@.cells
            },
            final(self)@.width == old(self)@.width,
            final(self)@.height == old(self)@.height,
            final(self)@.cursor == old(self)@.cursor,
            final(self)@.cursor_visible == old(self)@.cursor_visible,
    {
        match clear_type {
            ClearType::All => self.clear(),
            _ => {},
        }
    }

    /// Hides the cursor.
    pub fn hide_cursor(&mut self)
        ensures
            final(self)@ == (BackendView { cursor_visible: false, ..old(self)@ }),
            final(self).wf() == old(self).wf(),
    {
        self.cursor_visible = false;
    }

    /// Shows the cursor.
    pub fn show_cursor(&mut self)
        ensures
            final(self)@ == (BackendView { cursor_visible: true, ..old(self)@ }),
            final(self).wf() == old(self).wf(),
    {
        self.cursor_visible = true;
    }

    /// Whether the cursor is shown.
    pub fn cursor_visible(&self) -> (r: bool)
        ensures
            r == self@.cursor_visible,
    {
        self.cursor_visible
    }

    /// The cursor's position.
    pub fn get_cursor_position(&self) -> (r: Position)
        ensures
            r == self@.cursor,
    {
        self.cursor_pos
    }

    /// Moves the cursor to `position`.
    pub fn set_cursor_position(&mut self, position: Position)
        ensures
            final(self)@ == (BackendView { cursor: position, ..old(self)@ }),
            final(self).wf() == old(self).wf(),
    {
        self.cursor_pos = position;
    }

    /// The grid's size: (columns, rows).
    pub fn size(&self) -> (r: (u16, u16))
        ensures
            r == (self@.width, self@.height),
    {
        (self.width, self.height)
    }

    /// The window's size in cells and, taking a cell as 8 by 16 pixels, in
    /// pixels: ((columns, rows), (width, height)).
    pub fn window_size(&self) -> (r: ((u16, u16), (u16, u16)))
        requires
            self@.width * 8 <= u16::MAX,
            self@.height * 16 <= u16::MAX,
        ensures
            r == ((self@.width, self@.height), ((self@.width * 8) as u16, (self@.height * 16) as u16)),
    {
        ((self.width, self.height), (self.width * 8, self.height * 16))
    }
}

// ---------------------------------------------------------------- laws

/// `n` spaces.
pub open spec fn spaces(n: nat) -> Seq<char> {
    Seq::new(n, |i: int| ' ')
}

/// A row of blank cells renders as that many spaces, with no escape
/// sequence.
pub proof fn law_blank_row_is_spaces(n: nat)
    ensures
        row_ansi(Seq::new(n, |x: int| blank_cell())) == spaces(n),
    decreases n,
{
    if n > 0 {
        let row = Seq::new(n, |x: int| blank_cell());
        assert(row.drop_last() =~= Seq::new((n - 1) as nat, |x: int| blank_cell()));
        law_blank_row_is_spaces((n - 1) as nat);
        assert(spaces((n - 1) as nat) + seq![' '] =~= spaces(n));
    }
}

/// `Reset` colours leave no style: a cell drawn with them and no modifier
/// renders as its bare symbol.
pub proof fn law_reset_colours_leave_no_style(symbol: Seq<char>, fg: Option<Color>, bg: Option<Color>)
    requires
        fg is None || fg == Some(Color::Reset),
        bg is None || bg == Some(Color::Reset),
    ensures
        !has_style(drawn_cell(symbol, fg, bg, 0)),
        cell_ansi(drawn_cell(symbol, fg, bg, 0)) == drawn_cell(symbol, fg, bg, 0).symbol,
{
}

} // verus!
