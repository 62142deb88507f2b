//! Sizing the pinentry dialog: how many rows word-wrapped text takes, and
//! the width and height of the dialog for a request (following
//! pinentry-curses, whose PIN field is at least forty columns wide).

use arrayvec::ArrayVec;
use ratatui_core::buffer::Buffer;
use ratatui_core::layout::{Alignment, Constraint, Layout, Rect};
use ratatui_core::style::Color as TermColor;
use ratatui_core::style::{Modifier, Style};
use ratatui_core::text::{Line, Span};
use ratatui_core::widgets::Widget;
use ratatui_widgets::block::{Block, Padding};
use ratatui_widgets::borders::BorderType;
use ratatui_widgets::paragraph::{Paragraph, Wrap};
use vstd::prelude::*;

use crate::assuan::sub_chars;
use crate::backend::{drawn_cell, AnsiBackend, CellView, Color};
use crate::text::string_of;
use crate::protocol::{PinentryCmd, PinentryRequest, RequestView};
use crate::text::{
    byte_len, char_is_ws, chars_of, is_ws, lemma_byte_len_prefix, lemma_byte_len_push,
    lemma_encode_utf8_concat, utf8_width,
};

verus! {

// ---------------------------------------------------------------- words

/// The words of `s` as `str::split_whitespace` yields them: the maximal
/// runs of characters that are not white space, in order.
pub open spec fn words(s: Seq<char>) -> Seq<Seq<char>>
    decreases s.len(),
{
    if s.len() == 0 {
        Seq::empty()
    } else {
        let init = s.drop_last();
        let w = words(init);
        if is_ws(s.last()) {
            w
        } else if init.len() > 0 && !is_ws(init.last()) {
            w.update(w.len() - 1, w.last().push(s.last()))
        } else {
            w.push(seq![s.last()])
        }
    }
}

/// The byte lengths of a sequence of words.
pub open spec fn word_lens(ws: Seq<Seq<char>>) -> Seq<nat> {
    ws.map_values(|w: Seq<char>| byte_len(w))
}

/// The sum of a sequence of numbers.
pub open spec fn sum(s: Seq<nat>) -> nat
    decreases s.len(),
{
    if s.len() == 0 {
        0
    } else {
        sum(s.drop_last()) + s.last()
    }
}

/// A sequence of `usize` values as natural numbers.
pub open spec fn nats(v: Seq<usize>) -> Seq<nat> {
    v.map_values(|x: usize| x as nat)
}

proof fn lemma_sum_prefix(s: Seq<nat>, k: int)
    requires
        0 <= k <= s.len(),
    ensures
        sum(s.take(k)) <= sum(s),
    decreases s.len(),
{
    if k < s.len() {
        assert(s.drop_last().take(k) =~= s.take(k));
        lemma_sum_prefix(s.drop_last(), k);
    } else {
        assert(s.take(k) =~= s);
    }
}

proof fn lemma_words_facts(s: Seq<char>)
    ensures
        s.len() > 0 && !is_ws(s.last()) ==> words(s).len() > 0,
        forall|k: int| 0 <= k < words(s).len() ==> (#[trigger] words(s)[k]).len() > 0,
        sum(word_lens(words(s))) <= byte_len(s),
    decreases s.len(),
{
    if s.len() > 0 {
        let init = s.drop_last();
        let c = s.last();
        let w = words(init);
        let l = word_lens(w);
        lemma_words_facts(init);
        assert(s =~= init.push(c));
        lemma_byte_len_push(init, c);
        if is_ws(c) {
        } else if init.len() > 0 && !is_ws(init.last()) {
            let x = w.last().push(c);
            lemma_byte_len_push(w.last(), c);
            assert(word_lens(w.update(w.len() - 1, x)) =~= l.update(l.len() - 1, byte_len(x)));
            assert(l.update(l.len() - 1, byte_len(x)).drop_last() =~= l.drop_last());
            assert forall|k: int| 0 <= k < words(s).len() implies (#[trigger] words(s)[k]).len()
                > 0 by {
                if k < w.len() - 1 {
                    assert(words(s)[k] == w[k]);
                }
            }
        } else {
            lemma_byte_len_push(Seq::<char>::empty(), c);
            assert(Seq::<char>::empty().push(c) =~= seq![c]);
            assert(word_lens(w.push(seq![c])) =~= l.push(byte_len(seq![c])));
            assert(l.push(byte_len(seq![c])).drop_last() =~= l);
            assert forall|k: int| 0 <= k < words(s).len() implies (#[trigger] words(s)[k]).len()
                > 0 by {
                if k < w.len() {
                    assert(words(s)[k] == w[k]);
                }
            }
        }
    }
}

/// The byte lengths of the words of `s`, in order.
fn word_byte_lens(s: &[char]) -> (r: Vec<usize>)
    requires
        byte_len(s@) <= usize::MAX,
    ensures
        nats(r@) == word_lens(words(s@)),
{
    let mut r: Vec<usize> = Vec::new();
    let mut cur: usize = 0;
    let mut in_word = false;
    let mut i: usize = 0;
    while i < s.len()
        invariant
            i <= s.len(),
            byte_len(s@) <= usize::MAX,
            in_word == (i > 0 && !is_ws(s@[i - 1])),
            in_word ==> nats(r@).push(cur as nat) == word_lens(words(s@.take(i as int))),
            !in_word ==> nats(r@) == word_lens(words(s@.take(i as int))),
            !in_word ==> cur == 0,
            sum(nats(r@)) + cur <= byte_len(s@.take(i as int)),
        decreases s.len() - i,
    {
        let c = s[i];
        let wc = utf8_width(c);
        let ghost pre = s@.take(i as int);
        let ghost w = words(pre);
        proof {
            lemma_byte_len_push(pre, c);
            assert(s@.take(i + 1) =~= pre.push(c));
            assert(s@.take(i + 1).drop_last() =~= pre);
            lemma_byte_len_prefix(s@, i + 1);
            if i > 0 {
                assert(pre.last() == s@[i - 1]);
            }
        }
        if char_is_ws(c) {
            if in_word {
                let ghost old_r = nats(r@);
                r.push(cur);
                proof {
                    assert(nats(r@) =~= old_r.push(cur as nat));
                    assert(nats(r@).drop_last() =~= old_r);
                }
                cur = 0;
                in_word = false;
            }
        } else {
            proof {
                lemma_words_facts(pre);
            }
            if in_word {
                let ghost l = word_lens(w);
                let ghost x = w.last().push(c);
                proof {
                    lemma_byte_len_push(w.last(), c);
                    assert(word_lens(w.update(w.len() - 1, x)) =~= l.update(
                        l.len() - 1,
                        byte_len(x),
                    ));
                    assert(nats(r@).push((cur + wc) as nat) =~= l.update(
                        l.len() - 1,
                        byte_len(x),
                    ));
                }
            } else {
                proof {
                    lemma_byte_len_push(Seq::<char>::empty(), c);
                    assert(Seq::<char>::empty().push(c) =~= seq![c]);
                    assert(word_lens(w.push(seq![c])) =~= word_lens(w).push(byte_len(seq![c])));
                }
            }
            cur = cur + wc;
            in_word = true;
        }
        i = i + 1;
    }
    assert(s@.take(s.len() as int) =~= s@);
    if in_word {
        let ghost old_r = nats(r@);
        r.push(cur);
        assert(nats(r@) =~= old_r.push(cur as nat));
    }
    r
}

// ---------------------------------------------------------------- wrapping

/// One step of the greedy word wrap: from `(lines, col)`, where `lines`
/// rows are in use and the last one is filled to column `col`, lay out a
/// word of `wlen` bytes in rows of `width`. The word goes on the current
/// row after a space if it fits, else on a new row; a word wider than a
/// row breaks across as many rows as it needs.
pub open spec fn wrap_step(st: (nat, nat), wlen: nat, width: nat) -> (nat, nat) {
    let lines = st.0;
    let col = st.1;
    let l1: nat = if col == 0 || col + 1 + wlen <= width {
        lines
    } else {
        lines + 1
    };
    let c1: nat = if col != 0 && col + 1 + wlen <= width {
        col + 1 + wlen
    } else {
        wlen
    };
    if c1 > width {
        let c2 = c1 % width;
        ((l1 + (c1 - 1) / width as int) as nat, if c2 == 0 {
            width
        } else {
            c2
        })
    } else {
        (l1, c1)
    }
}

/// Where the greedy wrap stands after laying out words of the given byte
/// lengths, starting on one empty row.
pub open spec fn wrap_state(lens: Seq<nat>, width: nat) -> (nat, nat)
    decreases lens.len(),
{
    if lens.len() == 0 {
        (1, 0)
    } else {
        wrap_step(wrap_state(lens.drop_last(), width), lens.last(), width)
    }
}

/// The number of rows a paragraph (text without line breaks) takes when
/// its words are wrapped in rows of `width` bytes; at least one.
pub open spec fn paragraph_lines(s: Seq<char>, width: nat) -> nat {
    wrap_state(word_lens(words(s)), width).0
}

fn para_lines(cs: &[char], width: usize) -> (r: usize)
    requires
        byte_len(cs@) < usize::MAX,
        width > 0 || words(cs@).len() == 0,
    ensures
        r == paragraph_lines(cs@, width as nat),
        1 <= r <= 1 + byte_len(cs@),
{
    let lens = word_byte_lens(cs);
    let ghost ls = nats(lens@);
    proof {
        lemma_words_facts(cs@);
    }
    let mut lines: usize = 1;
    let mut col: usize = 0;
    let mut k: usize = 0;
    while k < lens.len()
        invariant
            k <= lens.len(),
            ls == nats(lens@),
            ls == word_lens(words(cs@)),
            (lines as nat, col as nat) == wrap_state(ls.take(k as int), width as nat),
            1 <= lines <= 1 + sum(ls.take(k as int)),
            col <= width,
            sum(ls) <= byte_len(cs@) < usize::MAX,
            forall|j: int| 0 <= j < ls.len() ==> #[trigger] ls[j] >= 1,
            width > 0 || lens.len() == 0,
        decreases lens.len() - k,
    {
        let wlen = lens[k];
        proof {
            assert(ls[k as int] == wlen);
            assert(ls.take(k + 1).drop_last() =~= ls.take(k as int));
            assert(ls.take(k + 1).last() == ls[k as int]);
            lemma_sum_prefix(ls, k + 1);
            assert(words(cs@)[k as int].len() > 0);
            let wd = words(cs@)[k as int];
            assert(ls[k as int] == byte_len(wd));
            assert(byte_len(wd) >= 1) by {
                assert(wd =~= wd.drop_last().push(wd.last()));
                lemma_byte_len_push(wd.drop_last(), wd.last());
            }
        }
        let ghost lines0 = lines;
        if col == 0 {
            col = wlen;
        } else if wlen < width && col < width - wlen {
            col = col + 1 + wlen;
        } else {
            lines = lines + 1;
            col = wlen;
        }
        if col > width {
            proof {
                let x = (col - 1) as int;
                let w = width as int;
                assert(x / w <= x) by (nonlinear_arith)
                    requires
                        x >= 0,
                        w >= 1,
                ;
            }
            lines = lines + (col - 1) / width;
            col = col % width;
            if col == 0 {
                col = width;
            }
        }
        k = k + 1;
    }
    assert(ls.take(lens.len() as int) =~= ls);
    lines
}

/// The number of rows a paragraph (no embedded line breaks) takes when its
/// words are wrapped in rows of `width` bytes.
pub fn count_paragraph_lines(text: &str, width: usize) -> (r: usize)
    requires
        byte_len(text@) < usize::MAX,
        width > 0 || words(text@).len() == 0,
    ensures
        r == paragraph_lines(text@, width as nat),
{
    let cs = chars_of(text);
    para_lines(cs.as_slice(), width)
}

// ---------------------------------------------------------------- paragraphs

/// The pieces of `s` between line breaks, as `str::split('\n')` yields
/// them (an empty text is one empty piece).
pub open spec fn lines_of(s: Seq<char>) -> Seq<Seq<char>>
    decreases s.len(),
{
    if s.len() == 0 {
        seq![Seq::<char>::empty()]
    } else {
        let p = lines_of(s.drop_last());
        if s.last() == '\n' {
            p.push(Seq::<char>::empty())
        } else {
            p.update(p.len() - 1, p.last().push(s.last()))
        }
    }
}

/// The rows the paragraphs `ps` take together.
pub open spec fn total_lines(ps: Seq<Seq<char>>, width: nat) -> nat
    decreases ps.len(),
{
    if ps.len() == 0 {
        0
    } else {
        total_lines(ps.drop_last(), width) + paragraph_lines(ps.last(), width)
    }
}

/// The rows a text takes when each of its lines is word-wrapped in rows of
/// `width` bytes: one for an empty text or a zero width, else the rows of
/// all its paragraphs, and at least one.
pub open spec fn wrapped_lines(s: Seq<char>, width: nat) -> nat {
    if width == 0 || s.len() == 0 {
        1
    } else {
        let t = total_lines(lines_of(s), width);
        if t < 1 {
            1
        } else {
            t
        }
    }
}

proof fn lemma_lines_of_nonempty(s: Seq<char>)
    ensures
        lines_of(s).len() >= 1,
    decreases s.len(),
{
    if s.len() > 0 {
        lemma_lines_of_nonempty(s.drop_last());
    }
}

proof fn lemma_byte_len_subrange(s: Seq<char>, a: int, b: int)
    requires
        0 <= a <= b <= s.len(),
    ensures
        byte_len(s.take(b)) == byte_len(s.take(a)) + byte_len(s.subrange(a, b)),
        byte_len(s.subrange(a, b)) <= byte_len(s),
{
    lemma_encode_utf8_concat(s.take(a), s.subrange(a, b));
    assert(s.take(a) + s.subrange(a, b) =~= s.take(b));
    lemma_byte_len_prefix(s, b);
}

/// The number of rows `text` takes when each of its lines (split at line
/// breaks, as percent-decoded Assuan text may hold them) is word-wrapped in
/// rows of `width` bytes; one for an empty text or a zero width.
pub fn count_wrapped_lines(text: &str, width: usize) -> (r: usize)
    requires
        byte_len(text@) < usize::MAX,
    ensures
        r == wrapped_lines(text@, width as nat),
{
    if width == 0 || text.is_empty() {
        return 1;
    }
    let cs = chars_of(text);
    let ghost s = cs@;
    let mut total: usize = 0;
    let mut start: usize = 0;
    let mut i: usize = 0;
    while i < cs.len()
        invariant
            s == cs@,
            s == text@,
            width > 0,
            start <= i <= cs.len(),
            byte_len(s) < usize::MAX,
            lines_of(s.take(i as int)).len() >= 1,
            total as nat == total_lines(lines_of(s.take(i as int)).drop_last(), width as nat),
            lines_of(s.take(i as int)).last() == s.subrange(start as int, i as int),
            total <= byte_len(s.take(start as int)),
        decreases cs.len() - i,
    {
        let c = cs[i];
        let ghost p = lines_of(s.take(i as int));
        proof {
            assert(s.take(i + 1).drop_last() =~= s.take(i as int));
            assert(s.take(i + 1).last() == c);
            lemma_lines_of_nonempty(s.take(i + 1));
        }
        if c == '\n' {
            let para = sub_chars(cs.as_slice(), start, i);
            proof {
                lemma_byte_len_subrange(s, start as int, i as int);
                lemma_byte_len_subrange(s, i as int, i + 1);
                lemma_byte_len_subrange(s, start as int, i + 1);
                assert(s.subrange(i as int, i + 1) =~= seq![c]);
                lemma_byte_len_push(Seq::<char>::empty(), c);
                assert(Seq::<char>::empty().push(c) =~= seq![c]);
                lemma_byte_len_prefix(s, i + 1);
                assert(p.push(Seq::<char>::empty()).drop_last() =~= p);
                assert(s.subrange(i + 1, i + 1) =~= Seq::<char>::empty());
            }
            let n = para_lines(para.as_slice(), width);
            total = total + n;
            start = i + 1;
        } else {
            proof {
                assert(p.update(p.len() - 1, p.last().push(c)).drop_last() =~= p.drop_last());
                assert(s.subrange(start as int, i + 1) =~= s.subrange(start as int, i as int).push(
                    c,
                ));
            }
        }
        i = i + 1;
    }
    let para = sub_chars(cs.as_slice(), start, cs.len());
    proof {
        assert(s.take(s.len() as int) =~= s);
        lemma_byte_len_subrange(s, start as int, s.len() as int);
    }
    let n = para_lines(para.as_slice(), width);
    let t = total + n;
    if t < 1 {
        1
    } else {
        t
    }
}

// ---------------------------------------------------------------- dialog size

/// Minimum width of the PIN entry field (as in pinentry-curses).
pub const MIN_PIN_LENGTH: u16 = 40;

/// Frame padding: two border characters and two padding characters.
pub const FRAME_PAD: u16 = 4;

/// `str::len` of a text, cast to `u16` as the sizing code does (the cast
/// keeps the low sixteen bits).
pub open spec fn len16(s: Seq<char>) -> u16 {
    (byte_len(s) as usize) as u16
}

/// The prompt shown before the PIN field.
pub open spec fn prompt_text(r: RequestView) -> Seq<char> {
    match r.prompt {
        Some(p) => p,
        None => "Passphrase:"@,
    }
}

/// The dialog's title.
pub open spec fn title_text(r: RequestView) -> Seq<char> {
    match r.title {
        Some(t) => t,
        None => "Pinentry"@,
    }
}

/// The width of the key hints line: "Enter Submit  Esc Cancel",
/// "Enter OK  Esc Cancel" or "Enter OK".
pub open spec fn hints_len(cmd: PinentryCmd) -> u16 {
    match cmd {
        PinentryCmd::GetPin => 24,
        PinentryCmd::Confirm => 20,
        PinentryCmd::Message => 8,
    }
}

/// The larger of two numbers.
pub open spec fn max_int(a: int, b: int) -> int {
    if a >= b {
        a
    } else {
        b
    }
}

/// The smaller of two numbers.
pub open spec fn min_int(a: int, b: int) -> int {
    if a <= b {
        a
    } else {
        b
    }
}

/// Whether the width computation stays within `u16` for a request.
pub open spec fn width_fits(r: RequestView) -> bool {
    &&& r.cmd == PinentryCmd::GetPin ==> len16(prompt_text(r)) + 1 + MIN_PIN_LENGTH + FRAME_PAD
        <= u16::MAX
    &&& len16(title_text(r)) + 4 + FRAME_PAD <= u16::MAX
}

/// The dialog width for a request within an area `area_width` wide: wide
/// enough for the prompt and a forty-column PIN field (GetPin only), the
/// key hints and the title with its decoration, each with the frame
/// padding, and no wider than the area.
pub open spec fn dialog_width_spec(r: RequestView, area_width: u16) -> int {
    let pin: int = if r.cmd == PinentryCmd::GetPin {
        len16(prompt_text(r)) + 1 + MIN_PIN_LENGTH + FRAME_PAD
    } else {
        0
    };
    let w = max_int(
        max_int(pin, hints_len(r.cmd) + FRAME_PAD),
        len16(title_text(r)) + 4 + FRAME_PAD,
    );
    min_int(w, area_width as int)
}

fn opt_len(o: &Option<String>, default: &str) -> (r: usize)
    ensures
        r == (byte_len(
            match o {
                Some(s) => s@,
                None => default@,
            },
        ) as usize),
{
    match o {
        Some(s) => s.as_str().len(),
        None => default.len(),
    }
}

/// The dialog width for `request` in an area `area_width` columns wide.
pub fn dialog_width(request: &PinentryRequest, area_width: u16) -> (r: u16)
    requires
        width_fits(request@),
    ensures
        r == dialog_width_spec(request@, area_width),
{
    let mut w: u16 = 0;
    if request.cmd == PinentryCmd::GetPin {
        let prompt_len = opt_len(&request.prompt, "Passphrase:") as u16;
        w = prompt_len + 1 + MIN_PIN_LENGTH + FRAME_PAD;
    }
    let hints: u16 = match request.cmd {
        PinentryCmd::GetPin => 24,
        PinentryCmd::Confirm => 20,
        PinentryCmd::Message => 8,
    };
    if w < hints + FRAME_PAD {
        w = hints + FRAME_PAD;
    }
    let title_len = opt_len(&request.title, "Pinentry") as u16 + 4;
    if w < title_len + FRAME_PAD {
        w = title_len + FRAME_PAD;
    }
    if w < area_width {
        w
    } else {
        area_width
    }
}

/// Whether a request shows an error row (an error that is not empty).
pub open spec fn has_error(r: RequestView) -> bool {
    r.error matches Some(e) && e.len() > 0
}

/// The rows the description takes in a dialog whose inside is
/// `inner_width` columns wide (two of them padding); one where there is
/// none or no room.
pub open spec fn desc_rows(r: RequestView, inner_width: u16) -> nat {
    match r.desc {
        Some(d) => {
            let ww: int = if inner_width >= 2 {
                inner_width - 2
            } else {
                0
            };
            if ww > 0 {
                wrapped_lines(d, ww as nat)
            } else {
                1
            }
        },
        None => 1,
    }
}

/// The dialog height: two border rows, the description rows (as a `u16`,
/// whose cast keeps the low sixteen bits), an error row if there is an
/// error, and spacer, input, spacer and hints rows for GetPin or spacer
/// and hints rows otherwise.
pub open spec fn dialog_height_spec(r: RequestView, inner_width: u16) -> int {
    2 + ((desc_rows(r, inner_width) as usize) as u16) + (if has_error(r) {
        1int
    } else {
        0
    }) + (if r.cmd == PinentryCmd::GetPin {
        4int
    } else {
        2
    })
}

/// Whether the height computation for `r` can run: the description fits
/// in memory and the height stays within `u16`.
pub open spec fn height_fits(r: RequestView, inner_width: u16) -> bool {
    &&& (r.desc matches Some(d) ==> byte_len(d) < usize::MAX)
    &&& dialog_height_spec(r, inner_width) <= u16::MAX
}

/// The dialog height for `request` when its text is `inner_width` columns
/// wide.
pub fn dialog_height(request: &PinentryRequest, inner_width: u16) -> (r: u16)
    requires
        height_fits(request@, inner_width),
    ensures
        r == dialog_height_spec(request@, inner_width),
{
    let mut h: u16 = 2;
    let desc_lines: usize = match &request.desc {
        Some(desc) => {
            let wrap_width = if inner_width >= 2 {
                (inner_width - 2) as usize
            } else {
                0
            };
            if wrap_width > 0 {
                count_wrapped_lines(desc.as_str(), wrap_width)
            } else {
                1
            }
        },
        None => 1,
    };
    h = h + desc_lines as u16;
    let has_err = match &request.error {
        Some(e) => !e.as_str().is_empty(),
        None => false,
    };
    if has_err {
        h = h + 1;
    }
    if request.cmd == PinentryCmd::GetPin {
        h = h + 4;
    } else {
        h = h + 2;
    }
    h
}

/// The width of the pane for a request on a terminal `term_cols` wide:
/// 60% of the terminal, but at least the dialog's own width (measured in a
/// 200-column area).
pub open spec fn pane_width(r: RequestView, term_cols: u16) -> int {
    max_int(term_cols * 60 / 100, dialog_width_spec(r, 200))
}

/// The width of the text inside a pane of `pane_w` columns.
pub open spec fn text_width(pane_w: int) -> u16 {
    (if pane_w >= FRAME_PAD {
        pane_w - FRAME_PAD
    } else {
        0
    }) as u16
}

/// The pane size (width, height) for a request on a terminal of
/// `term_cols` by `term_rows`: the pane width clamped to the terminal, and
/// the dialog height for the pane's text width clamped to the terminal.
pub open spec fn dialog_dimensions_spec(r: RequestView, term_cols: u16, term_rows: u16) -> (
    int,
    int,
) {
    let pw = pane_width(r, term_cols);
    (min_int(pw, term_cols as int), min_int(
        dialog_height_spec(r, text_width(pw)),
        term_rows as int,
    ))
}

/// Whether the size computation can run for `r` on a terminal `term_cols`
/// wide.
pub open spec fn dims_fit(r: RequestView, term_cols: u16) -> bool {
    width_fits(r) && height_fits(r, text_width(pane_width(r, term_cols)))
}

/// The pane size (width, height) for `request` on a terminal of
/// `term_cols` by `term_rows`: about 60% of the terminal's width, at least
/// the dialog's own width, and no larger than the terminal.
pub fn dialog_dimensions(request: &PinentryRequest, term_cols: u16, term_rows: u16) -> (r: (
    u16,
    u16,
))
    requires
        dims_fit(request@, term_cols),
    ensures
        r.0 == dialog_dimensions_spec(request@, term_cols, term_rows).0,
        r.1 == dialog_dimensions_spec(request@, term_cols, term_rows).1,
{
    let content_w = dialog_width(request, 200);
    let sixty = (term_cols as u32 * 60 / 100) as u16;
    let pane_w = if sixty < content_w {
        content_w
    } else {
        sixty
    };
    let text_w = if pane_w >= FRAME_PAD {
        pane_w - FRAME_PAD
    } else {
        0
    };
    let h = dialog_height(request, text_w);
    let pane_h = if h < term_rows {
        h
    } else {
        term_rows
    };
    let w = if pane_w < term_cols {
        pane_w
    } else {
        term_cols
    };
    (w, pane_h)
}

/// Whether `dialog_dimensions` can run for `request` on a terminal
/// `term_cols` wide without leaving `u16` (it overflows only for titles or
/// prompts tens of kilobytes long, or descriptions of tens of thousands of
/// rows).
pub fn dimensions_fit(request: &PinentryRequest, term_cols: u16) -> (r: bool)
    requires
        request@.desc matches Some(d) ==> byte_len(d) < usize::MAX,
    ensures
        r == dims_fit(request@, term_cols),
{
    if request.cmd == PinentryCmd::GetPin {
        let prompt_len = opt_len(&request.prompt, "Passphrase:") as u16;
        if prompt_len as u32 + 1 + MIN_PIN_LENGTH as u32 + FRAME_PAD as u32 > 0xffff {
            return false;
        }
    }
    let title_len = opt_len(&request.title, "Pinentry") as u16;
    if title_len as u32 + 4 + FRAME_PAD as u32 > 0xffff {
        return false;
    }
    let content_w = dialog_width(request, 200);
    let sixty = (term_cols as u32 * 60 / 100) as u16;
    let pane_w = if sixty < content_w {
        content_w
    } else {
        sixty
    };
    let text_w = if pane_w >= FRAME_PAD {
        pane_w - FRAME_PAD
    } else {
        0
    };
    let desc_lines: usize = match &request.desc {
        Some(desc) => {
            let wrap_width = if text_w >= 2 {
                (text_w - 2) as usize
            } else {
                0
            };
            if wrap_width > 0 {
                count_wrapped_lines(desc.as_str(), wrap_width)
            } else {
                1
            }
        },
        None => 1,
    };
    let mut h: u32 = 2 + (desc_lines as u16) as u32;
    let has_err = match &request.error {
        Some(e) => !e.as_str().is_empty(),
        None => false,
    };
    if has_err {
        h = h + 1;
    }
    if request.cmd == PinentryCmd::GetPin {
        h = h + 4;
    } else {
        h = h + 2;
    }
    h <= 0xffff
}

// ---------------------------------------------------------------- painting

#[verifier::external_type_specification]
#[verifier::external_body]
pub struct ExBuffer(Buffer);

#[verifier::external_type_specification]
#[verifier::external_body]
pub struct ExLine<'a>(Line<'a>);

#[verifier::external_type_specification]
#[verifier::external_body]
pub struct ExStyle(Style);

#[verifier::external_type_specification]
#[verifier::external_body]
pub struct ExTermColor(TermColor);

#[verifier::external_type_specification]
#[verifier::external_body]
#[verifier::reject_recursive_types(T)]
pub struct ExArrayVec<T, const CAP: usize>(ArrayVec<T, CAP>);

/// A rectangle of the screen.
#[derive(Debug, Clone, Copy, PartialEq, Eq, Structural)]
pub struct Area {
    pub x: u16,
    pub y: u16,
    pub width: u16,
    pub height: u16,
}

/// How tall a row of the dialog is: at least, or exactly, some number of
/// lines.
#[derive(Debug, Clone, Copy, PartialEq, Eq, Structural)]
pub enum RowHeight {
    Min(u16),
    Length(u16),
}

/// How a paragraph is aligned.
#[derive(Debug, Clone, Copy, PartialEq, Eq, Structural)]
pub enum Align {
    Left,
    Center,
}

/// A piece of text with its colour and weight.
pub struct Piece {
    pub text: String,
    pub fg: Option<Color>,
    pub bold: bool,
}

/// A piece's text and style.
pub struct PieceView {
    pub text: Seq<char>,
    pub fg: Option<Color>,
    pub bold: bool,
}

impl View for Piece {
    type V = PieceView;

    open spec fn view(&self) -> PieceView {
        PieceView { text: self.text@, fg: self.fg, bold: self.bold }
    }
}

/// The views of a sequence of pieces.
pub open spec fn pieces_view(ps: Seq<Piece>) -> Seq<PieceView> {
    ps.map_values(|p: Piece| p@)
}

/// A piece of text as a plain value.
pub open spec fn piece(text: Seq<char>, fg: Option<Color>, bold: bool) -> PieceView {
    PieceView { text, fg, bold }
}

fn new_piece(text: &str, fg: Option<Color>, bold: bool) -> (r: Piece)
    ensures
        r@ == piece(text@, fg, bold),
{
    Piece { text: string_of(text), fg, bold }
}

/// The rows of the dialog's inside, top to bottom: the description (at
/// least one line), the error if there is one, a spacer, the input and a
/// spacer for GetPin (one spacer otherwise), and the key hints.
pub open spec fn dialog_rows(r: RequestView) -> Seq<RowHeight> {
    seq![RowHeight::Min(1)] + (if has_error(r) {
        seq![RowHeight::Length(1)]
    } else {
        Seq::empty()
    }) + (if r.cmd == PinentryCmd::GetPin {
        seq![RowHeight::Length(1), RowHeight::Length(1), RowHeight::Length(1)]
    } else {
        seq![RowHeight::Length(1)]
    }) + seq![RowHeight::Length(1)]
}

/// The rows an `ArrayVec` of row heights holds.
pub uninterp spec fn row_list(v: ArrayVec<RowHeight, 6>) -> Seq<RowHeight>;

/// `ArrayVec::new`: an empty list of rows.
#[verifier::external_body]
fn rows_new() -> (r: ArrayVec<RowHeight, 6>)
    ensures
        row_list(r) == Seq::<RowHeight>::empty(),
{
    ArrayVec::new()
}

/// `ArrayVec::push`: appends a row; the crate's `push` panics when the
/// list is full, which `requires` rules out.
#[verifier::external_body]
fn rows_push(v: &mut ArrayVec<RowHeight, 6>, h: RowHeight)
    requires
        row_list(*old(v)).len() < 6,
    ensures
        row_list(*final(v)) == row_list(*old(v)).push(h),
{
    v.push(h)
}

/// `ArrayVec::as_slice`: the rows held.
#[verifier::external_body]
fn rows_slice(v: &ArrayVec<RowHeight, 6>) -> (r: &[RowHeight])
    ensures
        r@ == row_list(*v),
{
    v.as_slice()
}

/// Whether `request` has a non-empty error.
fn request_has_error(request: &PinentryRequest) -> (r: bool)
    ensures
        r == has_error(request@),
{
    match &request.error {
        Some(e) => !e.as_str().is_empty(),
        None => false,
    }
}

/// The row heights of the dialog for `request`.
pub fn dialog_row_heights(request: &PinentryRequest) -> (r: ArrayVec<RowHeight, 6>)
    ensures
        row_list(r) == dialog_rows(request@),
{
    let mut c = rows_new();
    rows_push(&mut c, RowHeight::Min(1));
    if request_has_error(request) {
        rows_push(&mut c, RowHeight::Length(1));
    }
    if request.cmd == PinentryCmd::GetPin {
        rows_push(&mut c, RowHeight::Length(1));
        rows_push(&mut c, RowHeight::Length(1));
        rows_push(&mut c, RowHeight::Length(1));
    } else {
        rows_push(&mut c, RowHeight::Length(1));
    }
    rows_push(&mut c, RowHeight::Length(1));
    assert(row_list(c) =~= dialog_rows(request@));
    c
}

/// The title line: the title, in bold cyan, with a space on each side.
pub open spec fn title_line(r: RequestView) -> Seq<PieceView> {
    seq![
        piece(" "@, None, false),
        piece(title_text(r), Some(Color::Cyan), true),
        piece(" "@, None, false),
    ]
}

/// The pieces of the title line for `request`.
pub fn title_pieces(request: &PinentryRequest) -> (r: Vec<Piece>)
    ensures
        pieces_view(r@) == title_line(request@),
{
    let title = match &request.title {
        Some(t) => t.as_str(),
        None => "Pinentry",
    };
    let mut r: Vec<Piece> = Vec::new();
    r.push(new_piece(" ", None, false));
    r.push(new_piece(title, Some(Color::Cyan), true));
    r.push(new_piece(" ", None, false));
    assert(pieces_view(r@) =~= title_line(request@));
    r
}

/// `n` copies of `c`.
pub open spec fn repeat(c: char, n: nat) -> Seq<char> {
    Seq::new(n, |i: int| c)
}

fn repeat_char(c: char, n: usize) -> (r: String)
    ensures
        r@ == repeat(c, n as nat),
{
    let mut r = String::new();
    let mut i: usize = 0;
    while i < n
        invariant
            i <= n,
            r@ == repeat(c, i as nat),
        decreases n - i,
    {
        crate::text::push_char(&mut r, c);
        i = i + 1;
        assert(r@ =~= repeat(c, i as nat));
    }
    r
}

/// The width of the PIN field in a row `row_width` wide after the prompt,
/// a space and the cursor.
pub open spec fn field_width(prompt: Seq<char>, row_width: u16) -> nat {
    let used = len16(prompt) + 2;
    if row_width >= used {
        (row_width - used) as nat
    } else {
        0
    }
}

/// The input line for a PIN of `input_len` bytes: the prompt in bold
/// white, a space, one bold white `*` per byte (as many as fit the field),
/// the cursor, and dark grey underscores for the rest of the field.
pub open spec fn input_line(prompt: Seq<char>, input_len: nat, row_width: u16) -> Seq<PieceView> {
    let fw = field_width(prompt, row_width);
    let filled: nat = if input_len < fw {
        input_len
    } else {
        fw
    };
    let remaining = (fw - filled) as nat;
    seq![
        piece(prompt, Some(Color::White), true),
        piece(" "@, None, false),
        piece(repeat('*', filled), Some(Color::White), true),
        piece("\u{258e}"@, Some(Color::White), false),
    ] + if remaining > 0 {
        seq![piece(repeat('_', remaining), Some(Color::DarkGray), false)]
    } else {
        Seq::empty()
    }
}

/// The pieces of the input line for `prompt` and a PIN `input` in a row
/// `row_width` wide.
pub fn input_pieces(prompt: &str, input: &str, row_width: u16) -> (r: Vec<Piece>)
    requires
        len16(prompt@) + 2 <= u16::MAX,
        byte_len(input@) <= usize::MAX,
    ensures
        pieces_view(r@) == input_line(prompt@, byte_len(input@), row_width),
{
    let used = prompt.len() as u16 + 2;
    let field: usize = if row_width >= used {
        (row_width - used) as usize
    } else {
        0
    };
    let n = input.len();
    let filled = if n < field {
        n
    } else {
        field
    };
    let remaining = field - filled;
    let mut r: Vec<Piece> = Vec::new();
    r.push(new_piece(prompt, Some(Color::White), true));
    r.push(new_piece(" ", None, false));
    r.push(Piece { text: repeat_char('*', filled), fg: Some(Color::White), bold: true });
    r.push(new_piece("\u{258e}", Some(Color::White), false));
    if remaining > 0 {
        r.push(Piece { text: repeat_char('_', remaining), fg: Some(Color::DarkGray), bold: false });
    }
    assert(pieces_view(r@) =~= input_line(prompt@, byte_len(input@), row_width));
    r
}

/// The key hints for a command: Enter and Esc in cyan with their actions
/// in dark grey ("Submit" and "Cancel" for GetPin, "OK" and "Cancel" for
/// Confirm, "OK" alone for Message).
pub open spec fn hints_line(cmd: PinentryCmd) -> Seq<PieceView> {
    match cmd {
        PinentryCmd::GetPin => seq![
            piece("Enter"@, Some(Color::Cyan), false),
            piece(" Submit  "@, Some(Color::DarkGray), false),
            piece("Esc"@, Some(Color::Cyan), false),
            piece(" Cancel"@, Some(Color::DarkGray), false),
        ],
        PinentryCmd::Confirm => seq![
            piece("Enter"@, Some(Color::Cyan), false),
            piece(" OK  "@, Some(Color::DarkGray), false),
            piece("Esc"@, Some(Color::Cyan), false),
            piece(" Cancel"@, Some(Color::DarkGray), false),
        ],
        PinentryCmd::Message => seq![
            piece("Enter"@, Some(Color::Cyan), false),
            piece(" OK"@, Some(Color::DarkGray), false),
        ],
    }
}

/// The pieces of the key hints line for `cmd`.
pub fn hint_pieces(cmd: PinentryCmd) -> (r: Vec<Piece>)
    ensures
        pieces_view(r@) == hints_line(cmd),
{
    let mut r: Vec<Piece> = Vec::new();
    r.push(new_piece("Enter", Some(Color::Cyan), false));
    match cmd {
        PinentryCmd::GetPin => {
            r.push(new_piece(" Submit  ", Some(Color::DarkGray), false));
            r.push(new_piece("Esc", Some(Color::Cyan), false));
            r.push(new_piece(" Cancel", Some(Color::DarkGray), false));
        },
        PinentryCmd::Confirm => {
            r.push(new_piece(" OK  ", Some(Color::DarkGray), false));
            r.push(new_piece("Esc", Some(Color::Cyan), false));
            r.push(new_piece(" Cancel", Some(Color::DarkGray), false));
        },
        PinentryCmd::Message => {
            r.push(new_piece(" OK", Some(Color::DarkGray), false));
        },
    }
    assert(pieces_view(r@) =~= hints_line(cmd));
    r
}

/// Converts a colour to ratatui's, variant for variant.
#[verifier::external_body]
fn term_color(c: Color) -> TermColor {
    match c {
        Color::Reset => TermColor::Reset, Color::Black => TermColor::Black,
        Color::Red => TermColor::Red, Color::Green => TermColor::Green,
        Color::Yellow => TermColor::Yellow, Color::Blue => TermColor::Blue,
        Color::Magenta => TermColor::Magenta, Color::Cyan => TermColor::Cyan,
        Color::Gray => TermColor::Gray, Color::DarkGray => TermColor::DarkGray,
        Color::LightRed => TermColor::LightRed, Color::LightGreen => TermColor::LightGreen,
        Color::LightYellow => TermColor::LightYellow, Color::LightBlue => TermColor::LightBlue,
        Color::LightMagenta => TermColor::LightMagenta, Color::LightCyan => TermColor::LightCyan,
        Color::White => TermColor::White, Color::Rgb(r, g, b) => TermColor::Rgb(r, g, b),
        Color::Indexed(i) => TermColor::Indexed(i),
    }
}

/// Converts one of ratatui's colours to ours, variant for variant.
#[verifier::external_body]
fn from_term_color(c: TermColor) -> Color {
    match c {
        TermColor::Reset => Color::Reset, TermColor::Black => Color::Black,
        TermColor::Red => Color::Red, TermColor::Green => Color::Green,
        TermColor::Yellow => Color::Yellow, TermColor::Blue => Color::Blue,
        TermColor::Magenta => Color::Magenta, TermColor::Cyan => Color::Cyan,
        TermColor::Gray => Color::Gray, TermColor::DarkGray => Color::DarkGray,
        TermColor::LightRed => Color::LightRed, TermColor::LightGreen => Color::LightGreen,
        TermColor::LightYellow => Color::LightYellow, TermColor::LightBlue => Color::LightBlue,
        TermColor::LightMagenta => Color::LightMagenta, TermColor::LightCyan => Color::LightCyan,
        TermColor::White => Color::White, TermColor::Rgb(r, g, b) => Color::Rgb(r, g, b),
        TermColor::Indexed(i) => Color::Indexed(i),
    }
}

/// `Style::default()`, with the foreground colour `fg` if there is one
/// (`Style::fg`) and the `BOLD` modifier added when `bold`
/// (`Style::add_modifier`).
#[verifier::external_body]
fn text_style(fg: Option<Color>, bold: bool) -> Style {
    let style = match fg {
        Some(c) => Style::default().fg(term_color(c)),
        None => Style::default(),
    };
    if bold {
        style.add_modifier(Modifier::BOLD)
    } else {
        style
    }
}

/// The pieces a line holds: the text of each span, with the foreground
/// colour and the weight its style was made from, in order.
pub uninterp spec fn line_spans(l: Line) -> Seq<PieceView>;

/// `Line::default()`: a line without spans.
#[verifier::external_body]
fn empty_line<'a>() -> (r: Line<'a>)
    ensures
        line_spans(r) == Seq::<PieceView>::empty(),
{
    Line::default()
}

/// `Line::push_span` of `Span::styled(text, style)`, the style made from
/// `fg` and `bold`: the span goes at the end of the line.
#[verifier::external_body]
fn push_span<'a>(line: &mut Line<'a>, text: &'a str, fg: Option<Color>, bold: bool)
    ensures
        line_spans(*final(line)) == line_spans(*old(line)).push(piece(text@, fg, bold)),
{
    line.push_span(Span::styled(text, text_style(fg, bold)))
}

/// The cells a buffer holds (`Buffer::content`), in order, row by row: each
/// as its symbol (`Cell::symbol`), the colours and the added modifier bits
/// of its style (`Cell::style`).
pub uninterp spec fn buffer_content(b: Buffer) -> Seq<CellView>;

/// The area a buffer was made for (`Buffer::area`).
pub uninterp spec fn buffer_rect(b: Buffer) -> Area;

/// A cell of a new buffer (`Cell::EMPTY`): a space, with `Reset` colours and
/// no modifier.
pub open spec fn empty_cell() -> CellView {
    CellView { symbol: seq![' '], fg: Some(Color::Reset), bg: Some(Color::Reset), modifiers: 0 }
}

/// `width` by `height` empty cells.
pub open spec fn empty_cells(width: u16, height: u16) -> Seq<CellView> {
    Seq::new((width * height) as nat, |i: int| empty_cell())
}

/// `Buffer::empty(Rect::new(0, 0, width, height))`: a buffer for that area
/// holding `width` by `height` empty cells (`Buffer::filled` makes
/// `area.area()` copies of `Cell::EMPTY`).
#[verifier::external_body]
fn empty_buffer(width: u16, height: u16) -> (r: Buffer)
    ensures
        buffer_content(r) == empty_cells(width, height),
        buffer_rect(r) == (Area { x: 0, y: 0, width, height }),
{
    Buffer::empty(Rect::new(0, 0, width, height))
}

/// The area a buffer covers (`Buffer::area`).
#[verifier::external_body]
fn buffer_area(buf: &Buffer) -> (r: Area)
    ensures
        r == buffer_rect(*buf),
{
    let r = buf.area;
    Area { x: r.x, y: r.y, width: r.width, height: r.height }
}

/// The symbol (`Cell::symbol`), the colours and the added modifier bits
/// (`Cell::style`) of the buffer's `i`-th cell. Indexing `content` panics
/// past its end, which `requires` rules out; the symbol is a `String`,
/// whose length std bounds by `isize::MAX`.
#[verifier::external_body]
fn buffer_cell(buf: &Buffer, i: usize) -> (r: (String, Option<Color>, Option<Color>, u16))
    requires
        i < buffer_content(*buf).len(),
    ensures
        r.0@ == buffer_content(*buf)[i as int].symbol,
        r.1 == buffer_content(*buf)[i as int].fg,
        r.2 == buffer_content(*buf)[i as int].bg,
        r.3 == buffer_content(*buf)[i as int].modifiers,
        byte_len(r.0@) <= isize::MAX,
{
    let cell = &buf.content[i];
    let style = cell.style();
    let fg = style.fg.map(from_term_color);
    (cell.symbol().to_string(), fg, style.bg.map(from_term_color), style.add_modifier.bits())
}

/// What rendering a block with rounded borders does to the cells of a
/// buffer for `rect`: the block in `area`, with the title pieces aligned
/// `title_align` on its top border, borders in `border_fg`, and the given
/// padding.
/// The title is seen only through `line_spans`, which leaves out a line's
/// own style and alignment: every line this library builds (`empty_line`,
/// then `push_span`) has neither.
pub uninterp spec fn block_painted(
    cells: Seq<CellView>,
    rect: Area,
    area: Area,
    title: Seq<PieceView>,
    title_align: Align,
    border_fg: Option<Color>,
    padding: (u16, u16, u16, u16),
) -> Seq<CellView>;

/// `a + b`, at most `u16::MAX`.
pub open spec fn sat_add(a: u16, b: u16) -> u16 {
    if a + b <= u16::MAX {
        (a + b) as u16
    } else {
        u16::MAX
    }
}

/// `a - b`, at least 0.
pub open spec fn sat_sub(a: u16, b: u16) -> u16 {
    if a >= b {
        (a - b) as u16
    } else {
        0
    }
}

/// The smaller of two `u16` values.
pub open spec fn min16(a: u16, b: u16) -> u16 {
    if a <= b {
        a
    } else {
        b
    }
}

/// The area inside a bordered block in `area` with padding (left, right,
/// top, bottom), as `Block::inner` computes it for `Rect::new` of the area:
/// one cell of border on each side, then the padding, each step saturating.
pub open spec fn block_inner(area: Area, padding: (u16, u16, u16, u16)) -> Area {
    let w0 = (sat_add(area.x, area.width) - area.x) as u16;
    let h0 = (sat_add(area.y, area.height) - area.y) as u16;
    let right = sat_add(area.x, w0);
    let bottom = sat_add(area.y, h0);
    let x1 = min16(sat_add(area.x, 1), right);
    let y1 = min16(sat_add(area.y, 1), bottom);
    let w1 = sat_sub(sat_sub(w0, 1), 1);
    let h1 = sat_sub(sat_sub(h0, 1), 1);
    Area {
        x: sat_add(x1, padding.0),
        y: sat_add(y1, padding.2),
        width: sat_sub(w1, sat_add(padding.0, padding.1)),
        height: sat_sub(h1, sat_add(padding.2, padding.3)),
    }
}

/// Renders a block with rounded borders in colour `border_fg`, the title
/// line aligned `title_align` on its top border and the given padding
/// (left, right, top, bottom) into `area` of the buffer (`Block::bordered`,
/// `Widget::render`), and gives the area inside (`Block::inner`).
/// Rendering writes cells in place and keeps the buffer's size and area.
#[verifier::external_body]
fn render_rounded_block(
    buf: &mut Buffer,
    area: Area,
    title: Line<'_>,
    title_align: Align,
    border_fg: Option<Color>,
    padding: (u16, u16, u16, u16),
) -> (r: Area)
    ensures
        buffer_content(*final(buf)) == block_painted(
            buffer_content(*old(buf)),
            buffer_rect(*old(buf)),
            area,
            line_spans(title),
            title_align,
            border_fg,
            padding,
        ),
        buffer_content(*final(buf)).len() == buffer_content(*old(buf)).len(),
        buffer_rect(*final(buf)) == buffer_rect(*old(buf)),
        r == block_inner(area, padding),
{
    let rect = Rect::new(area.x, area.y, area.width, area.height);
    let align = match title_align { Align::Left => Alignment::Left, Align::Center => Alignment::Center };
    let block = Block::bordered().border_type(BorderType::Rounded).title(title)
        .title_alignment(align).border_style(text_style(border_fg, false))
        .padding(Padding::new(padding.0, padding.1, padding.2, padding.3));
    let inner = block.inner(rect);
    block.render(rect, buf);
    Area { x: inner.x, y: inner.y, width: inner.width, height: inner.height }
}

/// How `Layout::vertical` splits `area` into rows of the given heights.
pub uninterp spec fn vertical_split(area: Area, rows: Seq<RowHeight>) -> Seq<Area>;

/// Splits `area` into rows of the given heights, top to bottom
/// (`Layout::vertical(..).split`); the layout yields one area per row.
#[verifier::external_body]
fn split_rows(area: Area, rows: &[RowHeight]) -> (r: Vec<Area>)
    ensures
        r@ == vertical_split(area, rows@),
        r@.len() == rows@.len(),
{
    let cs: Vec<Constraint> = rows.iter().map(|h| match *h {
        RowHeight::Min(n) => Constraint::Min(n), RowHeight::Length(n) => Constraint::Length(n),
    }).collect();
    let rects = Layout::vertical(cs).split(Rect::new(area.x, area.y, area.width, area.height));
    rects.iter().map(|r| Area { x: r.x, y: r.y, width: r.width, height: r.height }).collect()
}

/// What rendering `text` as a paragraph does to the cells of a buffer for
/// `rect`: in `area`, one line per line of the text, in colour `fg`,
/// aligned `align`, word-wrapped with trimming when `wrap`.
pub uninterp spec fn text_painted(
    cells: Seq<CellView>,
    rect: Area,
    area: Area,
    text: Seq<char>,
    fg: Option<Color>,
    align: Align,
    wrap: bool,
) -> Seq<CellView>;

/// Renders `text` as a paragraph (`Paragraph::new`, one line per line of
/// the text) in colour `fg`, aligned `align`, word-wrapped with trimming
/// when `wrap` (`Wrap { trim: true }`), into `area` of the buffer.
/// Rendering writes cells in place and keeps the buffer's size and area.
#[verifier::external_body]
fn render_text(buf: &mut Buffer, area: Area, text: &str, fg: Option<Color>, align: Align, wrap: bool)
    ensures
        buffer_content(*final(buf)) == text_painted(
            buffer_content(*old(buf)),
            buffer_rect(*old(buf)),
            area,
            text@,
            fg,
            align,
            wrap,
        ),
        buffer_content(*final(buf)).len() == buffer_content(*old(buf)).len(),
        buffer_rect(*final(buf)) == buffer_rect(*old(buf)),
{
    let alignment = match align { Align::Left => Alignment::Left, Align::Center => Alignment::Center };
    let p = Paragraph::new(text).style(text_style(fg, false)).alignment(alignment);
    let p = if wrap { p.wrap(Wrap { trim: true }) } else { p };
    p.render(Rect::new(area.x, area.y, area.width, area.height), buf);
}

/// What rendering one line of pieces as a paragraph does to the cells of a
/// buffer for `rect`: in `area`, aligned `align`.
/// The line is seen only through `line_spans`, which leaves out a line's
/// own style and alignment: every line this library builds (`empty_line`,
/// then `push_span`) has neither.
pub uninterp spec fn line_painted(
    cells: Seq<CellView>,
    rect: Area,
    area: Area,
    pieces: Seq<PieceView>,
    align: Align,
) -> Seq<CellView>;

/// Renders one line as a paragraph (`Paragraph::new`) aligned `align` into
/// `area` of the buffer. Rendering writes cells in place and keeps the
/// buffer's size and area.
#[verifier::external_body]
fn render_line(buf: &mut Buffer, area: Area, line: Line<'_>, align: Align)
    ensures
        buffer_content(*final(buf)) == line_painted(
            buffer_content(*old(buf)),
            buffer_rect(*old(buf)),
            area,
            line_spans(line),
            align,
        ),
        buffer_content(*final(buf)).len() == buffer_content(*old(buf)).len(),
        buffer_rect(*final(buf)) == buffer_rect(*old(buf)),
{
    let alignment = match align { Align::Left => Alignment::Left, Align::Center => Alignment::Center };
    Paragraph::new(line).alignment(alignment).render(Rect::new(area.x, area.y, area.width, area.height), buf);
}

/// The pieces as one line of styled spans.
fn line_of<'a>(pieces: &'a [Piece]) -> (r: Line<'a>)
    ensures
        line_spans(r) == pieces_view(pieces@),
{
    let mut line = empty_line();
    let mut i: usize = 0;
    while i < pieces.len()
        invariant
            i <= pieces.len(),
            line_spans(line) == pieces_view(pieces@).take(i as int),
        decreases pieces.len() - i,
    {
        let p: &'a Piece = &pieces[i];
        push_span(&mut line, p.text.as_str(), p.fg, p.bold);
        proof {
            assert(pieces_view(pieces@)[i as int] == piece(p.text@, p.fg, p.bold));
            assert(pieces_view(pieces@).take(i + 1) =~= pieces_view(pieces@).take(i as int).push(
                piece(p.text@, p.fg, p.bold),
            ));
        }
        i = i + 1;
    }
    assert(pieces_view(pieces@).take(pieces.len() as int) =~= pieces_view(pieces@));
    line
}

/// One paragraph to paint.
pub enum PaintOp {
    /// A text (one line per line of it) in colour `fg`, aligned `align`,
    /// word-wrapped when `wrap`.
    Text { area: Area, text: String, fg: Option<Color>, align: Align, wrap: bool },
    /// One line of styled pieces, aligned `align`.
    Line { area: Area, pieces: Vec<Piece>, align: Align },
}

/// A paint operation as plain values.
pub enum OpView {
    Text { area: Area, text: Seq<char>, fg: Option<Color>, align: Align, wrap: bool },
    Line { area: Area, pieces: Seq<PieceView>, align: Align },
}

impl View for PaintOp {
    type V = OpView;

    open spec fn view(&self) -> OpView {
        match self {
            PaintOp::Text { area, text, fg, align, wrap } => OpView::Text {
                area: *area,
                text: text@,
                fg: *fg,
                align: *align,
                wrap: *wrap,
            },
            PaintOp::Line { area, pieces, align } => OpView::Line {
                area: *area,
                pieces: pieces_view(pieces@),
                align: *align,
            },
        }
    }
}

/// The views of a sequence of paint operations.
pub open spec fn ops_view(ops: Seq<PaintOp>) -> Seq<OpView> {
    ops.map_values(|o: PaintOp| o@)
}

/// What the dialog paints in the rows `rows` (laid out by `dialog_rows`),
/// for a PIN of `input_len` bytes, in order: the description (grey,
/// centred, wrapped) in the first row if there is one; the error (red,
/// centred) in the next if there is one; after a spacer, the input line
/// (left-aligned) and, after another spacer, the key hints (centred) for
/// GetPin, or the key hints alone otherwise.
pub open spec fn dialog_ops(r: RequestView, input_len: nat, rows: Seq<Area>) -> Seq<OpView> {
    let desc_ops = match r.desc {
        Some(d) => seq![
            OpView::Text {
                area: rows[0],
                text: d,
                fg: Some(Color::Gray),
                align: Align::Center,
                wrap: true,
            },
        ],
        None => Seq::empty(),
    };
    let error_ops = if has_error(r) {
        seq![
            OpView::Text {
                area: rows[1],
                text: r.error.unwrap(),
                fg: Some(Color::Red),
                align: Align::Center,
                wrap: false,
            },
        ]
    } else {
        Seq::empty()
    };
    let row: int = if has_error(r) {
        3
    } else {
        2
    };
    let rest = if r.cmd == PinentryCmd::GetPin {
        seq![
            OpView::Line {
                area: rows[row],
                pieces: input_line(prompt_text(r), input_len, rows[row].width),
                align: Align::Left,
            },
            OpView::Line { area: rows[row + 2], pieces: hints_line(r.cmd), align: Align::Center },
        ]
    } else {
        seq![OpView::Line { area: rows[row], pieces: hints_line(r.cmd), align: Align::Center }]
    };
    desc_ops + error_ops + rest
}

/// The paragraphs the dialog for `request` paints in the rows `rows`, with
/// a PIN of `input` typed so far.
pub fn dialog_paint_ops(request: &PinentryRequest, input: &str, rows: &[Area]) -> (r: Vec<PaintOp>)
    requires
        rows@.len() == dialog_rows(request@).len(),
        request@.cmd == PinentryCmd::GetPin ==> len16(prompt_text(request@)) + 2 <= u16::MAX,
        byte_len(input@) <= usize::MAX,
    ensures
        ops_view(r@) == dialog_ops(request@, byte_len(input@), rows@),
{
    let mut ops: Vec<PaintOp> = Vec::new();
    if let Some(desc) = &request.desc {
        ops.push(
            PaintOp::Text {
                area: rows[0],
                text: desc.clone(),
                fg: Some(Color::Gray),
                align: Align::Center,
                wrap: true,
            },
        );
    }
    let mut row: usize = 1;
    let has_error = request_has_error(request);
    if has_error {
        if let Some(error) = &request.error {
            ops.push(
                PaintOp::Text {
                    area: rows[row],
                    text: error.clone(),
                    fg: Some(Color::Red),
                    align: Align::Center,
                    wrap: false,
                },
            );
        }
        row = row + 1;
    }
    row = row + 1;
    if request.cmd == PinentryCmd::GetPin {
        let prompt = match &request.prompt {
            Some(p) => p.as_str(),
            None => "Passphrase:",
        };
        let pieces = input_pieces(prompt, input, rows[row].width);
        ops.push(PaintOp::Line { area: rows[row], pieces, align: Align::Left });
        row = row + 2;
        ops.push(PaintOp::Line { area: rows[row], pieces: hint_pieces(request.cmd), align: Align::Center });
    } else {
        ops.push(PaintOp::Line { area: rows[row], pieces: hint_pieces(request.cmd), align: Align::Center });
    }
    assert(ops_view(ops@) =~= dialog_ops(request@, byte_len(input@), rows@));
    ops
}

/// What painting one operation does to the cells of a buffer for `rect`.
pub open spec fn paint_one(cells: Seq<CellView>, rect: Area, op: OpView) -> Seq<CellView> {
    match op {
        OpView::Text { area, text, fg, align, wrap } => text_painted(
            cells,
            rect,
            area,
            text,
            fg,
            align,
            wrap,
        ),
        OpView::Line { area, pieces, align } => line_painted(cells, rect, area, pieces, align),
    }
}

/// What painting the operations, one after the other, does to the cells of
/// a buffer for `rect`.
pub open spec fn paint_all(cells: Seq<CellView>, rect: Area, ops: Seq<OpView>) -> Seq<CellView>
    decreases ops.len(),
{
    if ops.len() == 0 {
        cells
    } else {
        paint_one(paint_all(cells, rect, ops.drop_last()), rect, ops.last())
    }
}

/// The cells of a buffer for `rect` after the dialog for `r` (with a PIN of
/// `input_len` bytes) is painted over them: the frame with rounded dark
/// grey borders, padded one column on each side, with the title line
/// centred on top, then the paragraphs of `dialog_ops` in the rows
/// `dialog_rows` lays out inside the frame.
pub open spec fn dialog_painting(cells: Seq<CellView>, rect: Area, r: RequestView, input_len: nat) -> Seq<CellView> {
    let framed = block_painted(
        cells,
        rect,
        rect,
        title_line(r),
        Align::Center,
        Some(Color::DarkGray),
        (1, 1, 0, 0),
    );
    let rows = vertical_split(block_inner(rect, (1, 1, 0, 0)), dialog_rows(r));
    paint_all(framed, rect, dialog_ops(r, input_len, rows))
}

/// A buffer cell as the back end keeps it once drawn.
pub open spec fn drawn_from(c: CellView) -> CellView {
    drawn_cell(c.symbol, c.fg, c.bg, c.modifiers)
}

/// The grid of `width` by `height` cells that shows the dialog for `r`
/// (with a PIN of `input_len` bytes): the dialog painted over a new buffer
/// of that size, each cell as the back end draws it.
pub open spec fn dialog_grid(width: u16, height: u16, r: RequestView, input_len: nat) -> Seq<
    Seq<CellView>,
> {
    let c = dialog_painting(
        empty_cells(width, height),
        Area { x: 0, y: 0, width, height },
        r,
        input_len,
    );
    Seq::new(height as nat, |y: int| Seq::new(width as nat, |x: int| drawn_from(c[y * width + x])))
}

/// Paints the operations, in order, into the buffer.
fn paint(buf: &mut Buffer, ops: &[PaintOp])
    ensures
        buffer_content(*final(buf)) == paint_all(
            buffer_content(*old(buf)),
            buffer_rect(*old(buf)),
            ops_view(ops@),
        ),
        buffer_content(*final(buf)).len() == buffer_content(*old(buf)).len(),
        buffer_rect(*final(buf)) == buffer_rect(*old(buf)),
{
    let ghost c0 = buffer_content(*buf);
    let ghost rect = buffer_rect(*buf);
    let mut i: usize = 0;
    assert(ops_view(ops@).take(0) =~= Seq::<OpView>::empty());
    while i < ops.len()
        invariant
            i <= ops.len(),
            buffer_content(*buf) == paint_all(c0, rect, ops_view(ops@).take(i as int)),
            buffer_content(*buf).len() == c0.len(),
            buffer_rect(*buf) == rect,
            c0 == buffer_content(*old(buf)),
            rect == buffer_rect(*old(buf)),
        decreases ops.len() - i,
    {
        let ghost before = buffer_content(*buf);
        match &ops[i] {
            PaintOp::Text { area, text, fg, align, wrap } => {
                render_text(buf, *area, text.as_str(), *fg, *align, *wrap);
            },
            PaintOp::Line { area, pieces, align } => {
                render_line(buf, *area, line_of(pieces.as_slice()), *align);
            },
        }
        proof {
            let t = ops_view(ops@).take(i + 1);
            assert(t.drop_last() =~= ops_view(ops@).take(i as int));
            assert(t.last() == ops@[i as int]@);
            assert(buffer_content(*buf) == paint_one(before, rect, ops@[i as int]@));
        }
        i = i + 1;
    }
    assert(ops_view(ops@).take(ops.len() as int) =~= ops_view(ops@));
}

/// Renders the dialog for `request`, with a PIN of `input` typed so far,
/// over the whole buffer: a frame with rounded dark grey borders, padded
/// one column on each side, with the title line (`title_pieces`) centred on
/// top; inside it the rows of `dialog_rows`, and in them the paragraphs of
/// `dialog_paint_ops`.
pub fn render_to_buffer(buf: &mut Buffer, request: &PinentryRequest, input: &str)
    requires
        request@.cmd == PinentryCmd::GetPin ==> len16(prompt_text(request@)) + 2 <= u16::MAX,
        byte_len(input@) <= usize::MAX,
    ensures
        buffer_content(*final(buf)) == dialog_painting(
            buffer_content(*old(buf)),
            buffer_rect(*old(buf)),
            request@,
            byte_len(input@),
        ),
        buffer_content(*final(buf)).len() == buffer_content(*old(buf)).len(),
        buffer_rect(*final(buf)) == buffer_rect(*old(buf)),
{
    let dialog = buffer_area(buf);
    let title = title_pieces(request);
    let inner = render_rounded_block(
        buf,
        dialog,
        line_of(title.as_slice()),
        Align::Center,
        Some(Color::DarkGray),
        (1, 1, 0, 0),
    );
    let heights = dialog_row_heights(request);
    let rows = split_rows(inner, rows_slice(&heights));
    let ops = dialog_paint_ops(request, input, rows.as_slice());
    paint(buf, ops.as_slice());
}

proof fn lemma_cell_index(y: int, x: int, w: int, i: int)
    requires
        w > 0,
        0 <= x < w,
        0 <= y,
        0 <= i,
    ensures
        (y * w + x == i) <==> (y == i / w && x == i % w),
{
    vstd::arithmetic::div_mod::lemma_fundamental_div_mod(i, w);
    vstd::arithmetic::mul::lemma_mul_is_commutative(w, i / w);
    if y * w + x == i {
        vstd::arithmetic::div_mod::lemma_fundamental_div_mod_converse(i, w, y, x);
    }
}

/// Renders the dialog for `request` (with a PIN of `input` typed so far)
/// on the back end: the dialog fills the back end's grid, and every cell of
/// the grid is drawn, so the grid becomes `dialog_grid` of its size.
pub fn render(backend: &mut AnsiBackend, request: &PinentryRequest, input: &str)
    requires
        old(backend).wf(),
        request@.cmd == PinentryCmd::GetPin ==> len16(prompt_text(request@)) + 2 <= u16::MAX,
        byte_len(input@) <= usize::MAX,
    ensures
        final(backend).wf(),
        final(backend)@.cells == dialog_grid(
            old(backend)@.width,
            old(backend)@.height,
            request@,
            byte_len(input@),
        ),
        final(backend)@.width == old(backend)@.width,
        final(backend)@.height == old(backend)@.height,
        final(backend)@.cursor == old(backend)@.cursor,
        final(backend)@.cursor_visible == old(backend)@.cursor_visible,
{
    let (width, height) = backend.size();
    proof {
        old(backend).lemma_wf_shape();
    }
    let mut buf = empty_buffer(width, height);
    render_to_buffer(&mut buf, request, input);
    let ghost c = buffer_content(buf);
    let ghost old_cells = backend@.cells;
    proof {
        let ww = width as int;
        let hh = height as int;
        assert(ww * hh <= 0xffff * 0xffff) by (nonlinear_arith)
            requires
                0 <= ww <= 0xffff,
                0 <= hh <= 0xffff,
        ;
        assert(c == dialog_painting(
            empty_cells(width, height),
            Area { x: 0, y: 0, width, height },
            request@,
            byte_len(input@),
        ));
    }
    let n: usize = width as usize * height as usize;
    let w = width as usize;
    let mut i: usize = 0;
    while i < n
        invariant
            backend.wf(),
            backend@.width == old(backend)@.width,
            backend@.height == old(backend)@.height,
            backend@.cursor == old(backend)@.cursor,
            backend@.cursor_visible == old(backend)@.cursor_visible,
            width == old(backend)@.width,
            height == old(backend)@.height,
            buffer_content(buf) == c,
            c.len() == n,
            n == width * height,
            w == width,
            i <= n,
            backend@.cells.len() == height,
            forall|yy: int| 0 <= yy < height ==> (#[trigger] backend@.cells[yy]).len() == width,
            old_cells.len() == height,
            forall|yy: int| 0 <= yy < height ==> (#[trigger] old_cells[yy]).len() == width,
            forall|yy: int, xx: int|
                0 <= yy < height && 0 <= xx < width ==> (#[trigger] backend@.cells[yy][xx]) == if yy
                    * width + xx < i {
                    drawn_from(c[yy * width + xx])
                } else {
                    old_cells[yy][xx]
                },
        decreases n - i,
    {
        let (symbol, fg, bg, modifiers) = buffer_cell(&buf, i);
        proof {
            let ii = i as int;
            let ww = w as int;
            let hh = height as int;
            assert(ww > 0 && ii / ww < hh && ii % ww < ww) by (nonlinear_arith)
                requires
                    0 <= ii < ww * hh,
                    ww >= 0,
                    hh >= 0,
            ;
        }
        let x = (i % w) as u16;
        let y = (i / w) as u16;
        let ghost before = backend@.cells;
        backend.draw_cell(x, y, symbol.as_str(), fg, bg, modifiers);
        proof {
            assert forall|yy: int, xx: int|
                0 <= yy < height && 0 <= xx < width implies (#[trigger] backend@.cells[yy][xx])
                    == if yy * width + xx < i + 1 {
                    drawn_from(c[yy * width + xx])
                } else {
                    old_cells[yy][xx]
                } by {
                lemma_cell_index(yy, xx, w as int, i as int);
                if yy == y && xx == x {
                    assert(yy * width + xx == i);
                } else {
                    assert(yy * width + xx != i);
                    assert(backend@.cells[yy][xx] == before[yy][xx]);
                }
            }
        }
        i = i + 1;
    }
    proof {
        let g = dialog_grid(width, height, request@, byte_len(input@));
        assert forall|yy: int| 0 <= yy < height implies #[trigger] backend@.cells[yy] =~= g[yy] by {
            assert forall|xx: int| 0 <= xx < width implies backend@.cells[yy][xx] == g[yy][xx] by {
                let ww = width as int;
                let hh = height as int;
                assert(yy * ww + xx < hh * ww) by (nonlinear_arith)
                    requires
                        0 <= yy < hh,
                        0 <= xx < ww,
                ;
                assert(hh * ww == ww * hh) by (nonlinear_arith);
            }
        }
        assert(backend@.cells =~= g);
    }
}

// ---------------------------------------------------------------- laws

/// The dialog never shows the PIN, only its length: the masked piece is
/// made of `*` alone, one per byte typed as far as the field reaches, and
/// two PINs of the same length paint the same dialog.
pub proof fn law_pin_is_masked(r: RequestView, a: Seq<char>, b: Seq<char>, rows: Seq<Area>, prompt: Seq<char>, width: u16)
    requires
        byte_len(a) == byte_len(b),
    ensures
        dialog_ops(r, byte_len(a), rows) == dialog_ops(r, byte_len(b), rows),
        forall|i: int|
            0 <= i < input_line(prompt, byte_len(a), width)[2].text.len() ==> #[trigger] input_line(
                prompt,
                byte_len(a),
                width,
            )[2].text[i] == '*',
        input_line(prompt, byte_len(a), width)[2].text.len() == if byte_len(a) < field_width(
            prompt,
            width,
        ) {
            byte_len(a)
        } else {
            field_width(prompt, width)
        },
{
}

/// An error adds exactly one row to the dialog: two requests that differ
/// only in that one has a non-empty error and the other none have heights
/// one apart.
pub proof fn law_error_row_adds_one(without: RequestView, with: RequestView, inner_width: u16)
    requires
        without.error is None,
        with.error matches Some(e) && e.len() > 0,
        with.cmd == without.cmd,
        with.desc == without.desc,
    ensures
        dialog_height_spec(with, inner_width) == dialog_height_spec(without, inner_width) + 1,
{
}

/// The dialog is never wider than the area it is sized for, and for GetPin
/// it is at least as wide as the prompt, a space and a forty-column PIN
/// field with the frame, wherever the area allows.
pub proof fn law_dialog_width_bounds(r: RequestView, area_width: u16)
    ensures
        dialog_width_spec(r, area_width) <= area_width,
        r.cmd == PinentryCmd::GetPin && len16(prompt_text(r)) + 1 + MIN_PIN_LENGTH + FRAME_PAD
            <= area_width ==> dialog_width_spec(r, area_width) >= len16(prompt_text(r)) + 1
            + MIN_PIN_LENGTH + FRAME_PAD,
{
}

/// Wrapped text always takes at least one row.
pub proof fn law_wrapped_lines_at_least_one(s: Seq<char>, width: nat)
    ensures
        wrapped_lines(s, width) >= 1,
{
}

/// The pane never exceeds the terminal.
pub proof fn law_pane_within_terminal(r: RequestView, term_cols: u16, term_rows: u16)
    ensures
        dialog_dimensions_spec(r, term_cols, term_rows).0 <= term_cols,
        dialog_dimensions_spec(r, term_cols, term_rows).1 <= term_rows,
{
}

proof fn lemma_wrap_rows_positive(lens: Seq<nat>, width: nat)
    requires
        width > 0,
    ensures
        wrap_state(lens, width).0 >= 1,
    decreases lens.len(),
{
    if lens.len() > 0 {
        lemma_wrap_rows_positive(lens.drop_last(), width);
        let st = wrap_state(lens.drop_last(), width);
        let c1: int = if st.1 != 0 && st.1 + 1 + lens.last() <= width {
            (st.1 + 1 + lens.last()) as int
        } else {
            lens.last() as int
        };
        if c1 > width {
            let x = c1 - 1;
            let w = width as int;
            assert(x / w >= 0) by (nonlinear_arith)
                requires
                    x >= 0,
                    w >= 1,
            ;
        }
    }
}

proof fn lemma_total_at_least_count(ps: Seq<Seq<char>>, width: nat)
    requires
        width > 0,
    ensures
        total_lines(ps, width) >= ps.len(),
    decreases ps.len(),
{
    if ps.len() > 0 {
        lemma_total_at_least_count(ps.drop_last(), width);
        lemma_wrap_rows_positive(word_lens(words(ps.last())), width);
    }
}

/// Every line of a text takes at least one row: a text with `k` line
/// breaks wraps to at least `k + 1` rows.
pub proof fn law_each_line_takes_a_row(s: Seq<char>, width: nat)
    requires
        width > 0,
        s.len() > 0,
    ensures
        wrapped_lines(s, width) >= lines_of(s).len(),
{
    lemma_total_at_least_count(lines_of(s), width);
}

/// Whatever the command, a description is painted first, grey, centred
/// and wrapped, in the first row; a non-empty error is painted red and
/// centred in the second row, right after it; the key hints for the
/// command are painted last, centred.
pub proof fn law_description_and_hints_are_painted(r: RequestView, input_len: nat, rows: Seq<Area>)
    ensures
        r.desc matches Some(d) ==> dialog_ops(r, input_len, rows)[0] == (OpView::Text {
            area: rows[0],
            text: d,
            fg: Some(Color::Gray),
            align: Align::Center,
            wrap: true,
        }),
        r.desc is Some && has_error(r) ==> dialog_ops(r, input_len, rows)[1] == (OpView::Text {
            area: rows[1],
            text: r.error.unwrap(),
            fg: Some(Color::Red),
            align: Align::Center,
            wrap: false,
        }),
        dialog_ops(r, input_len, rows).len() > 0,
        dialog_ops(r, input_len, rows).last() matches OpView::Line { pieces, align, .. } && pieces
            == hints_line(r.cmd) && align == Align::Center,
{
}

/// The description takes the same rows whatever the command: where there
/// is room it takes its word-wrapped rows, at least one per line of it.
/// The command changes only the rows below it: four (spacer, input,
/// spacer, hints) for GetPin, two (spacer, hints) otherwise.
pub proof fn law_description_rows_ignore_command(r: RequestView, cmd: PinentryCmd, inner_width: u16)
    requires
        inner_width > 2,
        r.desc matches Some(d) ==> wrapped_lines(d, (inner_width - 2) as nat) <= u16::MAX,
    ensures
        desc_rows(r, inner_width) == desc_rows(RequestView { cmd, ..r }, inner_width),
        r.desc matches Some(d) ==> desc_rows(r, inner_width) == wrapped_lines(
            d,
            (inner_width - 2) as nat,
        ),
        r.desc matches Some(d) ==> dialog_height_spec(r, inner_width) == 2 + wrapped_lines(
            d,
            (inner_width - 2) as nat,
        ) + (if has_error(r) {
            1int
        } else {
            0
        }) + (if r.cmd == PinentryCmd::GetPin {
            4int
        } else {
            2
        }),
        r.desc matches Some(d) ==> dialog_height_spec(r, inner_width) >= lines_of(d).len() + 4,
{
    if let Some(d) = r.desc {
        if d.len() > 0 {
            law_each_line_takes_a_row(d, (inner_width - 2) as nat);
        } else {
            assert(lines_of(d) == seq![Seq::<char>::empty()]);
        }
    }
}

} // verus!
