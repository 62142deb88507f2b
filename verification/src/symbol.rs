//! Cell symbols: at most four bytes of text, held in an
//! `arrayvec::ArrayString` so that a cell needs no heap allocation.

use arrayvec::ArrayString;
use vstd::prelude::*;

use crate::text::{byte_len, char_bytes};

verus! {

/// The most bytes a cell's symbol holds: one Unicode scalar in UTF-8.
pub const SYMBOL_CAP: usize = 4;

#[verifier::external_type_specification]
#[verifier::external_body]
pub struct ExArrayString<const CAP: usize>(ArrayString<CAP>);

/// The characters an `ArrayString<4>` holds.
pub uninterp spec fn symbol_text(s: ArrayString<4>) -> Seq<char>;

/// `ArrayString::new`: an empty string.
#[verifier::external_body]
pub(crate) fn symbol_new() -> (r: ArrayString<4>)
    ensures
        symbol_text(r) == Seq::<char>::empty(),
{
    ArrayString::new()
}

/// `ArrayString::push`: appends `c`. The crate's `push` unwraps
/// `try_push`, which fails (and so `push` panics) when the character's
/// UTF-8 bytes do not fit in the remaining capacity; `requires` rules that
/// out.
#[verifier::external_body]
pub(crate) fn symbol_push(s: &mut ArrayString<4>, c: char)
    requires
        byte_len(symbol_text(*old(s))) + char_bytes(c) <= SYMBOL_CAP,
    ensures
        symbol_text(*final(s)) == symbol_text(*old(s)).push(c),
{
    s.push(c)
}

/// `ArrayString::clear`: the string becomes empty.
#[verifier::external_body]
pub(crate) fn symbol_clear(s: &mut ArrayString<4>)
    ensures
        symbol_text(*final(s)) == Seq::<char>::empty(),
{
    s.clear()
}

/// `ArrayString::try_push_str`: appends `t` when its bytes fit in the
/// remaining capacity (`t.len() <= capacity - len`) and reports success;
/// otherwise the string is left as it was and the error is reported.
#[verifier::external_body]
pub(crate) fn symbol_try_push_str(s: &mut ArrayString<4>, t: &str) -> (ok: bool)
    requires
        byte_len(symbol_text(*old(s))) <= SYMBOL_CAP,
    ensures
        ok == (byte_len(t@) <= SYMBOL_CAP - byte_len(symbol_text(*old(s)))),
        ok ==> symbol_text(*final(s)) == symbol_text(*old(s)) + t@,
        !ok ==> symbol_text(*final(s)) == symbol_text(*old(s)),
{
    s.try_push_str(t).is_ok()
}

/// `ArrayString::as_str`: the text the string holds.
#[verifier::external_body]
pub(crate) fn symbol_str(s: &ArrayString<4>) -> (r: &str)
    ensures
        r@ == symbol_text(*s),
{
    s.as_str()
}

} // verus!
