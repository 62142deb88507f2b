//! Wiping secrets from memory with the `zeroize` crate.

use vstd::prelude::*;

verus! {

/// Calls `zeroize::Zeroize::zeroize` on a string: its bytes are
/// overwritten with zeros and the string is left empty (the crate's impl
/// for `String` zeroizes the underlying `Vec<u8>`, which ends with
/// `clear()`).
#[verifier::external_body]
pub(crate) fn zeroize_string(s: &mut String)
    ensures
        final(s)@ == Seq::<char>::empty(),
{
    zeroize::Zeroize::zeroize(s)
}

} // verus!
