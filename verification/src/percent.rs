//! Assuan percent encoding: `%XX` escapes in parameters and data lines.

use vstd::prelude::*;
use vstd::utf8::*;

use crate::convert::{bytes_into_text, bytes_to_text};
use crate::text::{chars_of, lemma_encode_ascii_char, lemma_encode_utf8_concat, push_char};

verus! {

broadcast use vstd::utf8::group_utf8_lib;

/// The value of the hexadecimal digit `b` (either case).
pub open spec fn hex_value(b: u8) -> Option<u8> {
    if 0x30 <= b <= 0x39 {
        Some((b - 0x30) as u8)
    } else if 0x61 <= b <= 0x66 {
        Some((b - 0x61 + 10) as u8)
    } else if 0x41 <= b <= 0x46 {
        Some((b - 0x41 + 10) as u8)
    } else {
        None
    }
}

/// The byte that the escape `%h1h2` stands for: defined only where both
/// `h1` and `h2` are hex digits.
pub open spec fn hex_pair(h1: u8, h2: u8) -> Option<u8> {
    match (hex_value(h1), hex_value(h2)) {
        (Some(a), Some(b)) => Some((a * 16 + b) as u8),
        _ => None,
    }
}

/// Percent-decoding of a byte string. `%` and two hex digits become the
/// byte they spell; any other `%` sequence, and a `%` with fewer
/// than two bytes after it, is kept as it stands.
pub open spec fn pct_decode_bytes(s: Seq<u8>) -> Seq<u8>
    decreases s.len(),
{
    if s.len() == 0 {
        seq![]
    } else if s[0] == 0x25 {
        if s.len() >= 3 {
            match hex_pair(s[1], s[2]) {
                Some(v) => seq![v] + pct_decode_bytes(s.skip(3)),
                None => seq![s[0], s[1], s[2]] + pct_decode_bytes(s.skip(3)),
            }
        } else {
            s
        }
    } else {
        seq![s[0]] + pct_decode_bytes(s.skip(1))
    }
}

/// The text that the Assuan parameter `param` stands for: its UTF-8 bytes
/// percent-decoded, read back as UTF-8 (lossily where they are not valid).
pub open spec fn pct_decode_text(param: Seq<char>) -> Seq<char> {
    bytes_to_text(pct_decode_bytes(encode_utf8(param)))
}

fn hex_digit(b: u8) -> (r: Option<u8>)
    ensures
        r == hex_value(b),
{
    if 0x30 <= b && b <= 0x39 {
        Some(b - 0x30)
    } else if 0x61 <= b && b <= 0x66 {
        Some(b - 0x61 + 10)
    } else if 0x41 <= b && b <= 0x46 {
        Some(b - 0x41 + 10)
    } else {
        None
    }
}

fn parse_hex_pair(h1: u8, h2: u8) -> (r: Option<u8>)
    ensures
        r == hex_pair(h1, h2),
{
    match (hex_digit(h1), hex_digit(h2)) {
        (Some(a), Some(b)) => Some(a * 16 + b),
        _ => None,
    }
}

/// Percent-decodes the bytes `s` (see `pct_decode_bytes`).
pub fn percent_decode_bytes(s: &[u8]) -> (r: Vec<u8>)
    ensures
        r@ == pct_decode_bytes(s@),
{
    let mut out: Vec<u8> = Vec::new();
    let mut i: usize = 0;
    assert(s@.skip(0) =~= s@);
    assert(out@ + pct_decode_bytes(s@) =~= pct_decode_bytes(s@));
    while i < s.len()
        invariant
            i <= s.len(),
            pct_decode_bytes(s@) == out@ + pct_decode_bytes(s@.skip(i as int)),
        decreases s.len() - i,
    {
        let ghost rest = s@.skip(i as int);
        let b = s[i];
        if b == 0x25 {
            if s.len() - i >= 3 {
                let h1 = s[i + 1];
                let h2 = s[i + 2];
                assert(rest.skip(3) =~= s@.skip(i + 3));
                match parse_hex_pair(h1, h2) {
                    Some(v) => {
                        out.push(v);
                    },
                    None => {
                        out.push(b);
                        out.push(h1);
                        out.push(h2);
                    },
                }
                i = i + 3;
            } else {
                let ghost before = out@;
                let ghost start = i;
                while i < s.len()
                    invariant
                        start <= i <= s.len(),
                        out@ == before + s@.subrange(start as int, i as int),
                    decreases s.len() - i,
                {
                    out.push(s[i]);
                    i = i + 1;
                    assert(out@ =~= before + s@.subrange(start as int, i as int));
                }
                assert(s@.subrange(start as int, s@.len() as int) =~= rest);
                assert(s@.skip(i as int) =~= Seq::<u8>::empty());
            }
        } else {
            assert(rest.skip(1) =~= s@.skip(i + 1));
            out.push(b);
            i = i + 1;
        }
        assert(pct_decode_bytes(s@) =~= out@ + pct_decode_bytes(s@.skip(i as int)));
    }
    assert(s@.skip(i as int) =~= Seq::<u8>::empty());
    assert(out@ =~= out@ + Seq::<u8>::empty());
    out
}

/// Percent-decodes an Assuan parameter. Works on the UTF-8 bytes, so that
/// multi-byte characters written as `%C3%BC` decode; malformed or truncated
/// escapes are kept literally; bytes that are not valid UTF-8 after
/// decoding are replaced as `String::from_utf8_lossy` does.
pub fn percent_decode(s: &str) -> (r: String)
    ensures
        r@ == pct_decode_text(s@),
{
    let b = s.as_bytes();
    let out = percent_decode_bytes(b);
    bytes_into_text(out)
}

// ---------------------------------------------------------------- encoding

/// The escape that a data line writes for `c`.
pub open spec fn pct_piece(c: char) -> Seq<char> {
    if c == '%' {
        seq!['%', '2', '5']
    } else if c == '\n' {
        seq!['%', '0', 'A']
    } else if c == '\r' {
        seq!['%', '0', 'D']
    } else {
        seq![c]
    }
}

/// Percent-encoding of data for an Assuan `D` line: `%`, line feed and
/// carriage return are escaped, every other character is kept.
pub open spec fn pct_encode(cs: Seq<char>) -> Seq<char>
    decreases cs.len(),
{
    if cs.len() == 0 {
        seq![]
    } else {
        pct_piece(cs[0]) + pct_encode(cs.drop_first())
    }
}

/// Percent-encodes data for an Assuan `D` response line.
pub fn percent_encode_data(s: &str) -> (r: String)
    ensures
        r@ == pct_encode(s@),
{
    let cs = chars_of(s);
    let mut out = String::new();
    let mut i: usize = 0;
    assert(cs@.skip(0) =~= cs@);
    assert(out@ + pct_encode(s@) =~= pct_encode(s@));
    while i < cs.len()
        invariant
            i <= cs.len(),
            cs@ == s@,
            pct_encode(s@) == out@ + pct_encode(cs@.skip(i as int)),
        decreases cs.len() - i,
    {
        let c = cs[i];
        assert(cs@.skip(i as int).drop_first() =~= cs@.skip(i + 1));
        if c == '%' {
            push_char(&mut out, '%');
            push_char(&mut out, '2');
            push_char(&mut out, '5');
        } else if c == '\n' {
            push_char(&mut out, '%');
            push_char(&mut out, '0');
            push_char(&mut out, 'A');
        } else if c == '\r' {
            push_char(&mut out, '%');
            push_char(&mut out, '0');
            push_char(&mut out, 'D');
        } else {
            push_char(&mut out, c);
        }
        i = i + 1;
        assert(pct_encode(s@) =~= out@ + pct_encode(cs@.skip(i as int)));
    }
    assert(cs@.skip(i as int) =~= Seq::<char>::empty());
    assert(out@ =~= out@ + Seq::<char>::empty());
    out
}

// ---------------------------------------------------------------- laws

/// `b` does not occur in `s`.
pub open spec fn lacks_byte(s: Seq<u8>, b: u8) -> bool {
    forall|i: int| 0 <= i < s.len() ==> #[trigger] s[i] != b
}

/// The character `c` does not occur in `s`.
pub open spec fn lacks_char(s: Seq<char>, c: char) -> bool {
    forall|i: int| 0 <= i < s.len() ==> #[trigger] s[i] != c
}

proof fn lemma_scalar_lacks_ascii(c: char, a: u8)
    requires
        a < 0x80,
        (c as u32) != (a as u32),
    ensures
        lacks_byte(encode_scalar(c as u32), a),
{
    let u = c as u32;
    if has_width_1_encoding(u) {
        assert(leading_byte_width_1(u) == u as u8) by (bit_vector)
            requires
                u < 0x80,
        ;
    } else {
        assert(leading_byte_width_2(u) >= 0x80) by (bit_vector);
        assert(leading_byte_width_3(u) >= 0x80) by (bit_vector);
        assert(leading_byte_width_4(u) >= 0x80) by (bit_vector);
        assert(last_continuation_byte(u) >= 0x80) by (bit_vector);
        assert(second_last_continuation_byte(u) >= 0x80) by (bit_vector);
        assert(third_last_continuation_byte(u) >= 0x80) by (bit_vector);
    }
}

/// The UTF-8 encoding of a text holds the ASCII byte `a` only where the text
/// holds the character with that code.
pub proof fn lemma_encoding_lacks_ascii(cs: Seq<char>, c: char)
    requires
        (c as u32) < 0x80,
        lacks_char(cs, c),
    ensures
        lacks_byte(encode_utf8(cs), c as u32 as u8),
    decreases cs.len(),
{
    if cs.len() > 0 {
        assert(lacks_char(cs.drop_first(), c)) by {
            assert forall|i: int| 0 <= i < cs.drop_first().len() implies #[trigger] cs.drop_first()[i]
                != c by {
                assert(cs.drop_first()[i] == cs[i + 1]);
            }
        }
        lemma_encoding_lacks_ascii(cs.drop_first(), c);
        assert(cs[0] != c);
        assert((cs[0] as u32) != (c as u32)) by {
            vstd::utf8::char_u32_cast(cs[0], cs[0] as u32);
            vstd::utf8::char_u32_cast(c, c as u32);
        }
        lemma_scalar_lacks_ascii(cs[0], c as u32 as u8);
        let e = encode_utf8(cs);
        let a = encode_scalar(cs[0] as u32);
        let b = encode_utf8(cs.drop_first());
        assert(e == a + b);
        assert forall|i: int| 0 <= i < e.len() implies #[trigger] e[i] != c as u32 as u8 by {
            if i < a.len() {
                assert(e[i] == a[i]);
            } else {
                assert(e[i] == b[i - a.len()]);
            }
        }
    }
}

/// Bytes without `%` come out of percent-decoding unchanged, and shield
/// what follows them.
pub proof fn lemma_decode_plain_prefix(x: Seq<u8>, y: Seq<u8>)
    requires
        lacks_byte(x, 0x25),
    ensures
        pct_decode_bytes(x + y) == x + pct_decode_bytes(y),
    decreases x.len(),
{
    if x.len() == 0 {
        assert(x + y =~= y);
    } else {
        let xy = x + y;
        assert(xy[0] == x[0]);
        assert(xy.skip(1) =~= x.skip(1) + y);
        assert(lacks_byte(x.skip(1), 0x25)) by {
            assert forall|i: int| 0 <= i < x.skip(1).len() implies #[trigger] x.skip(1)[i] != 0x25 by {
                assert(x.skip(1)[i] == x[i + 1]);
            }
        }
        lemma_decode_plain_prefix(x.skip(1), y);
        assert(pct_decode_bytes(xy) =~= seq![x[0]] + (x.skip(1) + pct_decode_bytes(y)));
        assert(x =~= seq![x[0]] + x.skip(1));
    }
}

/// The UTF-8 bytes of an escape, percent-decoded, are the UTF-8 bytes of the
/// escaped character.
proof fn lemma_decode_piece(c: char, rest: Seq<u8>)
    ensures
        pct_decode_bytes(encode_utf8(pct_piece(c)) + rest) == encode_utf8(seq![c])
            + pct_decode_bytes(rest),
{
    if c == '%' || c == '\n' || c == '\r' {
        let h = if c == '%' {
            '2'
        } else {
            '0'
        };
        let l = if c == '%' {
            '5'
        } else if c == '\n' {
            'A'
        } else {
            'D'
        };
        assert(pct_piece(c) =~= seq!['%'] + (seq![h] + seq![l]));
        lemma_encode_utf8_concat(seq!['%'], seq![h] + seq![l]);
        lemma_encode_utf8_concat(seq![h], seq![l]);
        lemma_encode_ascii_char('%');
        lemma_encode_ascii_char(h);
        lemma_encode_ascii_char(l);
        lemma_encode_ascii_char(c);
        let e = encode_utf8(pct_piece(c));
        assert(e =~= seq![0x25u8, h as u32 as u8, l as u32 as u8]);
        let s = e + rest;
        assert(s.skip(3) =~= rest);
        assert(s[0] == 0x25u8 && s[1] == h as u32 as u8 && s[2] == l as u32 as u8);
        assert(hex_pair(s[1], s[2]) == Some(c as u32 as u8));
    } else {
        assert(pct_piece(c) == seq![c]);
        assert(lacks_char(seq![c], '%'));
        lemma_encoding_lacks_ascii(seq![c], '%');
        lemma_decode_plain_prefix(encode_utf8(seq![c]), rest);
    }
}

proof fn lemma_decode_encode_bytes(cs: Seq<char>)
    ensures
        pct_decode_bytes(encode_utf8(pct_encode(cs))) == encode_utf8(cs),
    decreases cs.len(),
{
    if cs.len() > 0 {
        let c = cs[0];
        let tail = cs.drop_first();
        lemma_decode_encode_bytes(tail);
        lemma_encode_utf8_concat(pct_piece(c), pct_encode(tail));
        lemma_decode_piece(c, encode_utf8(pct_encode(tail)));
        assert(cs =~= seq![c] + tail);
        lemma_encode_utf8_concat(seq![c], tail);
    }
}

/// Decoding undoes encoding: for every text `s`, percent-decoding the
/// percent-encoding of `s` gives `s` back.
pub proof fn law_decode_inverts_encode(s: Seq<char>)
    ensures
        pct_decode_text(pct_encode(s)) == s,
{
    lemma_decode_encode_bytes(s);
}

/// A parameter without `%` decodes to itself.
pub proof fn law_decode_keeps_plain_text(s: Seq<char>)
    requires
        lacks_char(s, '%'),
    ensures
        pct_decode_text(s) == s,
{
    lemma_encoding_lacks_ascii(s, '%');
    lemma_decode_plain_prefix(encode_utf8(s), Seq::<u8>::empty());
    assert(encode_utf8(s) + Seq::<u8>::empty() =~= encode_utf8(s));
    assert(pct_decode_bytes(Seq::<u8>::empty()) =~= Seq::<u8>::empty());
}

/// Encoded data holds no line feed and no carriage return, so it always
/// fits on one Assuan line.
pub proof fn law_encoded_data_is_one_line(s: Seq<char>)
    ensures
        lacks_char(pct_encode(s), '\n'),
        lacks_char(pct_encode(s), '\r'),
    decreases s.len(),
{
    if s.len() > 0 {
        law_encoded_data_is_one_line(s.drop_first());
        let p = pct_piece(s[0]);
        let t = pct_encode(s.drop_first());
        let e = pct_encode(s);
        assert(e == p + t);
        assert forall|i: int| 0 <= i < e.len() implies #[trigger] e[i] != '\n' && e[i] != '\r' by {
            if i < p.len() {
                assert(e[i] == p[i]);
            } else {
                assert(e[i] == t[i - p.len()]);
            }
        }
    }
}

} // verus!
