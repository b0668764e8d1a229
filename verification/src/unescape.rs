//! JSON strings: how each character is escaped, and that reading undoes it.
use vstd::prelude::*;

use vstd::utf8::{decode_utf8, encode_scalar, encode_utf8, encode_utf8_decode_utf8};

use crate::render::{hex_byte, json_escape, json_escape_byte, json_string, utf8};

verus! {

/// The value of a hexadecimal digit (either case), if the byte is one.
pub open spec fn hex_value(b: u8) -> Option<int> {
    if 48 <= b <= 57 {
        Some(b - 48)
    } else if 97 <= b <= 102 {
        Some(b - 87)
    } else if 65 <= b <= 70 {
        Some(b - 55)
    } else {
        None
    }
}

/// The byte that a one-letter JSON escape stands for.
pub open spec fn short_escape(b: u8) -> Option<u8> {
    if b == 34 {
        Some(34u8)
    } else if b == 92 {
        Some(92u8)
    } else if b == 47 {
        Some(47u8)
    } else if b == 98 {
        Some(8u8)
    } else if b == 102 {
        Some(12u8)
    } else if b == 110 {
        Some(10u8)
    } else if b == 114 {
        Some(13u8)
    } else if b == 116 {
        Some(9u8)
    } else {
        None
    }
}

/// What a JSON reader makes of the bytes between the quotes of a string,
/// read from the front: escapes become the bytes they stand for (a
/// `\u00XX` escape below 0x80 its ASCII byte), other bytes stand for
/// themselves; a bare quote, a bare control byte or a broken escape makes
/// it no string. (Escapes of other code points are left out.)
pub open spec fn json_unescape(s: Seq<u8>) -> Option<Seq<u8>>
    decreases s.len(),
{
    if s.len() == 0 {
        Some(seq![])
    } else if s[0] == 92 {
        if s.len() >= 2 && short_escape(s[1]) is Some {
            match json_unescape(s.skip(2)) {
                Some(rest) => Some(seq![short_escape(s[1])->0] + rest),
                None => None,
            }
        } else if s.len() >= 6 && s[1] == 117 && s[2] == 48 && s[3] == 48 && hex_value(s[4]) is Some
            && hex_value(s[5]) is Some && hex_value(s[4])->0 < 8 {
            match json_unescape(s.skip(6)) {
                Some(rest) => Some(
                    seq![(16 * hex_value(s[4])->0 + hex_value(s[5])->0) as u8] + rest,
                ),
                None => None,
            }
        } else {
            None
        }
    } else if s[0] == 34 || s[0] < 32 {
        None
    } else {
        match json_unescape(s.skip(1)) {
            Some(rest) => Some(seq![s[0]] + rest),
            None => None,
        }
    }
}

proof fn lemma_escape_first(bytes: Seq<u8>)
    requires
        bytes.len() > 0,
    ensures
        json_escape(bytes) == json_escape_byte(bytes[0]) + json_escape(bytes.drop_first()),
    decreases bytes.len(),
{
    if bytes.len() == 1 {
        assert(bytes.drop_last() =~= seq![]);
        assert(bytes.drop_first() =~= seq![]);
        assert(json_escape(bytes.drop_first()) =~= seq![]);
        assert(json_escape(bytes) =~= json_escape_byte(bytes[0]));
    } else {
        lemma_escape_first(bytes.drop_last());
        assert(bytes.drop_last().drop_first() =~= bytes.drop_first().drop_last());
        assert(bytes.drop_first().last() == bytes.last());
        assert(json_escape(bytes) =~= json_escape_byte(bytes[0]) + json_escape(bytes.drop_first()));
    }
}

proof fn lemma_unescape_byte(b: u8, rest: Seq<u8>)
    requires
        json_unescape(rest) is Some,
    ensures
        json_unescape(json_escape_byte(b) + rest) == Some(seq![b] + json_unescape(rest)->0),
{
    let e = json_escape_byte(b);
    let s = e + rest;
    assert(s.skip(e.len() as int) =~= rest);
    if b == 34 || b == 92 || b == 10 || b == 13 || b == 9 {
        assert(s[0] == 92u8 && s[1] == e[1]);
    } else if b < 32 {
        let hi = b as int / 16;
        let lo = b as int % 16;
        assert(hi == 0 || hi == 1);
        assert(hex_value(hex_byte(hi)) == Some(hi));
        assert(hex_value(hex_byte(lo)) == Some(lo));
        assert(s[4] == hex_byte(hi) && s[5] == hex_byte(lo));
        assert((16 * hi + lo) as u8 == b);
    } else {
        assert(s[0] == b);
    }
}

/// Escaping is undone by reading: the bytes of every text written inside a
/// JSON string read back as exactly those bytes.
pub proof fn lemma_json_escape_round_trip(bytes: Seq<u8>)
    ensures
        json_unescape(json_escape(bytes)) == Some(bytes),
    decreases bytes.len(),
{
    if bytes.len() == 0 {
        assert(json_escape(bytes) =~= seq![]);
    } else {
        lemma_escape_first(bytes);
        lemma_json_escape_round_trip(bytes.drop_first());
        lemma_unescape_byte(bytes[0], json_escape(bytes.drop_first()));
        assert(seq![bytes[0]] + bytes.drop_first() =~= bytes);
    }
}


/// How one character is written inside a JSON string: `"`, `\`, newline,
/// carriage return and tab by their short escapes, any other character
/// below U+0020 by `\u00` and two lowercase hexadecimal digits, and every
/// other character by its own UTF-8 bytes.
pub open spec fn json_escape_char(c: char) -> Seq<u8> {
    if c == '"' {
        seq![92u8, 34u8]
    } else if c == '\\' {
        seq![92u8, 92u8]
    } else if c == '\n' {
        seq![92u8, 110u8]
    } else if c == '\r' {
        seq![92u8, 114u8]
    } else if c == '\t' {
        seq![92u8, 116u8]
    } else if (c as u32) < 32 {
        seq![92u8, 117u8, 48u8, 48u8, hex_byte((c as u32) as int / 16), hex_byte((c as u32) as int % 16)]
    } else {
        utf8(seq![c])
    }
}

/// The characters of a text, each written as `json_escape_char` says.
pub open spec fn json_escape_chars(s: Seq<char>) -> Seq<u8>
    decreases s.len(),
{
    if s.len() == 0 {
        seq![]
    } else {
        json_escape_char(s[0]) + json_escape_chars(s.drop_first())
    }
}

proof fn lemma_escape_concat(a: Seq<u8>, b: Seq<u8>)
    ensures
        json_escape(a + b) == json_escape(a) + json_escape(b),
    decreases b.len(),
{
    if b.len() == 0 {
        assert(a + b =~= a);
        assert(json_escape(a) + json_escape(b) =~= json_escape(a));
    } else {
        lemma_escape_concat(a, b.drop_last());
        assert((a + b).drop_last() =~= a + b.drop_last());
        assert((a + b).last() == b.last());
        assert(json_escape(a + b) =~= json_escape(a) + json_escape(b));
    }
}

proof fn lemma_escape_high_bytes(bytes: Seq<u8>)
    requires
        forall|i: int| 0 <= i < bytes.len() ==> #[trigger] bytes[i] >= 0x80,
    ensures
        json_escape(bytes) == bytes,
    decreases bytes.len(),
{
    if bytes.len() > 0 {
        lemma_escape_high_bytes(bytes.drop_last());
        assert(bytes.drop_last().push(bytes.last()) =~= bytes);
    }
}

proof fn lemma_high_bit(y: u8)
    by (bit_vector)
    ensures
        (0x80u8 | y) >= 0x80u8,
        (0xC0u8 | y) >= 0x80u8,
        (0xE0u8 | y) >= 0x80u8,
        (0xF0u8 | y) >= 0x80u8,
{
}

proof fn lemma_ascii_byte(x: u32)
    by (bit_vector)
    requires
        x <= 0x7F,
    ensures
        ((x & 0x7F) as u8) as u32 == x,
{
}

proof fn lemma_escape_one_char(c: char)
    ensures
        json_escape(encode_scalar(c as u32)) == json_escape_char(c),
        utf8(seq![c]) == encode_scalar(c as u32),
{
    let u = c as u32;
    let one = seq![c];
    assert(one[0] == c);
    assert(one.drop_first() =~= Seq::<char>::empty());
    assert(encode_utf8(one.drop_first()) =~= Seq::<u8>::empty());
    assert(encode_utf8(one) == encode_scalar(one[0] as u32) + encode_utf8(one.drop_first()));
    assert(utf8(one) =~= encode_scalar(u));
    if u <= 0x7F {
        lemma_ascii_byte(u);
        let b = (u & 0x7F) as u8;
        assert(encode_scalar(u) == seq![b]);
        let single = seq![b];
        assert(single.drop_last() =~= Seq::<u8>::empty());
        assert(json_escape(single.drop_last()) =~= Seq::<u8>::empty());
        assert(single.last() == b);
        assert(json_escape(single) =~= json_escape_byte(b));
        assert(b as u32 == u);
    } else {
        let bytes = encode_scalar(u);
        lemma_high_bit(((u >> 6) & 0x1F) as u8);
        lemma_high_bit(((u >> 12) & 0x0F) as u8);
        lemma_high_bit(((u >> 18) & 0x7) as u8);
        lemma_high_bit((u & 0x3F) as u8);
        lemma_high_bit(((u >> 6) & 0x3F) as u8);
        lemma_high_bit(((u >> 12) & 0x3F) as u8);
        assert forall|i: int| 0 <= i < bytes.len() implies #[trigger] bytes[i] >= 0x80 by {}
        lemma_escape_high_bytes(bytes);
    }
}

proof fn lemma_escape_chars(s: Seq<char>)
    ensures
        json_escape(utf8(s)) == json_escape_chars(s),
    decreases s.len(),
{
    if s.len() > 0 {
        assert(utf8(s) == encode_scalar(s[0] as u32) + utf8(s.drop_first()));
        lemma_escape_concat(encode_scalar(s[0] as u32), utf8(s.drop_first()));
        lemma_escape_one_char(s[0]);
        lemma_escape_chars(s.drop_first());
    }
}

/// A text written as a JSON string is a quote, each of its characters
/// escaped as `json_escape_char` says, and a quote; reading the part
/// between the quotes back gives the text's UTF-8 bytes, which decode to
/// exactly the text.
pub proof fn lemma_json_string_escapes(s: Seq<char>)
    ensures
        json_string(s) == seq![34u8] + json_escape_chars(s) + seq![34u8],
        json_unescape(json_escape_chars(s)) == Some(utf8(s)),
        decode_utf8(utf8(s)) == s,
{
    lemma_escape_chars(s);
    lemma_json_escape_round_trip(utf8(s));
    encode_utf8_decode_utf8(s);
}

} // verus!
