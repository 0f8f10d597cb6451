//! Hexadecimal digits and the pairwise encoding of bytes as digit characters.

use vstd::prelude::*;

verus! {

/// A character that names a hexadecimal digit, in either case.
pub open spec fn is_hex_char(c: char) -> bool {
    ('0' <= c && c <= '9') || ('a' <= c && c <= 'f') || ('A' <= c && c <= 'F')
}

/// A character that names a hexadecimal digit as this library emits them:
/// a decimal digit or a lowercase letter.
pub open spec fn is_lower_hex_char(c: char) -> bool {
    ('0' <= c && c <= '9') || ('a' <= c && c <= 'f')
}

/// The numeric value of a hexadecimal digit character.
pub open spec fn hex_char_val(c: char) -> u8
    recommends
        is_hex_char(c),
{
    if '0' <= c && c <= '9' {
        (c as u8 - '0' as u8) as u8
    } else if 'a' <= c && c <= 'f' {
        (c as u8 - 'a' as u8 + 10) as u8
    } else {
        (c as u8 - 'A' as u8 + 10) as u8
    }
}

/// A byte is a hexadecimal digit when the ASCII character it encodes is one.
pub open spec fn is_hex_byte(b: u8) -> bool {
    is_hex_char(b as char)
}

/// The numeric value of a byte that encodes a hexadecimal digit.
pub open spec fn hex_byte_val(b: u8) -> u8
    recommends
        is_hex_byte(b),
{
    hex_char_val(b as char)
}

/// The lowercase hexadecimal digit character for a value below sixteen.
pub open spec fn hex_char_of(n: u8) -> char
    recommends
        n < 16,
{
    if n < 10 {
        (('0' as u8 + n) as u8) as char
    } else {
        (('a' as u8 + n - 10) as u8) as char
    }
}

/// Every character of the sequence is a hexadecimal digit.
pub open spec fn all_hex(s: Seq<char>) -> bool {
    forall|i: int| 0 <= i < s.len() ==> is_hex_char(#[trigger] s[i])
}

/// The hexadecimal rendering of a byte sequence: two lowercase digit
/// characters per byte, most significant digit first.
pub open spec fn bytes_to_hex(s: Seq<u8>) -> Seq<char> {
    Seq::new(
        2 * s.len(),
        |i: int|
            if i % 2 == 0 {
                hex_char_of((s[i / 2] / 16) as u8)
            } else {
                hex_char_of((s[i / 2] % 16) as u8)
            },
    )
}

/// The pairwise decoding of a sequence of hexadecimal digit characters:
/// each pair of digits becomes one byte, most significant digit first.
pub open spec fn hex_to_bytes(s: Seq<char>) -> Seq<u8>
    recommends
        all_hex(s),
{
    Seq::new(s.len() / 2, |i: int| (16 * hex_char_val(s[2 * i]) + hex_char_val(s[2 * i + 1])) as u8)
}

/// Decodes one byte that encodes an ASCII hexadecimal digit, in either case.
pub fn hex_digit_value(b: u8) -> (r: Option<u8>)
    ensures
        r is Some <==> is_hex_byte(b),
        r is Some ==> r->0 == hex_byte_val(b) && r->0 < 16,
{
    if '0' as u8 <= b && b <= '9' as u8 {
        Some(b - '0' as u8)
    } else if 'a' as u8 <= b && b <= 'f' as u8 {
        Some(b - 'a' as u8 + 10)
    } else if 'A' as u8 <= b && b <= 'F' as u8 {
        Some(b - 'A' as u8 + 10)
    } else {
        None
    }
}

/// The lowercase digit for a value below sixteen is itself a hexadecimal
/// digit character, and decodes back to that value.
pub proof fn lemma_hex_char_of_val(n: u8)
    requires
        n < 16,
    ensures
        is_lower_hex_char(hex_char_of(n)),
        is_hex_char(hex_char_of(n)),
        hex_char_val(hex_char_of(n)) == n,
{
}

/// Law: encoding any twenty bytes yields exactly forty characters, each a
/// decimal digit or lowercase `a`-`f`, and decoding those characters pairwise
/// restores the original bytes.
pub proof fn lemma_hex_round_trip(s: Seq<u8>)
    requires
        s.len() == 20,
    ensures
        bytes_to_hex(s).len() == 40,
        forall|i: int| 0 <= i < 40 ==> is_lower_hex_char(#[trigger] bytes_to_hex(s)[i]),
        hex_to_bytes(bytes_to_hex(s)) == s,
{
    let h = bytes_to_hex(s);
    assert forall|i: int| 0 <= i < 40 implies is_lower_hex_char(#[trigger] h[i]) by {
        if i % 2 == 0 {
            lemma_hex_char_of_val((s[i / 2] / 16) as u8);
        } else {
            lemma_hex_char_of_val((s[i / 2] % 16) as u8);
        }
    }
    assert forall|i: int| 0 <= i < 20 implies hex_to_bytes(h)[i] == s[i] by {
        lemma_hex_char_of_val((s[i] / 16) as u8);
        lemma_hex_char_of_val((s[i] % 16) as u8);
        assert(h[2 * i] == hex_char_of((s[i] / 16) as u8));
        assert(h[2 * i + 1] == hex_char_of((s[i] % 16) as u8));
    }
    assert(hex_to_bytes(h) =~= s);
}

} // verus!
