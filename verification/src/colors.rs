//! Colors of the user interface: reading `#RRGGBB` text and writing it back.

use vstd::prelude::*;
use vstd::string::*;
use vstd::utf8::{
    encode_utf8, encode_utf8_valid_utf8, is_ascii_chars, is_ascii_chars_encode_utf8, is_char_boundary,
    is_char_boundary_iff_not_is_continuation_byte,
};
use crate::text::{first_non_ws_from, is_ws, last_non_ws_before, push_char, trim, trim_str};

verus! {

/// An opaque color given by its red, green and blue components.
#[derive(Clone, Copy, Debug, PartialEq, Eq, Structural)]
pub struct Rgb {
    pub r: u8,
    pub g: u8,
    pub b: u8,
}

/// The text without any leading `#` characters (`trim_start_matches('#')`).
pub open spec fn strip_hashes(s: Seq<char>) -> Seq<char>
    decreases s.len(),
{
    if s.len() > 0 && s[0] == '#' {
        strip_hashes(s.drop_first())
    } else {
        s
    }
}

/// The UTF-8 bytes of a color text once it is trimmed and its leading `#` are removed.
pub open spec fn color_digit_bytes(value: Seq<char>) -> Seq<u8> {
    encode_utf8(strip_hashes(trim(value)))
}

/// Whether the digit bytes of a color text of six bytes can be cut after its second and fourth
/// byte: cutting inside a character would panic.
pub open spec fn color_text_splits(value: Seq<char>) -> bool {
    let b = color_digit_bytes(value);
    b.len() == 6 ==> is_char_boundary(b, 2) && is_char_boundary(b, 4)
}

/// The value of one hexadecimal digit byte.
pub open spec fn hex_value(b: u8) -> Option<u8> {
    if 48 <= b <= 57 {
        Some((b - 48) as u8)
    } else if 97 <= b <= 102 {
        Some((b - 87) as u8)
    } else if 65 <= b <= 70 {
        Some((b - 55) as u8)
    } else {
        None
    }
}

/// `u8::from_str_radix(_, 16)` on two bytes: two hexadecimal digits, or `+` and one digit.
pub open spec fn pair_value(b0: u8, b1: u8) -> Option<u8> {
    if b0 == 43 {
        hex_value(b1)
    } else {
        match (hex_value(b0), hex_value(b1)) {
            (Some(h), Some(l)) => Some((16 * h + l) as u8),
            _ => None,
        }
    }
}

/// The color that a text names, if it names one.
pub open spec fn color_of_text(value: Seq<char>) -> Option<Rgb> {
    let b = color_digit_bytes(value);
    if b.len() != 6 {
        None
    } else {
        match (pair_value(b[0], b[1]), pair_value(b[2], b[3]), pair_value(b[4], b[5])) {
            (Some(r), Some(g), Some(bl)) => Some(Rgb { r, g, b: bl }),
            _ => None,
        }
    }
}

/// The message for a text that names no color.
pub open spec fn unsupported_color_message(value: Seq<char>) -> Seq<char> {
    "Unsupported color `"@ + value + "`. Use #RRGGBB."@
}

fn hex_byte(b: u8) -> (r: Option<u8>)
    ensures
        r == hex_value(b),
{
    if 48 <= b && b <= 57 {
        Some(b - 48)
    } else if 97 <= b && b <= 102 {
        Some(b - 87)
    } else if 65 <= b && b <= 70 {
        Some(b - 55)
    } else {
        None
    }
}

fn parse_pair(b0: u8, b1: u8) -> (r: Option<u8>)
    ensures
        r == pair_value(b0, b1),
{
    if b0 == 43 {
        hex_byte(b1)
    } else {
        match (hex_byte(b0), hex_byte(b1)) {
            (Some(h), Some(l)) => Some(16 * h + l),
            _ => None,
        }
    }
}

fn unsupported_color(value: &str) -> (e: String)
    ensures
        e@ == unsupported_color_message(value@),
{
    let mut e = String::new();
    e.append("Unsupported color `");
    e.append(value);
    e.append("`. Use #RRGGBB.");
    e
}

/// Reads a color written `#RRGGBB` (surrounding whitespace and any number of leading `#`
/// are ignored).
pub fn parse_color(value: &str) -> (r: Result<Rgb, String>)
    requires
        color_text_splits(value@),
    ensures
        match r {
            Ok(c) => color_of_text(value@) == Some(c),
            Err(e) => color_of_text(value@) is None && e@ == unsupported_color_message(value@),
        },
{
    let t = trim_str(value);
    let n = t.unicode_len();
    let mut i: usize = 0;
    assert(t@.subrange(0, n as int) =~= t@);
    while i < n && t.get_char(i) == '#'
        invariant
            n == t@.len(),
            i <= n,
            strip_hashes(t@) == strip_hashes(t@.subrange(i as int, n as int)),
        decreases n - i,
    {
        assert(t@.subrange(i as int, n as int).drop_first() =~= t@.subrange(i + 1, n as int));
        i = i + 1;
    }
    let hex = t.substring_char(i, n);
    assert(hex@ == strip_hashes(hex@));
    if hex.len() != 6 {
        return Err(unsupported_color(value));
    }
    let b = hex.as_bytes();
    let red = parse_pair(b[0], b[1]);
    let green = parse_pair(b[2], b[3]);
    let blue = parse_pair(b[4], b[5]);
    match (red, green, blue) {
        (Some(r), Some(g), Some(bl)) => Ok(Rgb { r, g, b: bl }),
        _ => Err(unsupported_color(value)),
    }
}

/// A hexadecimal digit in lower case.
pub open spec fn hex_digit(n: u8) -> char {
    if n < 10 {
        ((48 + n) as u8) as char
    } else {
        ((87 + n) as u8) as char
    }
}

/// The text `#rrggbb` of a color, in lower-case hexadecimal.
pub open spec fn color_text(c: Rgb) -> Seq<char> {
    seq![
        '#',
        hex_digit(c.r / 16),
        hex_digit(c.r % 16),
        hex_digit(c.g / 16),
        hex_digit(c.g % 16),
        hex_digit(c.b / 16),
        hex_digit(c.b % 16),
    ]
}

fn push_hex_digit(s: &mut String, n: u8)
    requires
        n < 16,
    ensures
        final(s)@ == old(s)@.push(hex_digit(n)),
{
    if n < 10 {
        push_char(s, (48 + n) as char);
    } else {
        push_char(s, (87 + n) as char);
    }
}

/// Writes a color as `#rrggbb`.
pub fn color_to_hex(c: Rgb) -> (r: String)
    ensures
        r@ == color_text(c),
{
    let mut s = String::new();
    push_char(&mut s, '#');
    push_hex_digit(&mut s, c.r / 16);
    push_hex_digit(&mut s, c.r % 16);
    push_hex_digit(&mut s, c.g / 16);
    push_hex_digit(&mut s, c.g % 16);
    push_hex_digit(&mut s, c.b / 16);
    push_hex_digit(&mut s, c.b % 16);
    assert(s@ =~= color_text(c));
    s
}

proof fn lemma_hex_digit_reads_back(n: u8)
    requires
        n < 16,
    ensures
        hex_value(hex_digit(n) as u8) == Some(n),
        (hex_digit(n) as u8) < 128,
        hex_digit(n) != '#',
        !is_ws(hex_digit(n)),
        hex_digit(n) as u8 != 43,
{
}

/// A byte with an ASCII capital letter folded to lower case.
pub open spec fn byte_lower(b: u8) -> u8 {
    if 65 <= b <= 90 {
        (b + 32) as u8
    } else {
        b
    }
}

/// Hexadecimal digits are read without regard to case: a digit byte and its lower-case form
/// have the same value, which is below sixteen; a `+` before one digit reads as that digit, as
/// `u8::from_str_radix` allows.
pub proof fn lemma_hex_value_ignores_case(b: u8)
    ensures
        hex_value(byte_lower(b)) == hex_value(b),
        hex_value(b) matches Some(v) ==> v < 16,
        pair_value(43, b) == hex_value(b),
{
}

/// A pair of digit bytes is read without regard to case.
pub proof fn lemma_pair_value_ignores_case(b0: u8, b1: u8)
    ensures
        pair_value(byte_lower(b0), byte_lower(b1)) == pair_value(b0, b1),
{
    lemma_hex_value_ignores_case(b0);
    lemma_hex_value_ignores_case(b1);
}

/// Two color texts whose digits differ only in the case of letters name the same color, or
/// both name none: `#FFFFFF` reads as `#ffffff` does.
pub proof fn lemma_color_ignores_case(t1: Seq<char>, t2: Seq<char>)
    requires
        color_digit_bytes(t1).len() == color_digit_bytes(t2).len(),
        forall|i: int| 0 <= i < color_digit_bytes(t1).len()
            ==> byte_lower(#[trigger] color_digit_bytes(t1)[i]) == byte_lower(color_digit_bytes(t2)[i]),
    ensures
        color_of_text(t1) == color_of_text(t2),
{
    let a = color_digit_bytes(t1);
    let b = color_digit_bytes(t2);
    if a.len() == 6 {
        assert(byte_lower(a[0]) == byte_lower(b[0]) && byte_lower(a[1]) == byte_lower(b[1]));
        assert(byte_lower(a[2]) == byte_lower(b[2]) && byte_lower(a[3]) == byte_lower(b[3]));
        assert(byte_lower(a[4]) == byte_lower(b[4]) && byte_lower(a[5]) == byte_lower(b[5]));
        lemma_pair_value_ignores_case(a[0], a[1]);
        lemma_pair_value_ignores_case(b[0], b[1]);
        lemma_pair_value_ignores_case(a[2], a[3]);
        lemma_pair_value_ignores_case(b[2], b[3]);
        lemma_pair_value_ignores_case(a[4], a[5]);
        lemma_pair_value_ignores_case(b[4], b[5]);
    }
}

/// Writing a color and reading the text back gives the same color, and the text never cuts a
/// character.
pub proof fn lemma_color_text_reads_back(c: Rgb)
    ensures
        color_text_splits(color_text(c)),
        color_of_text(color_text(c)) == Some(c),
{
    let t = color_text(c);
    lemma_hex_digit_reads_back(c.r / 16);
    lemma_hex_digit_reads_back(c.r % 16);
    lemma_hex_digit_reads_back(c.g / 16);
    lemma_hex_digit_reads_back(c.g % 16);
    lemma_hex_digit_reads_back(c.b / 16);
    lemma_hex_digit_reads_back(c.b % 16);
    assert(!is_ws(t[0]));
    assert(!is_ws(t[6]));
    assert(first_non_ws_from(t, 0) == 0);
    assert(last_non_ws_before(t, 0, 7) == 7);
    assert(t.subrange(0, 7) =~= t);
    assert(trim(t) == t);
    let d = t.drop_first();
    assert(strip_hashes(d) == d);
    assert(strip_hashes(t) == d);
    assert(is_ascii_chars(d));
    is_ascii_chars_encode_utf8(d);
    let b = encode_utf8(d);
    assert(b.len() == 6);
    encode_utf8_valid_utf8(d);
    is_char_boundary_iff_not_is_continuation_byte(b, 2);
    is_char_boundary_iff_not_is_continuation_byte(b, 4);
    assert(d[0] as u8 == b[0]);
    assert(d[1] as u8 == b[1]);
    assert(d[2] as u8 == b[2]);
    assert(d[3] as u8 == b[3]);
    assert(d[4] as u8 == b[4]);
    assert(d[5] as u8 == b[5]);
    assert(pair_value(b[0], b[1]) == Some(c.r));
    assert(pair_value(b[2], b[3]) == Some(c.g));
    assert(pair_value(b[4], b[5]) == Some(c.b));
}

} // verus!
