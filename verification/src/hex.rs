//! 24-bit colours and their `#rrggbb` notation: parsing as the theme files and
//! the icon exports write it, and formatting for export.

use vstd::prelude::*;
use vstd::string::*;
use vstd::utf8::*;

verus! {

/// An sRGB colour with 8 bits per channel.
#[derive(Debug, Clone, Copy, PartialEq, Eq, Structural)]
pub struct Rgb8 {
    pub r: u8,
    pub g: u8,
    pub b: u8,
}

/// An sRGB colour with 8 bits per channel and an alpha channel.
#[derive(Debug, Clone, Copy, PartialEq, Eq, Structural)]
pub struct Rgba8 {
    pub r: u8,
    pub g: u8,
    pub b: u8,
    pub a: u8,
}

/// The fully opaque colour of `c`.
pub open spec fn opaque(c: Rgb8) -> Rgba8 {
    Rgba8 { r: c.r, g: c.g, b: c.b, a: 255 }
}

/// The fully opaque colour of `c`.
pub fn to_rgba(c: Rgb8) -> (o: Rgba8)
    ensures
        o == opaque(c),
{
    Rgba8 { r: c.r, g: c.g, b: c.b, a: 255 }
}

/// White, the colour a malformed theme entry falls back to.
pub open spec fn white() -> Rgb8 {
    Rgb8 { r: 255, g: 255, b: 255 }
}

/// The bytes after any leading `#` characters.
pub open spec fn strip_hashes(b: Seq<u8>) -> Seq<u8>
    decreases b.len(),
{
    if b.len() > 0 && b[0] == 35 {
        strip_hashes(b.drop_first())
    } else {
        b
    }
}

/// The value of an ASCII hexadecimal digit (either case).
pub open spec fn hex_digit_value(c: u8) -> Option<u8> {
    if 48 <= c <= 57 {
        Some((c - 48) as u8)
    } else if 97 <= c <= 102 {
        Some((c - 87) as u8)
    } else if 65 <= c <= 70 {
        Some((c - 55) as u8)
    } else {
        None
    }
}

/// A two-byte field read as an unsigned byte in base 16: two hex digits, or a
/// `+` sign and one digit.
pub open spec fn hex_byte_value(a: u8, b: u8) -> Option<u8> {
    if a == 43 {
        hex_digit_value(b)
    } else {
        match (hex_digit_value(a), hex_digit_value(b)) {
            (Some(h), Some(l)) => Some((h * 16 + l) as u8),
            _ => None,
        }
    }
}

/// Whether a byte continues a multi-byte UTF-8 character.
pub open spec fn continues_char(b: u8) -> bool {
    128 <= b < 192
}

/// Whether the three two-byte fields of a six-byte colour start on character
/// boundaries (always true of ASCII text). Text of another length has no fields.
pub open spec fn fields_on_boundaries(b: Seq<u8>) -> bool {
    let t = strip_hashes(b);
    t.len() == 6 ==> !continues_char(t[2]) && !continues_char(t[4])
}

/// The colour written as `#rrggbb` (any number of leading `#`, hex digits of
/// either case), if the text after the `#`s is six bytes of three fields.
pub open spec fn hex_rgb(b: Seq<u8>) -> Option<Rgb8> {
    let t = strip_hashes(b);
    if t.len() != 6 {
        None
    } else {
        match (hex_byte_value(t[0], t[1]), hex_byte_value(t[2], t[3]), hex_byte_value(t[4], t[5])) {
            (Some(r), Some(g), Some(b)) => Some(Rgb8 { r, g, b }),
            _ => None,
        }
    }
}

/// The theme's reading of a colour: white unless the text after the `#`s is
/// six bytes; then each field that does not parse reads as 255.
pub open spec fn theme_rgb(b: Seq<u8>) -> Rgb8 {
    let t = strip_hashes(b);
    if t.len() != 6 {
        white()
    } else {
        Rgb8 {
            r: match hex_byte_value(t[0], t[1]) {
                Some(v) => v,
                None => 255,
            },
            g: match hex_byte_value(t[2], t[3]) {
                Some(v) => v,
                None => 255,
            },
            b: match hex_byte_value(t[4], t[5]) {
                Some(v) => v,
                None => 255,
            },
        }
    }
}

/// The lower-case hex digit for `d` in `0..16`.
pub open spec fn hex_char(d: int) -> char {
    if d < 10 {
        (48 + d) as char
    } else {
        (87 + d) as char
    }
}

/// `n` as two lower-case hex digits.
pub open spec fn hex2(n: u8) -> Seq<char> {
    seq![hex_char((n / 16) as int), hex_char((n % 16) as int)]
}

/// `#rrggbb` in lower case.
pub open spec fn rgb_hex(c: Rgb8) -> Seq<char> {
    seq!['#'] + hex2(c.r) + hex2(c.g) + hex2(c.b)
}

fn digit_value(c: u8) -> (v: Option<u8>)
    ensures
        v == hex_digit_value(c),
{
    if c >= 48 && c <= 57 {
        Some(c - 48)
    } else if c >= 97 && c <= 102 {
        Some(c - 87)
    } else if c >= 65 && c <= 70 {
        Some(c - 55)
    } else {
        None
    }
}

fn byte_value(a: u8, b: u8) -> (v: Option<u8>)
    ensures
        v == hex_byte_value(a, b),
{
    if a == 43 {
        digit_value(b)
    } else {
        match (digit_value(a), digit_value(b)) {
            (Some(h), Some(l)) => Some(h * 16 + l),
            _ => None,
        }
    }
}

proof fn lemma_strip_suffix(b: Seq<u8>, i: int)
    requires
        0 <= i <= b.len(),
        forall|k: int| 0 <= k < i ==> b[k] == 35,
    ensures
        strip_hashes(b) == strip_hashes(b.subrange(i, b.len() as int)),
    decreases i,
{
    if i > 0 {
        assert(b.drop_first().subrange(i - 1, b.drop_first().len() as int) =~= b.subrange(
            i,
            b.len() as int,
        ));
        lemma_strip_suffix(b.drop_first(), i - 1);
    } else {
        assert(b.subrange(0, b.len() as int) =~= b);
    }
}

/// Index of the first byte after the leading `#`s, with the stripped text.
fn hash_prefix_len(bytes: &[u8]) -> (i: usize)
    ensures
        i <= bytes@.len(),
        strip_hashes(bytes@) == bytes@.subrange(i as int, bytes@.len() as int),
{
    let mut i: usize = 0;
    while i < bytes.len() && bytes[i] == 35
        invariant
            i <= bytes@.len(),
            forall|k: int| 0 <= k < i ==> bytes@[k] == 35,
        decreases bytes@.len() - i,
    {
        i = i + 1;
    }
    proof {
        lemma_strip_suffix(bytes@, i as int);
        let t = bytes@.subrange(i as int, bytes@.len() as int);
        if t.len() > 0 {
            assert(t[0] != 35);
        }
    }
    i
}

/// Reads `#rrggbb` (see `hex_rgb`).
pub fn hex_to_rgb(hex: &str) -> (c: Option<Rgb8>)
    requires
        fields_on_boundaries(hex.spec_bytes()),
    ensures
        c == hex_rgb(hex.spec_bytes()),
{
    let bytes = hex.as_bytes();
    let i = hash_prefix_len(bytes);
    if bytes.len() - i != 6 {
        return None;
    }
    let r = byte_value(bytes[i], bytes[i + 1]);
    let g = byte_value(bytes[i + 2], bytes[i + 3]);
    let b = byte_value(bytes[i + 4], bytes[i + 5]);
    match (r, g, b) {
        (Some(r), Some(g), Some(b)) => Some(Rgb8 { r, g, b }),
        _ => None,
    }
}

/// Reads a theme colour (see `theme_rgb`).
pub fn parse_hex_color(hex: &str) -> (c: Rgb8)
    requires
        fields_on_boundaries(hex.spec_bytes()),
    ensures
        c == theme_rgb(hex.spec_bytes()),
{
    let bytes = hex.as_bytes();
    let i = hash_prefix_len(bytes);
    if bytes.len() - i != 6 {
        return Rgb8 { r: 255, g: 255, b: 255 };
    }
    let r = match byte_value(bytes[i], bytes[i + 1]) {
        Some(v) => v,
        None => 255,
    };
    let g = match byte_value(bytes[i + 2], bytes[i + 3]) {
        Some(v) => v,
        None => 255,
    };
    let b = match byte_value(bytes[i + 4], bytes[i + 5]) {
        Some(v) => v,
        None => 255,
    };
    Rgb8 { r, g, b }
}

fn hex_digit_str(d: u8) -> (s: &'static str)
    requires
        d < 16,
    ensures
        s@ == seq![hex_char(d as int)],
{
    proof {
        reveal_strlit("0");
        reveal_strlit("1");
        reveal_strlit("2");
        reveal_strlit("3");
        reveal_strlit("4");
        reveal_strlit("5");
        reveal_strlit("6");
        reveal_strlit("7");
        reveal_strlit("8");
        reveal_strlit("9");
        reveal_strlit("a");
        reveal_strlit("b");
        reveal_strlit("c");
        reveal_strlit("d");
        reveal_strlit("e");
        reveal_strlit("f");
    }
    if d == 0 {
        "0"
    } else if d == 1 {
        "1"
    } else if d == 2 {
        "2"
    } else if d == 3 {
        "3"
    } else if d == 4 {
        "4"
    } else if d == 5 {
        "5"
    } else if d == 6 {
        "6"
    } else if d == 7 {
        "7"
    } else if d == 8 {
        "8"
    } else if d == 9 {
        "9"
    } else if d == 10 {
        "a"
    } else if d == 11 {
        "b"
    } else if d == 12 {
        "c"
    } else if d == 13 {
        "d"
    } else if d == 14 {
        "e"
    } else {
        "f"
    }
}

fn push_hex2(s: &mut String, n: u8)
    ensures
        final(s)@ == old(s)@ + hex2(n),
{
    s.append(hex_digit_str(n / 16));
    s.append(hex_digit_str(n % 16));
    proof {
        assert(final(s)@ =~= old(s)@ + hex2(n));
    }
}

/// `#rrggbb` in lower case (the `{:02x}` format).
pub fn rgb_to_hex(c: Rgb8) -> (s: String)
    ensures
        s@ == rgb_hex(c),
{
    let mut s = String::from_str("#");
    proof {
        reveal_strlit("#");
    }
    push_hex2(&mut s, c.r);
    push_hex2(&mut s, c.g);
    push_hex2(&mut s, c.b);
    proof {
        assert(s@ =~= rgb_hex(c));
    }
    s
}

proof fn lemma_hex2_digits(n: u8)
    ensures
        hex_byte_value(hex_char((n / 16) as int) as u8, hex_char((n % 16) as int) as u8) == Some(n),
        hex_char((n / 16) as int) as u8 != 43,
        !continues_char(hex_char((n / 16) as int) as u8),
        '\0' <= hex_char((n / 16) as int) <= '\u{7f}',
        '\0' <= hex_char((n % 16) as int) <= '\u{7f}',
{
}

/// Formatting a colour and reading it back gives the colour.
pub proof fn lemma_hex_roundtrip(c: Rgb8)
    ensures
        hex_rgb(encode_utf8(rgb_hex(c))) == Some(c),
        fields_on_boundaries(encode_utf8(rgb_hex(c))),
{
    let s = rgb_hex(c);
    lemma_hex2_digits(c.r);
    lemma_hex2_digits(c.g);
    lemma_hex2_digits(c.b);
    assert(s.len() == 7);
    assert(is_ascii_chars(s));
    is_ascii_chars_encode_utf8(s);
    let b = encode_utf8(s);
    assert(b[0] == 35);
    assert(b.drop_first().len() == 6);
    assert(b.drop_first()[0] != 35);
    assert(strip_hashes(b.drop_first()) == b.drop_first());
    assert(strip_hashes(b) == b.drop_first());
}

} // verus!
