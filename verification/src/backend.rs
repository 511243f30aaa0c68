//! The integer side of the hand-drawn backend's colors: reading a `#hex`
//! color into its red, green, blue and alpha bytes, and writing bytes back as
//! `#rrggbb`.

use vstd::prelude::*;
use crate::strings::push_char;
use vstd::utf8::{encode_utf8, is_ascii_chars, is_ascii_chars_encode_utf8};

verus! {

/// The value of an ASCII hexadecimal digit byte.
pub open spec fn hex_value(b: u8) -> Option<u8> {
    if 0x30 <= b && b <= 0x39 {
        Some((b - 0x30) as u8)
    } else if 0x61 <= b && b <= 0x66 {
        Some((b - 0x61 + 10) as u8)
    } else if 0x41 <= b && b <= 0x46 {
        Some((b - 0x41 + 10) as u8)
    } else {
        None
    }
}

/// Unsigned hexadecimal digits read into a byte (for at most two digits no
/// overflow is possible); `None` when a byte is not a digit.
pub open spec fn digits_value(d: Seq<u8>) -> Option<u8>
    decreases d.len(),
{
    if d.len() == 0 {
        Some(0)
    } else {
        match (digits_value(d.drop_last()), hex_value(d.last())) {
            (Some(v), Some(x)) => Some((v * 16 + x) as u8),
            _ => None,
        }
    }
}

/// One color component as `u8::from_str_radix(s, 16).unwrap_or(0)` reads at
/// most two bytes: an optional leading `+`, then hexadecimal digits; anything
/// unreadable (nothing at all, a lone `+`, a non-digit) gives 0.
pub open spec fn component(s: Seq<u8>) -> u8 {
    let d = if s.len() > 0 && s[0] == 0x2b {
        s.drop_first()
    } else {
        s
    };
    if s.len() == 0 || d.len() == 0 {
        0
    } else {
        match digits_value(d) {
            Some(v) => v,
            None => 0,
        }
    }
}

/// The bytes of a color after an optional leading `#`.
pub open spec fn color_digits(bytes: Seq<u8>) -> Seq<u8> {
    if bytes.len() > 0 && bytes[0] == 0x23 {
        bytes.drop_first()
    } else {
        bytes
    }
}

/// A byte that begins a character (is not a UTF-8 continuation byte): a
/// string may be cut before it.
pub open spec fn starts_char(b: u8) -> bool {
    !(0x80 <= b && b < 0xc0)
}

/// The cuts the color reader makes fall between characters: after one and two
/// bytes for three digits, after two and four for six, after two, four and
/// six for eight.
pub open spec fn color_cuts_ok(h: Seq<u8>) -> bool {
    &&& h.len() == 3 ==> starts_char(h[1]) && starts_char(h[2])
    &&& h.len() == 6 ==> starts_char(h[2]) && starts_char(h[4])
    &&& h.len() == 8 ==> starts_char(h[2]) && starts_char(h[4]) && starts_char(h[6])
}

/// The red, green, blue and alpha bytes of a `#rgb`, `#rrggbb` or
/// `#rrggbbaa` color (each short digit doubled; alpha 255 unless given);
/// opaque black for any other length. Components that do not read as hex
/// give 0.
pub open spec fn color_bytes(bytes: Seq<u8>) -> (u8, u8, u8, u8) {
    let h = color_digits(bytes);
    if h.len() == 3 {
        (
            component(seq![h[0], h[0]]),
            component(seq![h[1], h[1]]),
            component(seq![h[2], h[2]]),
            255,
        )
    } else if h.len() == 6 {
        (
            component(h.subrange(0, 2)),
            component(h.subrange(2, 4)),
            component(h.subrange(4, 6)),
            255,
        )
    } else if h.len() == 8 {
        (
            component(h.subrange(0, 2)),
            component(h.subrange(2, 4)),
            component(h.subrange(4, 6)),
            component(h.subrange(6, 8)),
        )
    } else {
        (0, 0, 0, 255)
    }
}

fn hex_digit_value(b: u8) -> (r: Option<u8>)
    ensures
        r == hex_value(b),
{
    if 0x30 <= b && b <= 0x39 {
        Some(b - 0x30)
    } else if 0x61 <= b && b <= 0x66 {
        Some(b - 0x61 + 10)
    } else if 0x41 <= b && b <= 0x46 {
        Some(b - 0x41 + 10)
    } else {
        None
    }
}

/// Read one component of one or two bytes.
fn read_component(s: &[u8]) -> (r: u8)
    requires
        1 <= s@.len() <= 2,
    ensures
        r == component(s@),
{
    let start: usize = if s[0] == 0x2b {
        1
    } else {
        0
    };
    if start == s.len() {
        return 0;
    }
    let ghost d = s@.subrange(start as int, s@.len() as int);
    proof {
        if start == 1 {
            assert(d =~= s@.drop_first());
        } else {
            assert(d =~= s@);
        }
    }
    let mut v: u8 = 0;
    let mut k = start;
    while k < s.len()
        invariant
            start <= k <= s@.len() <= 2,
            start == (if s@[0] == 0x2b { 1usize } else { 0usize }),
            d == s@.subrange(start as int, s@.len() as int),
            d == (if s@[0] == 0x2b { s@.drop_first() } else { s@ }),
            d.len() > 0,
            digits_value(s@.subrange(start as int, k as int)) == Some(v),
            k - start <= 1 ==> v < 16,
        decreases s@.len() - k,
    {
        proof {
            assert(s@.subrange(start as int, k + 1).drop_last() =~= s@.subrange(
                start as int,
                k as int,
            ));
        }
        match hex_digit_value(s[k]) {
            Some(x) => {
                v = v * 16 + x;
            },
            None => {
                proof {
                    assert(s@.subrange(start as int, k + 1).last() == s@[k as int]);
                    assert(digits_value(s@.subrange(start as int, k + 1)) is None);
                    assert(d =~= s@.subrange(start as int, k + 1) + s@.subrange(
                        k + 1,
                        s@.len() as int,
                    ));
                    lemma_digits_stuck(s@.subrange(start as int, k + 1), s@.subrange(
                        k + 1,
                        s@.len() as int,
                    ));
                }
                return 0;
            },
        }
        k += 1;
    }
    proof {
        assert(s@.subrange(start as int, s@.len() as int) =~= d);
    }
    v
}

/// Digits that cannot be read stay unreadable whatever follows them.
proof fn lemma_digits_stuck(a: Seq<u8>, b: Seq<u8>)
    requires
        digits_value(a) is None,
    ensures
        digits_value(a + b) is None,
    decreases b.len(),
{
    if b.len() > 0 {
        lemma_digits_stuck(a, b.drop_last());
        assert((a + b).drop_last() =~= a + b.drop_last());
    } else {
        assert(a + b =~= a);
    }
}

/// The red, green, blue and alpha bytes of a hex color (the reading the
/// hand-drawn backend colors its strokes and fills with).
pub fn color_rgba(c: &str) -> (r: (u8, u8, u8, u8))
    requires
        color_cuts_ok(color_digits(encode_utf8(c@))),
    ensures
        r == color_bytes(encode_utf8(c@)),
{
    let all = c.as_bytes();
    let start: usize = if all.len() > 0 && all[0] == 0x23 {
        1
    } else {
        0
    };
    let n = all.len() - start;
    let ghost h = color_digits(encode_utf8(c@));
    proof {
        if start == 1 {
            assert(h =~= all@.subrange(1, all@.len() as int));
        } else {
            assert(h =~= all@.subrange(0, all@.len() as int));
        }
    }
    if n == 3 {
        let r = read_component(&[all[start], all[start]]);
        let g = read_component(&[all[start + 1], all[start + 1]]);
        let b = read_component(&[all[start + 2], all[start + 2]]);
        proof {
            assert(h[0] == all@[start as int] && h[1] == all@[start + 1] && h[2] == all@[start + 2]);
        }
        (r, g, b, 255)
    } else if n == 6 || n == 8 {
        let r = read_component(&[all[start], all[start + 1]]);
        let g = read_component(&[all[start + 2], all[start + 3]]);
        let b = read_component(&[all[start + 4], all[start + 5]]);
        let a = if n == 8 {
            read_component(&[all[start + 6], all[start + 7]])
        } else {
            255
        };
        proof {
            assert(h.subrange(0, 2) =~= seq![all@[start as int], all@[start + 1]]);
            assert(h.subrange(2, 4) =~= seq![all@[start + 2], all@[start + 3]]);
            assert(h.subrange(4, 6) =~= seq![all@[start + 4], all@[start + 5]]);
            if n == 8 {
                assert(h.subrange(6, 8) =~= seq![all@[start + 6], all@[start + 7]]);
            }
        }
        (r, g, b, a)
    } else {
        (0, 0, 0, 255)
    }
}

/// The lower-case hex digit for a value below 16.
pub open spec fn nibble_char(d: u8) -> char {
    if d < 10 {
        ((('0' as u8) + d) as u8) as char
    } else {
        ((('a' as u8) + d - 10) as u8) as char
    }
}

/// `#rrggbb` in lower-case hex (each byte as `{:02x}` writes it).
pub open spec fn rgb_text(r: u8, g: u8, b: u8) -> Seq<char> {
    seq![
        '#',
        nibble_char(r / 16),
        nibble_char(r % 16),
        nibble_char(g / 16),
        nibble_char(g % 16),
        nibble_char(b / 16),
        nibble_char(b % 16),
    ]
}

fn nibble(d: u8) -> (c: char)
    requires
        d < 16,
    ensures
        c == nibble_char(d),
{
    if d < 10 {
        (('0' as u8) + d) as char
    } else {
        (('a' as u8) + d - 10) as char
    }
}

/// Write red, green and blue bytes as a `#rrggbb` color.
pub fn rgb_hex(r: u8, g: u8, b: u8) -> (s: String)
    ensures
        s@ == rgb_text(r, g, b),
{
    let mut s = String::new();
    push_char(&mut s, '#');
    push_char(&mut s, nibble(r / 16));
    push_char(&mut s, nibble(r % 16));
    push_char(&mut s, nibble(g / 16));
    push_char(&mut s, nibble(g % 16));
    push_char(&mut s, nibble(b / 16));
    push_char(&mut s, nibble(b % 16));
    proof {
        assert(s@ =~= rgb_text(r, g, b));
    }
    s
}


/// A lower-case hexadecimal digit character.
pub open spec fn is_lower_hex_char(c: char) -> bool {
    ('0' <= c && c <= '9') || ('a' <= c && c <= 'f')
}

/// A `#rrggbb` color in lower case.
pub open spec fn lower_rrggbb(c: Seq<char>) -> bool {
    &&& c.len() == 7
    &&& c[0] == '#'
    &&& forall|i: int| 1 <= i < 7 ==> is_lower_hex_char(#[trigger] c[i])
}

proof fn lemma_digit_round_trip(c: char)
    requires
        is_lower_hex_char(c),
    ensures
        hex_value(c as u8) is Some,
        hex_value(c as u8)->0 < 16,
        nibble_char(hex_value(c as u8)->0) == c,
{
}

proof fn lemma_pair_value(b0: u8, b1: u8)
    requires
        hex_value(b0) is Some,
        hex_value(b1) is Some,
        hex_value(b0)->0 < 16,
        hex_value(b1)->0 < 16,
    ensures
        component(seq![b0, b1]) == hex_value(b0)->0 * 16 + hex_value(b1)->0,
{
    let d = seq![b0, b1];
    let x0 = hex_value(b0)->0;
    let x1 = hex_value(b1)->0;
    assert(d.drop_last() =~= seq![b0]);
    assert(seq![b0].drop_last() =~= Seq::<u8>::empty());
    assert(digits_value(Seq::<u8>::empty()) == Some(0u8));
    assert(seq![b0].last() == b0);
    assert(digits_value(seq![b0]) == Some(x0));
    assert(d.last() == b1);
    assert(digits_value(d) == Some((x0 * 16 + x1) as u8));
    assert(b0 != 0x2b);
    assert(d[0] == b0 && d.len() == 2);
}

proof fn lemma_split_byte(x: u8, y: u8)
    requires
        x < 16,
        y < 16,
    ensures
        ((x * 16 + y) as u8) / 16 == x,
        ((x * 16 + y) as u8) % 16 == y,
{
    assert(((x * 16 + y) as u8) / 16 == x && ((x * 16 + y) as u8) % 16 == y) by (bit_vector)
        requires
            x < 16,
            y < 16,
    ;
}

/// Reading a lower-case `#rrggbb` color and writing its red, green and blue
/// bytes back gives the same color.
pub proof fn lemma_color_round_trip(c: Seq<char>)
    requires
        lower_rrggbb(c),
    ensures
        ({
            let (r, g, b, a) = color_bytes(encode_utf8(c));
            rgb_text(r, g, b) == c && a == 255
        }),
{
    assert(is_ascii_chars(c)) by {
        assert forall|i: int| 0 <= i < c.len() implies '\0' <= #[trigger] c[i] <= '\u{7f}' by {
            if i > 0 {
                assert(is_lower_hex_char(c[i]));
            }
        }
    }
    is_ascii_chars_encode_utf8(c);
    let bytes = encode_utf8(c);
    assert(bytes[0] == c[0] as u8);
    let h = color_digits(bytes);
    assert(h =~= bytes.drop_first());
    assert forall|i: int| 0 <= i < 6 implies #[trigger] h[i] == c[i + 1] as u8 by {
        assert(bytes[i + 1] == c[i + 1] as u8);
    }
    assert(is_lower_hex_char(c[1]) && is_lower_hex_char(c[2]) && is_lower_hex_char(c[3]));
    assert(is_lower_hex_char(c[4]) && is_lower_hex_char(c[5]) && is_lower_hex_char(c[6]));
    lemma_digit_round_trip(c[1]);
    lemma_digit_round_trip(c[2]);
    lemma_digit_round_trip(c[3]);
    lemma_digit_round_trip(c[4]);
    lemma_digit_round_trip(c[5]);
    lemma_digit_round_trip(c[6]);
    assert(h.subrange(0, 2) =~= seq![h[0], h[1]]);
    assert(h.subrange(2, 4) =~= seq![h[2], h[3]]);
    assert(h.subrange(4, 6) =~= seq![h[4], h[5]]);
    lemma_pair_value(h[0], h[1]);
    lemma_pair_value(h[2], h[3]);
    lemma_pair_value(h[4], h[5]);
    let x0 = hex_value(h[0])->0;
    let x1 = hex_value(h[1])->0;
    let x2 = hex_value(h[2])->0;
    let x3 = hex_value(h[3])->0;
    let x4 = hex_value(h[4])->0;
    let x5 = hex_value(h[5])->0;
    lemma_split_byte(x0, x1);
    lemma_split_byte(x2, x3);
    lemma_split_byte(x4, x5);
    let (r, g, b, a) = color_bytes(bytes);
    assert(r == (x0 * 16 + x1) as u8);
    assert(g == (x2 * 16 + x3) as u8);
    assert(b == (x4 * 16 + x5) as u8);
    assert(rgb_text(r, g, b) =~= c);
}

} // verus!
