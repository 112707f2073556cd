//! Hex color string conversion.
//!
//! A hex color is a 3-digit (`#RGB`) or 6-digit (`#RRGGBB`) string of
//! hex digits, with or without leading `#` markers; the 3-digit form
//! doubles each digit. Anything else is rejected.

use vstd::prelude::*;

use crate::color::Rgb;
use crate::error::DitherError;

verus! {

pub open spec fn is_hex_digit(c: char) -> bool {
    (48 <= c as u32 <= 57) || (65 <= c as u32 <= 70) || (97 <= c as u32 <= 102)
}

/// Value of one hex digit; digits beyond 9 may be upper or lower case.
pub open spec fn hex_digit_value(c: char) -> int {
    if 48 <= c as u32 <= 57 {
        c as u32 - 48
    } else if 65 <= c as u32 <= 70 {
        c as u32 - 55
    } else {
        c as u32 - 87
    }
}

/// Drop every leading `#` marker.
pub open spec fn strip_marks(s: Seq<char>) -> Seq<char>
    decreases s.len(),
{
    if s.len() > 0 && s[0] == '#' {
        strip_marks(s.subrange(1, s.len() as int))
    } else {
        s
    }
}

/// Double each digit of a 3-digit shorthand; leave other lengths alone.
pub open spec fn expand_shorthand(s: Seq<char>) -> Seq<char> {
    if s.len() == 3 {
        seq![s[0], s[0], s[1], s[1], s[2], s[2]]
    } else {
        s
    }
}

/// The canonical 6-digit form of a hex color string.
pub open spec fn hex_body(s: Seq<char>) -> Seq<char> {
    expand_shorthand(strip_marks(s))
}

pub open spec fn hex6_valid(s: Seq<char>) -> bool {
    s.len() == 6 && is_hex_digit(s[0]) && is_hex_digit(s[1]) && is_hex_digit(s[2]) && is_hex_digit(
        s[3],
    ) && is_hex_digit(s[4]) && is_hex_digit(s[5])
}

pub open spec fn hex_pair_value(c1: char, c2: char) -> int {
    16 * hex_digit_value(c1) + hex_digit_value(c2)
}

/// The color has exactly the channel values a hex color string names.
pub open spec fn rgb_matches_hex(c: Rgb, s: Seq<char>) -> bool {
    let e = hex_body(s);
    c.0[0] as int == hex_pair_value(e[0], e[1]) && c.0[1] as int == hex_pair_value(e[2], e[3])
        && c.0[2] as int == hex_pair_value(e[4], e[5])
}

/// Parse one hex digit.
pub fn hex_digit(c: char) -> (r: Option<u8>)
    ensures
        r is Some <==> is_hex_digit(c),
        r matches Some(v) ==> v as int == hex_digit_value(c) && v < 16,
{
    let u = c as u32;
    if 48 <= u && u <= 57 {
        Some((u - 48) as u8)
    } else if 65 <= u && u <= 70 {
        Some((u - 55) as u8)
    } else if 97 <= u && u <= 102 {
        Some((u - 87) as u8)
    } else {
        None
    }
}

proof fn lemma_strip_marks_at(s: Seq<char>, i: int)
    requires
        0 <= i <= s.len(),
        forall|k: int| 0 <= k < i ==> s[k] == '#',
        i == s.len() || s[i] != '#',
    ensures
        strip_marks(s) =~= s.subrange(i, s.len() as int),
    decreases i,
{
    if i == 0 {
        assert(s.subrange(0, s.len() as int) =~= s);
    } else {
        let t = s.subrange(1, s.len() as int);
        lemma_strip_marks_at(t, i - 1);
        assert(t.subrange(i - 1, t.len() as int) =~= s.subrange(i, s.len() as int));
    }
}

/// Convert a hex color string to RGB channel values.
///
/// Succeeds exactly when the string, after the leading markers are
/// dropped and a 3-digit shorthand is doubled, is 6 hex digits.
pub fn hex_to_rgb(hex: &str) -> (r: Result<[u8; 3], DitherError>)
    ensures
        r is Ok <==> hex6_valid(hex_body(hex@)),
        r matches Ok(c) ==> {
            let e = hex_body(hex@);
            c[0] as int == hex_pair_value(e[0], e[1]) && c[1] as int == hex_pair_value(e[2], e[3])
                && c[2] as int == hex_pair_value(e[4], e[5])
        },
{
    let n = hex.unicode_len();
    let mut j: usize = 0;
    while j < n && hex.get_char(j) == '#'
        invariant
            0 <= j <= n,
            n == hex@.len(),
            forall|k: int| 0 <= k < j ==> hex@[k] == '#',
        decreases n - j,
    {
        j = j + 1;
    }
    proof {
        lemma_strip_marks_at(hex@, j as int);
    }
    let rem = n - j;
    if rem == 3 {
        let c0 = hex.get_char(j);
        let c1 = hex.get_char(j + 1);
        let c2 = hex.get_char(j + 2);
        proof {
            assert(strip_marks(hex@)[0] == hex@[j as int]);
            assert(strip_marks(hex@)[1] == hex@[j + 1]);
            assert(strip_marks(hex@)[2] == hex@[j + 2]);
        }
        match (hex_digit(c0), hex_digit(c1), hex_digit(c2)) {
            (Some(v0), Some(v1), Some(v2)) => Ok([17 * v0, 17 * v1, 17 * v2]),
            _ => Err(DitherError::InvalidHexColor),
        }
    } else if rem == 6 {
        let c0 = hex.get_char(j);
        let c1 = hex.get_char(j + 1);
        let c2 = hex.get_char(j + 2);
        let c3 = hex.get_char(j + 3);
        let c4 = hex.get_char(j + 4);
        let c5 = hex.get_char(j + 5);
        proof {
            assert forall|k: int| 0 <= k < 6 implies strip_marks(hex@)[k] == hex@[j + k] by {}
        }
        match (hex_digit(c0), hex_digit(c1), hex_digit(c2), hex_digit(c3), hex_digit(c4), hex_digit(
            c5,
        )) {
            (Some(v0), Some(v1), Some(v2), Some(v3), Some(v4), Some(v5)) => Ok(
                [16 * v0 + v1, 16 * v2 + v3, 16 * v4 + v5],
            ),
            _ => Err(DitherError::InvalidHexColor),
        }
    } else {
        Err(DitherError::InvalidHexColor)
    }
}

/// The upper-case hex digit for a value below 16.
pub open spec fn hex_digit_char(v: int) -> char {
    if v == 0 {
        '0'
    } else if v == 1 {
        '1'
    } else if v == 2 {
        '2'
    } else if v == 3 {
        '3'
    } else if v == 4 {
        '4'
    } else if v == 5 {
        '5'
    } else if v == 6 {
        '6'
    } else if v == 7 {
        '7'
    } else if v == 8 {
        '8'
    } else if v == 9 {
        '9'
    } else if v == 10 {
        'A'
    } else if v == 11 {
        'B'
    } else if v == 12 {
        'C'
    } else if v == 13 {
        'D'
    } else if v == 14 {
        'E'
    } else {
        'F'
    }
}

fn nibble_str(v: u8) -> (s: &'static str)
    requires
        v < 16,
    ensures
        s@.len() == 1,
        s@[0] == hex_digit_char(v as int),
{
    if v == 0 {
        proof {
            reveal_strlit("0");
        }
        "0"
    } else if v == 1 {
        proof {
            reveal_strlit("1");
        }
        "1"
    } else if v == 2 {
        proof {
            reveal_strlit("2");
        }
        "2"
    } else if v == 3 {
        proof {
            reveal_strlit("3");
        }
        "3"
    } else if v == 4 {
        proof {
            reveal_strlit("4");
        }
        "4"
    } else if v == 5 {
        proof {
            reveal_strlit("5");
        }
        "5"
    } else if v == 6 {
        proof {
            reveal_strlit("6");
        }
        "6"
    } else if v == 7 {
        proof {
            reveal_strlit("7");
        }
        "7"
    } else if v == 8 {
        proof {
            reveal_strlit("8");
        }
        "8"
    } else if v == 9 {
        proof {
            reveal_strlit("9");
        }
        "9"
    } else if v == 10 {
        proof {
            reveal_strlit("A");
        }
        "A"
    } else if v == 11 {
        proof {
            reveal_strlit("B");
        }
        "B"
    } else if v == 12 {
        proof {
            reveal_strlit("C");
        }
        "C"
    } else if v == 13 {
        proof {
            reveal_strlit("D");
        }
        "D"
    } else if v == 14 {
        proof {
            reveal_strlit("E");
        }
        "E"
    } else {
        proof {
            reveal_strlit("F");
        }
        "F"
    }
}

/// The `#RRGGBB` form of a color, upper-case digits.
pub open spec fn spec_rgb_to_hex(c: Rgb) -> Seq<char> {
    seq![
        '#',
        hex_digit_char(c.0[0] as int / 16),
        hex_digit_char(c.0[0] as int % 16),
        hex_digit_char(c.0[1] as int / 16),
        hex_digit_char(c.0[1] as int % 16),
        hex_digit_char(c.0[2] as int / 16),
        hex_digit_char(c.0[2] as int % 16),
    ]
}

/// Convert RGB to its 6-digit hex string.
pub fn rgb_to_hex(rgb: &Rgb) -> (s: String)
    ensures
        s@ =~= spec_rgb_to_hex(*rgb),
{
    proof {
        reveal_strlit("#");
    }
    let mut s = String::from_str("#");
    s.append(nibble_str(rgb.0[0] / 16));
    s.append(nibble_str(rgb.0[0] % 16));
    s.append(nibble_str(rgb.0[1] / 16));
    s.append(nibble_str(rgb.0[1] % 16));
    s.append(nibble_str(rgb.0[2] / 16));
    s.append(nibble_str(rgb.0[2] % 16));
    s
}

} // verus!
