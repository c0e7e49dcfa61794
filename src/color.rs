use vstd::prelude::*;

use crate::error::AppError;
use crate::text::{chars_of, digit_value, hex_digit_value, is_hex_digit};

verus! {

/// A foreground color; the alpha of each pixel comes from coverage instead.
#[derive(Debug, Clone, Copy, PartialEq, Eq)]
pub struct Color {
    /// Red component
    pub red: u8,
    /// Green component
    pub green: u8,
    /// Blue component
    pub blue: u8,
}

/// `s` is written `#rrggbb`, with hex digits of either case.
pub open spec fn is_color_text(s: Seq<char>) -> bool {
    s.len() == 7 && s[0] == '#' && forall|i: int| 1 <= i < 7 ==> is_hex_digit(#[trigger] s[i])
}

/// The byte spelled by the two hex digits at `s[i]` and `s[i + 1]`.
pub open spec fn hex_byte_at(s: Seq<char>, i: int) -> nat {
    hex_digit_value(s[i]) * 16 + hex_digit_value(s[i + 1])
}

fn byte_at(v: &Vec<char>, i: usize) -> (r: u8)
    requires
        i < 7,
        i + 1 < v@.len(),
        is_hex_digit(v@[i as int]),
        is_hex_digit(v@[i + 1]),
    ensures
        r as nat == hex_byte_at(v@, i as int),
{
    digit_value(v[i]) * 16 + digit_value(v[i + 1])
}

impl Color {
    /// Reads a color written `#rrggbb`.
    ///
    /// Fails with `ColorParseError`, holding the text, on anything else.
    pub fn parse(s: &str) -> (r: Result<Color, AppError>)
        ensures
            is_color_text(s@) ==> r is Ok && r->Ok_0.red as nat == hex_byte_at(s@, 1)
                && r->Ok_0.green as nat == hex_byte_at(s@, 3) && r->Ok_0.blue as nat
                == hex_byte_at(s@, 5),
            !is_color_text(s@) ==> r is Err && r->Err_0 is ColorParseError
                && r->Err_0->ColorParseError_0@ == s@,
    {
        let v = chars_of(s);
        if v.len() != 7 || v[0] != '#' {
            return Err(AppError::ColorParseError(s.to_owned()));
        }
        let mut i: usize = 1;
        while i < 7
            invariant
                1 <= i <= 7,
                v@ == s@,
                v@.len() == 7,
                forall|j: int| 1 <= j < i ==> is_hex_digit(#[trigger] v@[j]),
            decreases 7 - i,
        {
            let c = v[i];
            if !(('0' <= c && c <= '9') || ('a' <= c && c <= 'f') || ('A' <= c && c <= 'F')) {
                return Err(AppError::ColorParseError(s.to_owned()));
            }
            i = i + 1;
        }
        Ok(Color { red: byte_at(&v, 1), green: byte_at(&v, 3), blue: byte_at(&v, 5) })
    }
}

impl core::str::FromStr for Color {
    type Err = AppError;

    fn from_str(s: &str) -> Result<Self, Self::Err> {
        Color::parse(s)
    }
}

} // verus!
