use vstd::prelude::*;

use crate::error::AppError;
use crate::text::{
    ascii_lower, chars_of, hex_digit_value, is_lower_hex_digit, lower_ascii, remove_pair,
    string_of, without_pair,
};

verus! {

#[verifier::external_type_specification]
#[verifier::external_body]
pub struct ExHexStringError(hex_string::HexStringError);

/// `v` is a Unicode scalar value: a code point that is not a surrogate.
pub open spec fn is_scalar_value(v: int) -> bool {
    (0 <= v && v <= 0xD7FF) || (0xE000 <= v && v <= 0x10FFFF)
}

/// The bytes that a string of hex digit pairs stands for, first pair first.
pub open spec fn hex_pairs(s: Seq<char>) -> Seq<u8> {
    Seq::new(
        s.len() / 2,
        |i: int| (hex_digit_value(s[2 * i]) * 16 + hex_digit_value(s[2 * i + 1])) as u8,
    )
}

/// The number that bytes spell, most significant byte first.
pub open spec fn be_value(b: Seq<u8>) -> nat
    decreases b.len(),
{
    if b.len() == 0 {
        0
    } else {
        (be_value(b.drop_last()) * 256 + b.last()) as nat
    }
}

/// Relies on `hex_string::HexString::from_string`, which accepts exactly the
/// strings of an even length made of the digits `0-9a-f`, and on
/// `HexString::as_bytes`, which reads each pair of digits as one byte.
#[verifier::external_body]
fn hex_to_bytes(s: &str) -> (r: Result<Vec<u8>, hex_string::HexStringError>)
    ensures
        r is Ok <==> (s@.len() % 2 == 0 && forall|i: int|
            0 <= i < s@.len() ==> is_lower_hex_digit(#[trigger] s@[i])),
        r is Ok ==> r->Ok_0@ == hex_pairs(s@),
{
    match hex_string::HexString::from_string(s) {
        Ok(h) => Ok(h.as_bytes()),
        Err(e) => Err(e),
    }
}

/// Relies on `char::from_u32`, which returns the character exactly when the
/// number is a Unicode scalar value.
#[verifier::external_body]
pub(crate) fn scalar_from_u32(v: u32) -> (r: Option<char>)
    ensures
        r is Some <==> is_scalar_value(v as int),
        r is Some ==> r->0 as int == v as int,
{
    char::from_u32(v)
}

/// The hex digits of a scalar value argument: every `0x` and then every `U+`
/// removed, and letters made lower-case.
pub open spec fn scalar_digits(s: Seq<char>) -> Seq<char> {
    without_pair(without_pair(s, '0', 'x'), 'U', '+').map_values(|c: char| ascii_lower(c))
}

/// The digits form whole lower-case hex pairs.
pub open spec fn is_hex_pairs(d: Seq<char>) -> bool {
    d.len() % 2 == 0 && forall|i: int| 0 <= i < d.len() ==> is_lower_hex_digit(#[trigger] d[i])
}

/// The code point that a scalar value argument names, if it names one: its
/// digits, read as one to four bytes, most significant first.
pub open spec fn scalar_value_of(s: Seq<char>) -> Option<nat> {
    let d = scalar_digits(s);
    if !is_hex_pairs(d) {
        None
    } else {
        let b = hex_pairs(d);
        if b.len() == 0 || b.len() > 4 || !is_scalar_value(be_value(b) as int) {
            None
        } else {
            Some(be_value(b))
        }
    }
}

proof fn lemma_be_value_bound(b: Seq<u8>)
    requires
        b.len() <= 4,
    ensures
        be_value(b) < 0x1_0000_0000,
    decreases b.len(),
{
    if b.len() > 0 {
        lemma_be_value_bound_len(b);
    }
}

proof fn lemma_be_value_bound_len(b: Seq<u8>)
    ensures
        b.len() == 0 ==> be_value(b) < 1,
        b.len() == 1 ==> be_value(b) < 0x100,
        b.len() == 2 ==> be_value(b) < 0x1_0000,
        b.len() == 3 ==> be_value(b) < 0x100_0000,
        b.len() == 4 ==> be_value(b) < 0x1_0000_0000,
    decreases b.len(),
{
    if b.len() > 0 {
        lemma_be_value_bound_len(b.drop_last());
    }
}

/// A single Unicode scalar value given on the command line.
#[derive(Debug, Clone, Copy, PartialEq, Eq)]
pub struct UnicodeValue {
    pub character: char,
}

impl UnicodeValue {
    /// Reads a scalar value written in hex, optionally prefixed with `0x` or
    /// `U+`, as whole pairs of digits (`0x0041`, `U+00e9`).
    ///
    /// Fails with `HexStringError` when the digits are not whole pairs of hex
    /// digits, and with `OutOfRangeUnicode` when there are none, when they
    /// spell more than four bytes, or when they spell a number that is no
    /// Unicode scalar value.
    pub fn parse(s: &str) -> (r: Result<UnicodeValue, AppError>)
        ensures
            r is Ok <==> scalar_value_of(s@) is Some,
            r is Ok ==> r->Ok_0.character as nat == scalar_value_of(s@)->0,
            !is_hex_pairs(scalar_digits(s@)) ==> r is Err && r->Err_0 is HexStringError,
            is_hex_pairs(scalar_digits(s@)) && r is Err ==> r->Err_0 is OutOfRangeUnicode
                && r->Err_0->OutOfRangeUnicode_0@ == s@,
    {
        let chars = chars_of(s);
        let no_hex_prefix = remove_pair(&chars, '0', 'x');
        let no_prefix = remove_pair(&no_hex_prefix, 'U', '+');
        let digits_vec = lower_ascii(&no_prefix);
        let digits = string_of(&digits_vec, 0, digits_vec.len());
        proof {
            assert(digits_vec@.subrange(0, digits_vec@.len() as int) =~= digits_vec@);
        }
        let bytes = match hex_to_bytes(digits.as_str()) {
            Ok(b) => b,
            Err(e) => return Err(AppError::from(e)),
        };
        if bytes.len() == 0 || bytes.len() > 4 {
            return Err(AppError::OutOfRangeUnicode(s.to_owned()));
        }
        let mut value: u64 = 0;
        let mut i: usize = 0;
        while i < bytes.len()
            invariant
                bytes@.len() <= 4,
                i <= bytes@.len(),
                value as nat == be_value(bytes@.subrange(0, i as int)),
            decreases bytes@.len() - i,
        {
            proof {
                lemma_be_value_bound(bytes@.subrange(0, i as int));
                assert(bytes@.subrange(0, i + 1).drop_last() =~= bytes@.subrange(0, i as int));
            }
            value = value * 256 + bytes[i] as u64;
            i = i + 1;
        }
        proof {
            assert(bytes@.subrange(0, bytes@.len() as int) =~= bytes@);
            lemma_be_value_bound(bytes@);
        }
        match scalar_from_u32(value as u32) {
            Some(c) => Ok(UnicodeValue { character: c }),
            None => Err(AppError::OutOfRangeUnicode(s.to_owned())),
        }
    }
}

impl From<hex_string::HexStringError> for AppError {
    fn from(e: hex_string::HexStringError) -> (r: AppError) {
        AppError::HexStringError(e)
    }
}

impl vstd::std_specs::convert::FromSpecImpl<hex_string::HexStringError> for AppError {
    open spec fn obeys_from_spec() -> bool {
        true
    }

    open spec fn from_spec(e: hex_string::HexStringError) -> AppError {
        AppError::HexStringError(e)
    }
}

/// The error that `UnicodeValue::parse` gives for an argument it rejects:
/// `HexStringError` when the digits are not whole hex pairs, and otherwise
/// `OutOfRangeUnicode` holding the argument.
pub open spec fn is_scalar_error_for(s: Seq<char>, e: AppError) -> bool {
    if !is_hex_pairs(scalar_digits(s)) {
        e is HexStringError
    } else {
        e is OutOfRangeUnicode && e->OutOfRangeUnicode_0@ == s
    }
}

impl core::str::FromStr for UnicodeValue {
    type Err = AppError;

    fn from_str(s: &str) -> Result<Self, Self::Err> {
        UnicodeValue::parse(s)
    }
}

impl From<UnicodeValue> for char {
    fn from(item: UnicodeValue) -> (r: char) {
        item.character
    }
}

impl vstd::std_specs::convert::FromSpecImpl<UnicodeValue> for char {
    open spec fn obeys_from_spec() -> bool {
        true
    }

    open spec fn from_spec(v: UnicodeValue) -> char {
        v.character
    }
}

/// The number of non-overlapping occurrences of the pair `a b`, scanning from
/// the left.
pub open spec fn count_pair(s: Seq<char>, a: char, b: char) -> nat
    decreases s.len(),
{
    if s.len() < 2 {
        0
    } else if s[0] == a && s[1] == b {
        1 + count_pair(s.subrange(2, s.len() as int), a, b)
    } else {
        count_pair(s.drop_first(), a, b)
    }
}

/// Where the pair `a b` first occurs; the length of `s` when it does not.
pub open spec fn first_pair(s: Seq<char>, a: char, b: char) -> nat
    decreases s.len(),
{
    if s.len() < 2 {
        s.len()
    } else if s[0] == a && s[1] == b {
        0
    } else {
        1 + first_pair(s.drop_first(), a, b)
    }
}

proof fn lemma_first_pair(s: Seq<char>, a: char, b: char)
    ensures
        first_pair(s, a, b) <= s.len(),
        first_pair(s, a, b) == s.len() ==> count_pair(s, a, b) == 0,
        first_pair(s, a, b) < s.len() ==> {
            let i = first_pair(s, a, b) as int;
            &&& i + 1 < s.len()
            &&& s[i] == a
            &&& s[i + 1] == b
            &&& count_pair(s, a, b) == 1 + count_pair(s.subrange(i + 2, s.len() as int), a, b)
        },
        forall|j: int|
            0 <= j < first_pair(s, a, b) && j + 1 < s.len() ==> !(#[trigger] s[j] == a && s[j + 1]
                == b),
    decreases s.len(),
{
    if s.len() >= 2 && !(s[0] == a && s[1] == b) {
        let t = s.drop_first();
        lemma_first_pair(t, a, b);
        let i = first_pair(t, a, b) as int;
        if i < t.len() {
            assert(t.subrange(i + 2, t.len() as int) =~= s.subrange(i + 3, s.len() as int));
        }
        assert forall|j: int| 0 <= j < first_pair(s, a, b) && j + 1 < s.len() implies !(
        #[trigger] s[j] == a && s[j + 1] == b) by {
            if j > 0 {
                assert(t[j - 1] == s[j] && t[j] == s[j + 1]);
            }
        }
    }
}

/// Where the pair `a b` first occurs in `v[from..]`; `v.len()` when it does not.
fn find_pair(v: &Vec<char>, a: char, b: char, from: usize) -> (r: usize)
    requires
        from <= v@.len(),
    ensures
        r == from + first_pair(v@.subrange(from as int, v@.len() as int), a, b),
{
    let n = v.len();
    let mut i: usize = from;
    while n - i > 1 && !(v[i] == a && v[i + 1] == b)
        invariant
            from <= i <= n,
            n == v@.len(),
            first_pair(v@.subrange(from as int, n as int), a, b) == (i - from) + first_pair(
                v@.subrange(i as int, n as int),
                a,
                b,
            ),
        decreases n - i,
    {
        assert(v@.subrange(i as int, n as int).drop_first() =~= v@.subrange(i + 1, n as int));
        i = i + 1;
    }
    if n - i > 1 {
        i
    } else {
        n
    }
}

/// An inclusive range of scalar values given on the command line.
#[derive(Debug, Clone, Copy, PartialEq, Eq)]
pub struct UnicodeRange {
    /// The first scalar value of the range.
    pub start: UnicodeValue,
    /// The last scalar value of the range.
    pub end: UnicodeValue,
}

impl UnicodeRange {
    /// Reads a range written `START..END`, each end a scalar value as
    /// `UnicodeValue::parse` reads it (`0x0030..0x00ff`).
    ///
    /// Fails with `InvalidRange` unless `..` occurs exactly once, and
    /// otherwise with the error of the first end that does not parse, as
    /// `UnicodeValue::parse` gives it for that end's text.
    pub fn parse(s: &str) -> (r: Result<UnicodeRange, AppError>)
        ensures
            count_pair(s@, '.', '.') != 1 ==> r == Err::<UnicodeRange, AppError>(
                AppError::InvalidRange(),
            ),
            count_pair(s@, '.', '.') == 1 ==> {
                let i = first_pair(s@, '.', '.') as int;
                let start = scalar_value_of(s@.subrange(0, i));
                let end = scalar_value_of(s@.subrange(i + 2, s@.len() as int));
                &&& r is Ok <==> start is Some && end is Some
                &&& r is Ok ==> r->Ok_0.start.character as nat == start->0
                    && r->Ok_0.end.character as nat == end->0
                &&& start is None ==> r is Err && is_scalar_error_for(
                    s@.subrange(0, i),
                    r->Err_0,
                )
                &&& start is Some && end is None ==> r is Err && is_scalar_error_for(
                    s@.subrange(i + 2, s@.len() as int),
                    r->Err_0,
                )
            },
    {
        let chars = chars_of(s);
        let n = chars.len();
        let i = find_pair(&chars, '.', '.', 0);
        proof {
            assert(chars@.subrange(0, n as int) =~= chars@);
            lemma_first_pair(s@, '.', '.');
        }
        if i >= n {
            return Err(AppError::InvalidRange());
        }
        let j = find_pair(&chars, '.', '.', i + 2);
        proof {
            lemma_first_pair(s@.subrange(i + 2, n as int), '.', '.');
        }
        if j < n {
            return Err(AppError::InvalidRange());
        }
        let start_text = string_of(&chars, 0, i);
        let end_text = string_of(&chars, i + 2, n);
        let start = match UnicodeValue::parse(start_text.as_str()) {
            Ok(v) => v,
            Err(e) => return Err(e),
        };
        let end = match UnicodeValue::parse(end_text.as_str()) {
            Ok(v) => v,
            Err(e) => return Err(e),
        };
        Ok(UnicodeRange { start, end })
    }
}

impl core::str::FromStr for UnicodeRange {
    type Err = AppError;

    fn from_str(s: &str) -> Result<Self, Self::Err> {
        UnicodeRange::parse(s)
    }
}

} // verus!
