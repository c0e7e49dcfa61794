use vstd::prelude::*;

use crate::unicode::{is_scalar_value, scalar_from_u32, UnicodeRange};

verus! {

/// The character has the Unicode `Alphabetic` property.
pub uninterp spec fn alphabetic(c: char) -> bool;

/// The character has the `Alphabetic` property or a numeric category.
pub uninterp spec fn alphanumeric(c: char) -> bool;

/// The character is in the general category "Letter, Other" (Lo).
pub uninterp spec fn letter_other(c: char) -> bool;

/// The character is in the general category "Symbol, Other" (So).
pub uninterp spec fn symbol_other(c: char) -> bool;

/// The character is in one of the punctuation categories (P*).
pub uninterp spec fn punctuation(c: char) -> bool;

/// The character is in the general category "Letter, Modifier" (Lm).
pub uninterp spec fn letter_modifier(c: char) -> bool;

/// The character is in the general category "Symbol, Modifier" (Sk).
pub uninterp spec fn symbol_modifier(c: char) -> bool;

/// The character is in one of the symbol categories (S*).
pub uninterp spec fn symbol(c: char) -> bool;

/// Relies on `char::is_alphabetic`, which tells whether the character has
/// the `Alphabetic` property.
#[verifier::external_body]
fn is_alphabetic(c: char) -> (r: bool)
    ensures
        r == alphabetic(c),
{
    c.is_alphabetic()
}

/// Relies on `char::is_alphanumeric`, which tells whether the character is
/// alphabetic or numeric.
#[verifier::external_body]
fn is_alphanumeric(c: char) -> (r: bool)
    ensures
        r == alphanumeric(c),
{
    c.is_alphanumeric()
}

/// Relies on `UnicodeCategories::is_letter_other` of unicode_categories.
#[verifier::external_body]
fn is_letter_other(c: char) -> (r: bool)
    ensures
        r == letter_other(c),
{
    unicode_categories::UnicodeCategories::is_letter_other(c)
}

/// Relies on `UnicodeCategories::is_symbol_other` of unicode_categories.
#[verifier::external_body]
fn is_symbol_other(c: char) -> (r: bool)
    ensures
        r == symbol_other(c),
{
    unicode_categories::UnicodeCategories::is_symbol_other(c)
}

/// Relies on `UnicodeCategories::is_punctuation` of unicode_categories.
#[verifier::external_body]
fn is_punctuation(c: char) -> (r: bool)
    ensures
        r == punctuation(c),
{
    unicode_categories::UnicodeCategories::is_punctuation(c)
}

/// Relies on `UnicodeCategories::is_letter_modifier` of unicode_categories.
#[verifier::external_body]
fn is_letter_modifier(c: char) -> (r: bool)
    ensures
        r == letter_modifier(c),
{
    unicode_categories::UnicodeCategories::is_letter_modifier(c)
}

/// Relies on `UnicodeCategories::is_symbol_modifier` of unicode_categories.
#[verifier::external_body]
fn is_symbol_modifier(c: char) -> (r: bool)
    ensures
        r == symbol_modifier(c),
{
    unicode_categories::UnicodeCategories::is_symbol_modifier(c)
}

/// Relies on `UnicodeCategories::is_symbol` of unicode_categories.
#[verifier::external_body]
fn is_symbol(c: char) -> (r: bool)
    ensures
        r == symbol(c),
{
    unicode_categories::UnicodeCategories::is_symbol(c)
}

/// The default filter: letters, symbols and punctuation are kept; controls,
/// separators, unassigned code points and the remaining marks are not.
pub open spec fn is_kept(c: char) -> bool {
    alphabetic(c) || alphanumeric(c) || letter_other(c) || symbol_other(c) || punctuation(c)
        || letter_modifier(c) || symbol_modifier(c) || symbol(c)
}

/// Whether the default filter keeps a character.
pub fn is_default_candidate(c: char) -> (r: bool)
    ensures
        r == is_kept(c),
{
    is_alphabetic(c) || is_alphanumeric(c) || is_letter_other(c) || is_symbol_other(c)
        || is_punctuation(c) || is_letter_modifier(c) || is_symbol_modifier(c) || is_symbol(c)
}

/// A code point is a candidate when it lies in the explicit range, if one is
/// given, and otherwise when the default filter keeps it.
pub open spec fn is_candidate(range: Option<UnicodeRange>, c: char) -> bool {
    match range {
        Some(r) => r.start.character as int <= c as int <= r.end.character as int,
        None => is_kept(c),
    }
}

/// The code points to attempt, in increasing order, each once: every scalar
/// value of the range when one is given, else every scalar value that the
/// default filter keeps.
pub fn candidate_code_points(range: Option<UnicodeRange>) -> (r: Vec<char>)
    ensures
        forall|i: int, j: int| 0 <= i < j < r@.len() ==> (r@[i] as int) < (r@[j] as int),
        forall|i: int| 0 <= i < r@.len() ==> is_candidate(range, #[trigger] r@[i]),
        forall|c: char| #[trigger] is_candidate(range, c) ==> r@.contains(c),
        forall|i: int|
            0 <= i < r@.len() ==> is_scalar_value(#[trigger] r@[i] as int),
{
    let (lo, hi): (u32, u32) = match range {
        Some(r) => (r.start.character as u32, r.end.character as u32),
        None => (0, 0x10FFFF),
    };
    let explicit = range.is_some();
    let mut out: Vec<char> = Vec::new();
    let mut v: u32 = lo;
    while v <= hi
        invariant
            hi <= 0x10FFFF,
            lo <= v,
            v <= hi + 1 || v == lo,
            explicit == range is Some,
            range is Some ==> lo == range->0.start.character as int && hi
                == range->0.end.character as int,
            range is None ==> lo == 0 && hi == 0x10FFFF,
            forall|i: int, j: int| 0 <= i < j < out@.len() ==> (out@[i] as int) < (out@[j] as int),
            forall|i: int|
                0 <= i < out@.len() ==> lo <= (#[trigger] out@[i] as int) < v && is_candidate(
                    range,
                    out@[i],
                ),
            forall|c: char|
                lo <= (c as int) < v && #[trigger] is_candidate(range, c) ==> out@.contains(c),
        decreases 0x110000 - v,
    {
        let ghost before = out@;
        let found = scalar_from_u32(v);
        let keep = match found {
            Some(c) => explicit || is_default_candidate(c),
            None => false,
        };
        if keep {
            if let Some(c) = found {
                out.push(c);
            }
        }
        proof {
            assert forall|d: char|
                lo <= (d as int) < v + 1 && #[trigger] is_candidate(range, d) implies out@.contains(
                d,
            ) by {
                lemma_char_is_scalar(d);
                if (d as int) == v {
                    assert(out@[out@.len() - 1] == d);
                } else {
                    assert(before.contains(d));
                    let k = choose|k: int| 0 <= k < before.len() && before[k] == d;
                    assert(out@[k] == d);
                }
            }
        }
        v = v + 1;
    }
    proof {
        assert forall|c: char| #[trigger] is_candidate(range, c) implies out@.contains(c) by {
            lemma_char_is_scalar(c);
        }
        assert forall|i: int| 0 <= i < out@.len() implies is_scalar_value(
            #[trigger] out@[i] as int,
        ) by {
            lemma_char_is_scalar(out@[i]);
        }
    }
    out
}

/// Every character is a Unicode scalar value.
proof fn lemma_char_is_scalar(c: char)
    ensures
        is_scalar_value(c as int),
{
}

} // verus!
