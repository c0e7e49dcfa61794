use vstd::prelude::*;

use crate::error::AppError;
use crate::text::{chars_of, hex_digit, hex_digit_value, lower_hex_digit, push_char, string_of};
use crate::unicode::hex_pairs;

verus! {

/// The UTF-16 code units of a scalar value, two of them, most significant
/// first: a value of the Basic Multilingual Plane is a zero unit followed by
/// the value itself; any other value is its high and then its low surrogate.
pub open spec fn utf16_units(c: char) -> (nat, nat) {
    let v = c as nat;
    if v < 0x10000 {
        (0, v)
    } else {
        let u = (v - 0x10000) as nat;
        ((0xD800 + u / 0x400) as nat, (0xDC00 + u % 0x400) as nat)
    }
}

/// The four bytes of `utf16_units(c)`, each unit big-endian.
pub open spec fn utf16_be_bytes(c: char) -> Seq<u8> {
    let (hi, lo) = utf16_units(c);
    seq![(hi / 256) as u8, (hi % 256) as u8, (lo / 256) as u8, (lo % 256) as u8]
}

/// Two lower-case hex digits for each byte, high digit first.
pub open spec fn hex_of_bytes(b: Seq<u8>) -> Seq<char> {
    Seq::new(
        2 * b.len(),
        |i: int|
            if i % 2 == 0 {
                lower_hex_digit((b[i / 2] / 16) as nat)
            } else {
                lower_hex_digit((b[i / 2] % 16) as nat)
            },
    )
}

/// The eight-digit identifier of a code point: its UTF-16 units as four
/// big-endian bytes in lower-case hex.
pub open spec fn hex_identifier(c: char) -> Seq<char> {
    hex_of_bytes(utf16_be_bytes(c))
}

/// The code point that an identifier stands for: its digit pairs read as two
/// big-endian UTF-16 units, a zero first unit standing for no unit at all.
pub open spec fn decode_identifier(s: Seq<char>) -> int {
    let b = hex_pairs(s);
    let hi = b[0] * 256 + b[1];
    let lo = b[2] * 256 + b[3];
    if hi == 0 {
        lo
    } else {
        0x10000 + (hi - 0xD800) * 0x400 + (lo - 0xDC00)
    }
}

/// The identifier of a code point, as `hex_identifier` states it.
pub fn convert_to_be_hex_string(unicode: char) -> (r: String)
    ensures
        r@ == hex_identifier(unicode),
{
    let v = unicode as u32;
    let (hi, lo): (u32, u32) = if v < 0x10000 {
        (0, v)
    } else {
        let u = v - 0x10000;
        (0xD800 + u / 0x400, 0xDC00 + u % 0x400)
    };
    let bytes: [u8; 4] = [(hi / 256) as u8, (hi % 256) as u8, (lo / 256) as u8, (lo % 256) as u8];
    let ghost expected = utf16_be_bytes(unicode);
    assert(bytes@ =~= expected);
    let mut r = String::new();
    let mut i: usize = 0;
    while i < 4
        invariant
            i <= 4,
            bytes@ == expected,
            r@ == hex_of_bytes(expected).subrange(0, 2 * i),
        decreases 4 - i,
    {
        let b = bytes[i];
        push_char(&mut r, hex_digit(b / 16));
        push_char(&mut r, hex_digit(b % 16));
        i = i + 1;
        assert(r@ =~= hex_of_bytes(expected).subrange(0, 2 * i));
    }
    assert(hex_of_bytes(expected).subrange(0, 8) =~= hex_of_bytes(expected));
    r
}

proof fn lemma_hex_digit_round_trip(v: nat)
    requires
        v < 16,
    ensures
        hex_digit_value(lower_hex_digit(v)) == v,
        ('0' <= lower_hex_digit(v) <= '9') || ('a' <= lower_hex_digit(v) <= 'f'),
{
}

/// Every code point has an eight-digit lower-case hex identifier, and
/// reading the identifier back as big-endian UTF-16 gives the code point.
pub proof fn lemma_hex_identifier_round_trip(c: char)
    ensures
        hex_identifier(c).len() == 8,
        forall|i: int|
            0 <= i < 8 ==> ('0' <= #[trigger] hex_identifier(c)[i] <= '9') || ('a'
                <= hex_identifier(c)[i] <= 'f'),
        decode_identifier(hex_identifier(c)) == c as int,
{
    let b = utf16_be_bytes(c);
    let s = hex_identifier(c);
    assert forall|i: int| 0 <= i < 8 implies ('0' <= #[trigger] s[i] <= '9') || ('a' <= s[i]
        <= 'f') by {
        lemma_hex_digit_round_trip((b[i / 2] / 16) as nat);
        lemma_hex_digit_round_trip((b[i / 2] % 16) as nat);
    }
    let p = hex_pairs(s);
    assert forall|k: int| 0 <= k < 4 implies p[k] == b[k] by {
        lemma_hex_digit_round_trip((b[k] / 16) as nat);
        lemma_hex_digit_round_trip((b[k] % 16) as nat);
        assert(s[2 * k] == lower_hex_digit((b[k] / 16) as nat));
        assert(s[2 * k + 1] == lower_hex_digit((b[k] % 16) as nat));
    }
    let v = c as nat;
    let (hi, lo) = utf16_units(c);
    assert(hi < 0x10000 && lo < 0x10000);
    assert(p[0] * 256 + p[1] == hi);
    assert(p[2] * 256 + p[3] == lo);
    if v >= 0x10000 {
        let u = (v - 0x10000) as nat;
        assert(u == (u / 0x400) * 0x400 + u % 0x400);
    }
}

/// The characters that follow every file name's identifier.
pub open spec fn image_suffix() -> Seq<char> {
    seq!['_', 'i', 'm', 'a', 'g', 'e', '.', 'p', 'n', 'g']
}

/// The name of a code point's image file: the last six digits of its
/// identifier, then `_image.png`.
pub open spec fn image_file_name_spec(c: char) -> Seq<char> {
    hex_identifier(c).subrange(2, 8) + image_suffix()
}

/// The name of a code point's image file, as `image_file_name_spec` states it.
pub fn image_file_name(unicode: char) -> (r: String)
    ensures
        r@ == image_file_name_spec(unicode),
{
    let hex = convert_to_be_hex_string(unicode);
    let digits = chars_of(hex.as_str());
    let mut r = string_of(&digits, 2, 8);
    r.append("_image.png");
    proof {
        reveal_strlit("_image.png");
        assert(r@ =~= image_file_name_spec(unicode));
    }
    r
}

/// A file name is a function of the code point alone, and within the Basic
/// Multilingual Plane no two code points share one: rendering a glyph again
/// writes the same file, and no other glyph's file.
pub proof fn lemma_bmp_file_names_distinct(a: char, b: char)
    requires
        (a as int) < 0x10000,
        (b as int) < 0x10000,
        image_file_name_spec(a) == image_file_name_spec(b),
    ensures
        a == b,
{
    let ha = hex_identifier(a);
    let hb = hex_identifier(b);
    lemma_hex_identifier_round_trip(a);
    lemma_hex_identifier_round_trip(b);
    assert(ha.subrange(2, 8) =~= image_file_name_spec(a).subrange(0, 6));
    assert(hb.subrange(2, 8) =~= image_file_name_spec(b).subrange(0, 6));
    assert forall|i: int| 2 <= i < 8 implies ha[i] == hb[i] by {
        assert(ha[i] == ha.subrange(2, 8)[i - 2]);
        assert(hb[i] == hb.subrange(2, 8)[i - 2]);
    }
    assert(ha[0] == '0' && ha[1] == '0');
    assert(hb[0] == '0' && hb[1] == '0');
    assert(ha =~= hb);
}

/// A relative path appended to a directory, with one `/` between the two.
pub open spec fn join_path(dir: Seq<char>, name: Seq<char>) -> Seq<char> {
    if dir.len() == 0 {
        name
    } else if dir.last() == '/' {
        dir + name
    } else {
        dir + seq!['/'] + name
    }
}

/// A relative path appended to a directory, as `join_path` states it.
pub fn join(dir: &str, name: &str) -> (r: String)
    ensures
        r@ == join_path(dir@, name@),
{
    let n = dir.unicode_len();
    let mut r = dir.to_owned();
    if n > 0 && dir.get_char(n - 1) != '/' {
        push_char(&mut r, '/');
    }
    r.append(name);
    proof {
        if n > 0 {
            assert(dir@.last() == dir@[n - 1]);
        }
        assert(r@ =~= join_path(dir@, name@));
    }
    r
}

/// The directory that receives one font's images: the font's base name under
/// the output directory.
pub fn glyph_dir(output_dir: &str, base_name: &str) -> (r: String)
    ensures
        r@ == join_path(output_dir@, base_name@),
{
    join(output_dir, base_name)
}

/// Where the image of a code point goes in a font's directory.
pub fn image_path(base_dir: &str, unicode: char) -> (r: String)
    ensures
        r@ == join_path(base_dir@, image_file_name_spec(unicode)),
{
    let name = image_file_name(unicode);
    join(base_dir, name.as_str())
}

/// A path with its trailing separators and trailing `.` segments removed.
pub open spec fn trim_tail(s: Seq<char>) -> Seq<char>
    decreases s.len(),
{
    if s.len() > 0 && s.last() == '/' {
        trim_tail(s.drop_last())
    } else if s.len() > 0 && s.last() == '.' && (s.len() == 1 || s[s.len() - 2] == '/') {
        trim_tail(s.drop_last())
    } else {
        s
    }
}

/// What follows the last `/`; the whole of `s` when there is none.
pub open spec fn after_last_slash(s: Seq<char>) -> Seq<char>
    decreases s.len(),
{
    if s.len() == 0 {
        s
    } else if s.last() == '/' {
        Seq::empty()
    } else {
        after_last_slash(s.drop_last()).push(s.last())
    }
}

/// The final segment of a `/`-separated path, ignoring trailing separators
/// and `.` segments; there is none when the path is empty, a root, or ends in
/// `..`.
pub open spec fn base_name_of(path: Seq<char>) -> Option<Seq<char>> {
    let seg = after_last_slash(trim_tail(path));
    if seg.len() == 0 || seg == seq!['.', '.'] {
        None
    } else {
        Some(seg)
    }
}

/// The final segment of a file path, such as a font file's name without its
/// directories.
///
/// Fails with `PathError`, holding the path, when the path has no final
/// segment.
pub fn get_base_name(file_path: &str) -> (r: Result<String, AppError>)
    ensures
        base_name_of(file_path@) is Some ==> r is Ok && r->Ok_0@ == base_name_of(file_path@)->0,
        base_name_of(file_path@) is None ==> r is Err && r->Err_0 is PathError
            && r->Err_0->PathError_0@ == file_path@,
{
    let v = chars_of(file_path);
    let n = v.len();
    let mut e: usize = n;
    proof {
        assert(v@.subrange(0, n as int) =~= v@);
    }
    loop
        invariant
            e <= n,
            n == v@.len(),
            trim_tail(v@.subrange(0, e as int)) == trim_tail(v@),
        ensures
            e <= n,
            trim_tail(v@) == v@.subrange(0, e as int),
        decreases e,
    {
        let ghost t = v@.subrange(0, e as int);
        if e > 0 && v[e - 1] == '/' {
            assert(t.drop_last() =~= v@.subrange(0, e - 1));
            e = e - 1;
        } else if e > 0 && v[e - 1] == '.' && (e == 1 || v[e - 2] == '/') {
            assert(t.drop_last() =~= v@.subrange(0, e - 1));
            e = e - 1;
        } else {
            assert(trim_tail(t) == t);
            break ;
        }
    }
    let mut k: usize = e;
    assert(after_last_slash(v@.subrange(0, e as int)) =~= after_last_slash(v@.subrange(0, k as int))
        + v@.subrange(k as int, e as int));
    while k > 0 && v[k - 1] != '/'
        invariant
            k <= e <= n,
            n == v@.len(),
            after_last_slash(v@.subrange(0, e as int)) == after_last_slash(
                v@.subrange(0, k as int),
            ) + v@.subrange(k as int, e as int),
        decreases k,
    {
        let ghost t = v@.subrange(0, k as int);
        assert(t.drop_last() =~= v@.subrange(0, k - 1));
        assert(after_last_slash(t) == after_last_slash(v@.subrange(0, k - 1)).push(v@[k - 1]));
        assert(v@.subrange(k - 1, e as int) =~= seq![v@[k - 1]] + v@.subrange(k as int, e as int));
        k = k - 1;
        assert(after_last_slash(v@.subrange(0, e as int)) =~= after_last_slash(
            v@.subrange(0, k as int),
        ) + v@.subrange(k as int, e as int));
    }
    assert(after_last_slash(v@.subrange(0, k as int)) =~= Seq::<char>::empty());
    let seg = string_of(&v, k, e);
    let len = e - k;
    let is_parent = len == 2 && v[k] == '.' && v[k + 1] == '.';
    proof {
        assert(seg@ =~= after_last_slash(trim_tail(file_path@)));
        if len == 2 {
            assert(is_parent <==> seg@ =~= seq!['.', '.']);
        }
    }
    if len == 0 || is_parent {
        Err(AppError::PathError(file_path.to_owned()))
    } else {
        Ok(seg)
    }
}

} // verus!
