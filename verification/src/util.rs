//! Hexadecimal text of CI-V frames.

use vstd::prelude::*;

use crate::error::BridgeError;
use crate::text::chars_of;
use crate::text::to_decimal;

verus! {

/// The upper-case hexadecimal digit of `n`, `0 <= n < 16`.
pub open spec fn hex_char(n: int) -> char {
    if n < 10 {
        ('0' as u32 + n) as char
    } else {
        ('A' as u32 + (n - 10)) as char
    }
}

/// The two hexadecimal digits of a byte.
pub open spec fn hex_pair(b: u8) -> Seq<char> {
    seq![hex_char(b as int / 16), hex_char(b as int % 16)]
}

/// Bytes in upper-case hexadecimal, separated by single spaces.
pub open spec fn hex_text(d: Seq<u8>) -> Seq<char>
    decreases d.len(),
{
    if d.len() == 0 {
        Seq::empty()
    } else if d.len() == 1 {
        hex_pair(d[0])
    } else {
        hex_text(d.drop_last()).push(' ') + hex_pair(d.last())
    }
}

fn hex_digit(n: u8) -> (c: char)
    requires
        n < 16,
    ensures
        c == hex_char(n as int),
{
    if n < 10 {
        (0x30 + n) as char
    } else {
        (0x41 + (n - 10)) as char
    }
}

/// Writes bytes in upper-case hexadecimal separated by spaces: `FE FE A4 E0 03 FD`.
pub fn to_hex(d: &[u8]) -> (text: String)
    ensures
        text@ == hex_text(d@),
{
    let mut text = String::new();
    let mut i: usize = 0;
    while i < d.len()
        invariant
            i <= d.len(),
            text@ == hex_text(d@.take(i as int)),
        decreases d.len() - i,
    {
        proof {
            assert(d@.take(i + 1).drop_last() == d@.take(i as int));
            assert(d@.take(i + 1).last() == d@[i as int]);
        }
        if i > 0 {
            text.push(' ');
        }
        text.push(hex_digit(d[i] / 16));
        text.push(hex_digit(d[i] % 16));
        assert(text@ == hex_text(d@.take(i + 1)));
        i = i + 1;
    }
    assert(d@.take(i as int) == d@);
    text
}

/// Whether `c` may stand between two digits of an input.
pub open spec fn is_separator(c: char) -> bool {
    c == ' ' || c == '\t' || c == '\n' || c == '\r' || c == ',' || c == ';' || c == ':' || c == '-'
}

/// Whether `s` begins with the prefix `0x` or `0X`.
pub open spec fn has_hex_prefix(s: Seq<char>) -> bool {
    s.len() >= 2 && s[0] == '0' && (s[1] == 'x' || s[1] == 'X')
}

/// An input without its separators and without its `0x` prefixes.
pub open spec fn cleaned(s: Seq<char>) -> Seq<char>
    decreases s.len(),
{
    if s.len() == 0 {
        Seq::empty()
    } else if has_hex_prefix(s) {
        cleaned(s.skip(2))
    } else if is_separator(s[0]) {
        cleaned(s.drop_first())
    } else {
        seq![s[0]] + cleaned(s.drop_first())
    }
}

/// Whether `c` is a hexadecimal digit, in either case.
pub open spec fn is_hex_digit(c: char) -> bool {
    '0' <= c <= '9' || 'a' <= c <= 'f' || 'A' <= c <= 'F'
}

/// The value of a hexadecimal digit.
pub open spec fn hex_value(c: char) -> int {
    if '0' <= c <= '9' {
        c as u32 - '0' as u32
    } else if 'a' <= c <= 'f' {
        c as u32 - 'a' as u32 + 10
    } else {
        c as u32 - 'A' as u32 + 10
    }
}

/// The first character of `s` that is not a hexadecimal digit.
pub open spec fn first_invalid(s: Seq<char>) -> Option<char>
    decreases s.len(),
{
    if s.len() == 0 {
        None
    } else if !is_hex_digit(s[0]) {
        Some(s[0])
    } else {
        first_invalid(s.drop_first())
    }
}

/// Why the cleaned input `c` is no frame, if it is none. The parity is that of its UTF-8 length.
pub open spec fn hex_fault(c: Seq<char>) -> Option<Seq<char>> {
    if c.len() == 0 {
        Some("trame vide"@)
    } else if vstd::utf8::encode_utf8(c).len() % 2 != 0 {
        Some(
            "nombre impair de chiffres hexadécimaux ("@ + crate::text::decimal(
                vstd::utf8::encode_utf8(c).len(),
            ) + ")"@,
        )
    } else if let Some(bad) = first_invalid(c) {
        Some("caractère invalide : '"@.push(bad) + "'"@)
    } else {
        None
    }
}

/// The bytes written by pairs of hexadecimal digits.
pub open spec fn hex_bytes(c: Seq<char>) -> Seq<u8> {
    Seq::new(c.len() / 2, |i: int| (hex_value(c[2 * i]) * 16 + hex_value(c[2 * i + 1])) as u8)
}

/// What reading `s` gives: the bytes, or the reason why there are none.
pub open spec fn hex_reading(s: Seq<char>) -> Result<Seq<u8>, Seq<char>> {
    match hex_fault(cleaned(s)) {
        Some(why) => Err(why),
        None => Ok(hex_bytes(cleaned(s))),
    }
}

/// Whether a frame was read from `s`, or refused, as it had to be.
pub open spec fn is_hex_reading(s: Seq<char>, r: Result<Vec<u8>, BridgeError>) -> bool {
    match r {
        Ok(bytes) => hex_reading(s) == Ok::<Seq<u8>, Seq<char>>(bytes@),
        Err(BridgeError::InvalidFrame(why)) => hex_reading(s) == Err::<Seq<u8>, Seq<char>>(why@),
        Err(_) => false,
    }
}

fn separator(c: char) -> (b: bool)
    ensures
        b == is_separator(c),
{
    c == ' ' || c == '\t' || c == '\n' || c == '\r' || c == ',' || c == ';' || c == ':' || c == '-'
}

/// Drops the separators and the `0x` prefixes of an input.
fn clean(input: &str) -> (text: String)
    ensures
        text@ == cleaned(input@),
{
    let chars = chars_of(input);
    let mut text = String::new();
    let mut i: usize = 0;
    assert(input@.skip(0) == input@);
    while i < chars.len()
        invariant
            i <= chars.len(),
            chars@ == input@,
            text@ + cleaned(input@.skip(i as int)) == cleaned(input@),
        decreases chars.len() - i,
    {
        let ghost rest = input@.skip(i as int);
        assert(rest.drop_first() == input@.skip(i + 1));
        let c = chars[i];
        if c == '0' && i + 1 < chars.len() && (chars[i + 1] == 'x' || chars[i + 1] == 'X') {
            assert(rest.skip(2) == input@.skip(i + 2));
            i = i + 2;
        } else {
            if !separator(c) {
                let ghost before = text@;
                text.push(c);
                assert(before + (seq![c] + cleaned(rest.drop_first())) == text@ + cleaned(
                    rest.drop_first(),
                ));
            }
            i = i + 1;
        }
    }
    assert(text@ + cleaned(input@.skip(i as int)) == text@);
    text
}

/// The value of an ASCII hexadecimal digit.
fn nibble(b: u8) -> (n: u8)
    requires
        is_hex_digit(b as char),
    ensures
        n == hex_value(b as char),
        n < 16,
{
    if b <= 0x39 {
        b - 0x30
    } else if b >= 0x61 {
        b - 0x61 + 10
    } else {
        b - 0x41 + 10
    }
}

/// The first character that is not a hexadecimal digit.
fn find_invalid(s: &str) -> (bad: Option<char>)
    ensures
        bad == first_invalid(s@),
        bad is None ==> forall|i: int| 0 <= i < s@.len() ==> is_hex_digit(#[trigger] s@[i]),
{
    let chars = chars_of(s);
    let mut i: usize = 0;
    assert(s@.skip(0) == s@);
    while i < chars.len()
        invariant
            i <= chars.len(),
            chars@ == s@,
            first_invalid(s@.skip(i as int)) == first_invalid(s@),
            forall|k: int| 0 <= k < i ==> is_hex_digit(#[trigger] s@[k]),
        decreases chars.len() - i,
    {
        let c = chars[i];
        if !(('0' <= c && c <= '9') || ('a' <= c && c <= 'f') || ('A' <= c && c <= 'F')) {
            return Some(c);
        }
        assert(s@.skip(i as int).drop_first() == s@.skip(i + 1));
        i = i + 1;
    }
    None
}

/// Reads a tolerant hexadecimal input (spaces, commas, `0x`, either case) into bytes.
pub fn parse_hex(input: &str) -> (r: Result<Vec<u8>, BridgeError>)
    ensures
        is_hex_reading(input@, r),
{
    let text = clean(input);
    let s = text.as_str();
    if s.is_empty() {
        return Err(BridgeError::InvalidFrame("trame vide".to_owned()));
    }
    let bytes = s.as_bytes();
    if bytes.len() % 2 != 0 {
        let count = to_decimal(bytes.len() as u64);
        return Err(
            BridgeError::InvalidFrame(
                "nombre impair de chiffres hexadécimaux (".to_owned().concat(
                    count.as_str(),
                ).concat(")"),
            ),
        );
    }
    if let Some(bad) = find_invalid(s) {
        let mut why = "caractère invalide : '".to_owned();
        why.push(bad);
        return Err(BridgeError::InvalidFrame(why.concat("'")));
    }
    proof {
        assert(vstd::utf8::is_ascii_chars(s@));
        vstd::utf8::is_ascii_chars_encode_utf8(s@);
    }
    let mut out: Vec<u8> = Vec::new();
    let mut i: usize = 0;
    while i < bytes.len() / 2
        invariant
            i <= bytes.len() / 2,
            bytes@ == vstd::utf8::encode_utf8(s@),
            bytes@.len() == s@.len(),
            bytes@.len() % 2 == 0,
            forall|k: int| 0 <= k < s@.len() ==> is_hex_digit(#[trigger] s@[k]),
            forall|k: int| 0 <= k < s@.len() ==> s@[k] as u8 == #[trigger] bytes@[k],
            out@ == hex_bytes(s@).take(i as int),
        decreases bytes.len() / 2 - i,
    {
        let hi = bytes[2 * i];
        let lo = bytes[2 * i + 1];
        assert(is_hex_digit(s@[2 * i]) && hi == s@[2 * i] as u8);
        assert(is_hex_digit(s@[2 * i + 1]) && lo == s@[2 * i + 1] as u8);
        out.push(nibble(hi) * 16 + nibble(lo));
        assert(out@ == hex_bytes(s@).take(i + 1));
        i = i + 1;
    }
    assert(hex_bytes(s@).take(i as int) == hex_bytes(s@));
    Ok(out)
}

/// Whether joining `a` and `b` makes a `0x` prefix out of the end of one and the start of the other.
pub open spec fn joins_into_prefix(a: Seq<char>, b: Seq<char>) -> bool {
    a.len() > 0 && a.last() == '0' && b.len() > 0 && (b[0] == 'x' || b[0] == 'X')
}

proof fn cleaned_of_join(a: Seq<char>, b: Seq<char>)
    requires
        !joins_into_prefix(a, b),
    ensures
        cleaned(a + b) == cleaned(a) + cleaned(b),
    decreases a.len(),
{
    if a.len() == 0 {
        assert(a + b == b);
        assert(cleaned(a) + cleaned(b) == cleaned(b));
    } else if has_hex_prefix(a) {
        assert((a + b).skip(2) == a.skip(2) + b);
        cleaned_of_join(a.skip(2), b);
    } else {
        assert((a + b)[0] == a[0]);
        if a.len() >= 2 {
            assert((a + b)[1] == a[1]);
        } else if b.len() > 0 {
            assert((a + b)[1] == b[0]);
        }
        assert(!has_hex_prefix(a + b));
        assert((a + b).drop_first() == a.drop_first() + b);
        cleaned_of_join(a.drop_first(), b);
        if !is_separator(a[0]) {
            assert(seq![a[0]] + (cleaned(a.drop_first()) + cleaned(b)) == cleaned(a) + cleaned(b));
        }
    }
}

/// A separator anywhere in the input changes nothing, unless it splits a `0x` prefix.
pub proof fn separators_are_ignored(a: Seq<char>, c: char, b: Seq<char>)
    requires
        c == ' ' || c == '\t' || c == '\n' || c == '\r' || c == ',' || c == ';' || c == ':' || c
            == '-',
        !joins_into_prefix(a, b),
    ensures
        hex_reading(a.push(c) + b) == hex_reading(a + b),
{
    let one = seq![c];
    assert(a.push(c) + b == a + (one + b));
    cleaned_of_join(a, one + b);
    assert((one + b).drop_first() == b);
    assert(!has_hex_prefix(one + b));
    cleaned_of_join(a, b);
}

/// A `0x` prefix before any part of the input changes nothing.
pub proof fn prefixes_are_ignored(a: Seq<char>, x: char, b: Seq<char>)
    requires
        x == 'x' || x == 'X',
        !joins_into_prefix(a, b),
    ensures
        hex_reading(a + seq!['0', x] + b) == hex_reading(a + b),
{
    let prefix = seq!['0', x];
    assert(a + prefix + b == a + (prefix + b));
    cleaned_of_join(a, prefix + b);
    assert((prefix + b).skip(2) == b);
    cleaned_of_join(a, b);
}

/// Whether two characters are equal up to the case of an ASCII letter.
pub open spec fn same_letter(c: char, d: char) -> bool {
    ||| c == d
    ||| 'a' <= c <= 'z' && d as u32 + 32 == c as u32
    ||| 'a' <= d <= 'z' && c as u32 + 32 == d as u32
}

/// Whether two texts are equal up to the case of their ASCII letters.
pub open spec fn same_letters(s: Seq<char>, t: Seq<char>) -> bool {
    s.len() == t.len() && forall|i: int| 0 <= i < s.len() ==> same_letter(#[trigger] s[i], t[i])
}

proof fn letter_case_facts(c: char, d: char)
    requires
        same_letter(c, d),
    ensures
        is_hex_digit(c) ==> is_hex_digit(d) && hex_value(c) == hex_value(d),
        (c == '0') == (d == '0'),
        (c == 'x' || c == 'X') == (d == 'x' || d == 'X'),
        is_separator(c) == is_separator(d),
{
}

proof fn cleaned_keeps_letters(s: Seq<char>, t: Seq<char>)
    requires
        same_letters(s, t),
    ensures
        same_letters(cleaned(s), cleaned(t)),
    decreases s.len(),
{
    if s.len() > 0 {
        letter_case_facts(s[0], t[0]);
        if s.len() > 1 {
            letter_case_facts(s[1], t[1]);
        }
        if has_hex_prefix(s) {
            assert(same_letters(s.skip(2), t.skip(2))) by {
                assert forall|i: int| 0 <= i < s.skip(2).len() implies same_letter(
                    #[trigger] s.skip(2)[i],
                    t.skip(2)[i],
                ) by {
                    assert(same_letter(s[i + 2], t[i + 2]));
                }
            }
            cleaned_keeps_letters(s.skip(2), t.skip(2));
        } else {
            assert(!has_hex_prefix(t));
            let (u, v) = (s.drop_first(), t.drop_first());
            assert(same_letters(u, v)) by {
                assert forall|i: int| 0 <= i < u.len() implies same_letter(
                    #[trigger] u[i],
                    v[i],
                ) by {
                    assert(same_letter(s[i + 1], t[i + 1]));
                }
            }
            cleaned_keeps_letters(u, v);
            if !is_separator(s[0]) {
                let (cs, ct) = (cleaned(s), cleaned(t));
                assert forall|i: int| 0 <= i < cs.len() implies same_letter(
                    #[trigger] cs[i],
                    ct[i],
                ) by {
                    if i > 0 {
                        assert(same_letter(cleaned(u)[i - 1], cleaned(v)[i - 1]));
                    }
                }
            }
        }
    }
}

proof fn no_invalid_means_all_digits(s: Seq<char>)
    ensures
        first_invalid(s) is None <==> forall|i: int|
            0 <= i < s.len() ==> is_hex_digit(#[trigger] s[i]),
    decreases s.len(),
{
    if s.len() > 0 {
        no_invalid_means_all_digits(s.drop_first());
        if is_hex_digit(s[0]) {
            if first_invalid(s) is None {
                assert forall|i: int| 0 <= i < s.len() implies is_hex_digit(#[trigger] s[i]) by {
                    if i > 0 {
                        assert(s.drop_first()[i - 1] == s[i]);
                    }
                }
            }
        }
    }
}

/// The case of the letters does not matter: an input that reads as a frame still reads as that
/// frame after any change of case.
pub proof fn case_is_ignored(s: Seq<char>, t: Seq<char>)
    requires
        same_letters(s, t),
        hex_reading(s) is Ok,
    ensures
        hex_reading(t) == hex_reading(s),
{
    let (c, d) = (cleaned(s), cleaned(t));
    cleaned_keeps_letters(s, t);
    no_invalid_means_all_digits(c);
    no_invalid_means_all_digits(d);
    assert forall|i: int| 0 <= i < d.len() implies is_hex_digit(#[trigger] d[i]) by {
        letter_case_facts(c[i], d[i]);
    }
    vstd::utf8::is_ascii_chars_encode_utf8(c);
    vstd::utf8::is_ascii_chars_encode_utf8(d);
    assert forall|i: int| 0 <= i < c.len() implies hex_value(#[trigger] c[i]) == hex_value(d[i]) by {
        letter_case_facts(c[i], d[i]);
    }
    assert(hex_bytes(c) =~= hex_bytes(d));
}

proof fn cleaned_of_hex_text(d: Seq<u8>)
    ensures
        cleaned(hex_text(d)).len() == 2 * d.len(),
        forall|i: int|
            0 <= i < d.len() ==> cleaned(hex_text(d))[2 * i] == hex_char(#[trigger] d[i] as int / 16)
                && cleaned(hex_text(d))[2 * i + 1] == hex_char(d[i] as int % 16),
    decreases d.len(),
{
    if d.len() > 0 {
        let last = hex_pair(d.last());
        let empty = Seq::<char>::empty();
        assert(last.drop_first().drop_first() == empty);
        assert(cleaned(empty) == empty);
        assert(cleaned(last.drop_first()) == last.drop_first());
        assert(cleaned(last) == last);
        if d.len() > 1 {
            let front = d.drop_last();
            cleaned_of_hex_text(front);
            let tail = seq![' '] + last;
            assert(hex_text(d) == hex_text(front) + tail);
            cleaned_of_join(hex_text(front), tail);
            assert(tail.drop_first() == last);
            assert forall|i: int| 0 <= i < d.len() implies cleaned(hex_text(d))[2 * i] == hex_char(
                #[trigger] d[i] as int / 16,
            ) && cleaned(hex_text(d))[2 * i + 1] == hex_char(d[i] as int % 16) by {
                if i < front.len() {
                    assert(front[i] == d[i]);
                }
            }
        }
    }
}

/// Reading back what was written gives the same bytes, for every frame of at least one byte.
pub proof fn reading_undoes_writing(d: Seq<u8>)
    requires
        d.len() > 0,
    ensures
        hex_reading(hex_text(d)) == Ok::<Seq<u8>, Seq<char>>(d),
{
    let c = cleaned(hex_text(d));
    cleaned_of_hex_text(d);
    assert forall|i: int| 0 <= i < c.len() implies is_hex_digit(#[trigger] c[i]) by {
        assert(d[i / 2] as int / 16 < 16);
        assert(i == 2 * (i / 2) || i == 2 * (i / 2) + 1);
    }
    no_invalid_means_all_digits(c);
    vstd::utf8::is_ascii_chars_encode_utf8(c);
    assert forall|i: int| 0 <= i < d.len() implies hex_bytes(c)[i] == #[trigger] d[i] by {
        let b = d[i] as int;
        assert(hex_value(hex_char(b / 16)) == b / 16);
        assert(hex_value(hex_char(b % 16)) == b % 16);
    }
    assert(hex_bytes(c) =~= d);
}

/// A frame in hexadecimal, character by character: two of the digits `0` to `9` and `A` to `F` for
/// each byte, the high half first, and a space between two bytes.
pub proof fn layout_of_a_frame_in_hexadecimal(d: Seq<u8>, i: int)
    requires
        0 <= i < d.len(),
    ensures
        hex_text(d).len() == 3 * d.len() - 1,
        hex_text(d)[3 * i] == "0123456789ABCDEF"@[d[i] as int / 16],
        hex_text(d)[3 * i + 1] == "0123456789ABCDEF"@[d[i] as int % 16],
        i + 1 < d.len() ==> hex_text(d)[3 * i + 2] == ' ',
        hex_text(Seq::empty()).len() == 0,
    decreases d.len(),
{
    if d.len() == 1 {
        digits_in_order(d[0] as int / 16);
        digits_in_order(d[0] as int % 16);
    } else {
        let front = d.drop_last();
        layout_of_a_frame_in_hexadecimal(front, 0);
        if i < front.len() {
            layout_of_a_frame_in_hexadecimal(front, i);
            assert(front[i] == d[i]);
        } else {
            digits_in_order(d[i] as int / 16);
            digits_in_order(d[i] as int % 16);
        }
    }
}

proof fn digits_in_order(n: int)
    requires
        0 <= n < 16,
    ensures
        hex_char(n) == "0123456789ABCDEF"@[n],
{
    reveal_strlit("0123456789ABCDEF");
    assert(n == 0 || n == 1 || n == 2 || n == 3 || n == 4 || n == 5 || n == 6 || n == 7 || n == 8
        || n == 9 || n == 10 || n == 11 || n == 12 || n == 13 || n == 14 || n == 15);
}

proof fn cleaned_of_digits(s: Seq<char>)
    requires
        forall|i: int| 0 <= i < s.len() ==> is_hex_digit(#[trigger] s[i]),
    ensures
        cleaned(s) == s,
    decreases s.len(),
{
    if s.len() > 0 {
        assert(is_hex_digit(s[0]));
        digits_are_plain(s[0]);
        if s.len() > 1 {
            assert(is_hex_digit(s[1]));
            digits_are_plain(s[1]);
        }
        let rest = s.drop_first();
        assert forall|i: int| 0 <= i < rest.len() implies is_hex_digit(#[trigger] rest[i]) by {
            assert(rest[i] == s[i + 1]);
        }
        cleaned_of_digits(rest);
        assert(seq![s[0]] + rest =~= s);
    } else {
        assert(cleaned(s) =~= s);
    }
}

proof fn digits_are_plain(c: char)
    requires
        is_hex_digit(c),
    ensures
        !is_separator(c),
        c != 'x' && c != 'X',
{
}

/// Digits without separators are read two by two, the high half first; an odd number of them is
/// refused, and said so; so is an empty input.
pub proof fn digits_are_read_two_by_two(s: Seq<char>, i: int)
    requires
        forall|k: int| 0 <= k < s.len() ==> is_hex_digit(#[trigger] s[k]),
    ensures
        s.len() == 0 ==> hex_reading(s) == Err::<Seq<u8>, Seq<char>>("trame vide"@),
        s.len() % 2 == 1 ==> hex_reading(s) == Err::<Seq<u8>, Seq<char>>(
            "nombre impair de chiffres hexadécimaux ("@ + crate::text::decimal(s.len()) + ")"@,
        ),
        s.len() > 0 && s.len() % 2 == 0 ==> {
            &&& hex_reading(s) matches Ok(bytes)
            &&& bytes.len() == s.len() / 2
            &&& 0 <= i < bytes.len() ==> bytes[i] == 16 * hex_value(s[2 * i]) + hex_value(
                s[2 * i + 1],
            )
        },
{
    cleaned_of_digits(s);
    no_invalid_means_all_digits(s);
    vstd::utf8::is_ascii_chars_encode_utf8(s);
    if 0 <= i < s.len() / 2 {
        assert(is_hex_digit(s[2 * i]) && is_hex_digit(s[2 * i + 1]));
        value_of_a_digit(s[2 * i]);
        value_of_a_digit(s[2 * i + 1]);
    }
}

/// The value of a hexadecimal digit, in either case.
pub proof fn value_of_a_digit(c: char)
    requires
        is_hex_digit(c),
    ensures
        0 <= hex_value(c) < 16,
        '0' <= c <= '9' ==> hex_value(c) == c as u32 - 48,
        'a' <= c <= 'f' ==> hex_value(c) == c as u32 - 87,
        'A' <= c <= 'F' ==> hex_value(c) == c as u32 - 55,
{
}

/// A character that is neither a digit nor a separator nor part of a prefix makes an input invalid.
pub proof fn other_characters_are_refused(a: Seq<char>, c: char, b: Seq<char>)
    requires
        !('0' <= c <= '9' || 'a' <= c <= 'f' || 'A' <= c <= 'F'),
        c != ' ' && c != '\t' && c != '\n' && c != '\r' && c != ',' && c != ';' && c != ':' && c
            != '-',
        c != 'x' && c != 'X',
    ensures
        hex_reading(a + seq![c] + b) is Err,
{
    let one = seq![c];
    assert(a + one + b =~= a + (one + b));
    cleaned_of_join(a, one + b);
    assert((one + b).drop_first() =~= b);
    assert(!has_hex_prefix(one + b));
    let all = cleaned(a + one + b);
    assert(cleaned(one + b) == one + cleaned(b));
    assert(all[cleaned(a).len() as int] == c);
    no_invalid_means_all_digits(all);
}

/// Among digits, the first character that is none is named by the refusal.
pub proof fn the_first_bad_character_is_named(a: Seq<char>, c: char, b: Seq<char>)
    requires
        forall|k: int| 0 <= k < a.len() ==> is_hex_digit(#[trigger] a[k]),
        forall|k: int| 0 <= k < b.len() ==> is_hex_digit(#[trigger] b[k]),
        !is_hex_digit(c),
        !is_separator(c),
        c != 'x' && c != 'X',
        c <= '\u{7f}',
        (a.len() + b.len()) % 2 == 1,
    ensures
        hex_reading(a + seq![c] + b) == Err::<Seq<u8>, Seq<char>>(
            "caractère invalide : '"@.push(c) + "'"@,
        ),
{
    let one = seq![c];
    let all = a + one + b;
    assert(all =~= a + (one + b));
    cleaned_of_join(a, one + b);
    assert((one + b).drop_first() =~= b);
    assert(!has_hex_prefix(one + b));
    cleaned_of_digits(a);
    cleaned_of_digits(b);
    assert(cleaned(all) =~= all);
    assert(vstd::utf8::is_ascii_chars(all)) by {
        assert forall|i| 0 <= i < all.len() implies '\0' <= #[trigger] all[i] <= '\u{7f}' by {
            if i < a.len() {
                assert(all[i] == a[i]);
            } else if i > a.len() {
                assert(all[i] == b[i - a.len() - 1]);
            }
        }
    }
    vstd::utf8::is_ascii_chars_encode_utf8(all);
    first_invalid_after_digits(a, c, b);
}

proof fn first_invalid_after_digits(a: Seq<char>, c: char, b: Seq<char>)
    requires
        forall|k: int| 0 <= k < a.len() ==> is_hex_digit(#[trigger] a[k]),
        !is_hex_digit(c),
    ensures
        first_invalid(a + seq![c] + b) == Some(c),
    decreases a.len(),
{
    let all = a + seq![c] + b;
    if a.len() > 0 {
        let rest = a.drop_first();
        assert(is_hex_digit(a[0]));
        assert forall|k: int| 0 <= k < rest.len() implies is_hex_digit(#[trigger] rest[k]) by {
            assert(rest[k] == a[k + 1]);
        }
        first_invalid_after_digits(rest, c, b);
        assert(all.drop_first() =~= rest + seq![c] + b);
    } else {
        assert(all[0] == c);
    }
}

/// An input is read as a frame, or refused as an invalid frame with the reason.
pub proof fn inputs_are_frames_or_invalid(s: Seq<char>, r: Result<Vec<u8>, BridgeError>)
    requires
        is_hex_reading(s, r),
    ensures
        r matches Ok(bytes) ==> hex_reading(s) == Ok::<Seq<u8>, Seq<char>>(bytes@),
        r matches Err(e) ==> (e matches BridgeError::InvalidFrame(why) && hex_reading(s) == Err::<
            Seq<u8>,
            Seq<char>,
        >(why@)),
{
}

} // verus!
