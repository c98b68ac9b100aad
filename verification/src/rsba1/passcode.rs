//! Encoding of the user name and of the password.
//!
//! The radio wants the credentials scrambled through a substitution table indexed from 32 to 126.

use vstd::prelude::*;

verus! {

/// Substitution table: the entry for code `p`, `32 <= p <= 126`, stands at index `p - 32`.
pub const TABLE: [u8; 95] = [
    0x47, 0x5d, 0x4c, 0x42, 0x66, 0x20, 0x23, 0x46, 0x4e, 0x57, 0x45, 0x3d,  // 32..=43
    0x67, 0x76, 0x60, 0x41, 0x62, 0x39, 0x59, 0x2d, 0x68, 0x7e, 0x7c, 0x65,  // 44..=55
    0x7d, 0x49, 0x29, 0x72, 0x73, 0x78, 0x21, 0x6e, 0x5a, 0x5e, 0x4a, 0x3e,  // 56..=67
    0x71, 0x2c, 0x2a, 0x54, 0x3c, 0x3a, 0x63, 0x4f, 0x43, 0x75, 0x27, 0x79,  // 68..=79
    0x5b, 0x35, 0x70, 0x48, 0x6b, 0x56, 0x6f, 0x34, 0x32, 0x6c, 0x30, 0x61,  // 80..=91
    0x6d, 0x7b, 0x2f, 0x4b, 0x64, 0x38, 0x2b, 0x2e, 0x50, 0x40, 0x3f, 0x55,  // 92..=103
    0x33, 0x37, 0x25, 0x77, 0x24, 0x26, 0x74, 0x6a, 0x28, 0x53, 0x4d, 0x69,  // 104..=115
    0x22, 0x5c, 0x44, 0x31, 0x36, 0x58, 0x3b, 0x7a, 0x51, 0x5f, 0x52,  // 116..=126
];

/// The code of byte `c` at position `i`: their sum, brought back into the table when it passes 126.
pub open spec fn shifted(c: u8, i: int) -> int {
    if c + i > 126 {
        32 + (c + i) % 127
    } else {
        c + i
    }
}

/// The scrambled form of byte `c` at position `i`; 0 where the table has no entry.
pub open spec fn scrambled(c: u8, i: int) -> u8 {
    if 32 <= shifted(c, i) <= 126 {
        TABLE@[shifted(c, i) - 32]
    } else {
        0
    }
}

/// The 16 bytes that stand for a text: its first 16 bytes scrambled, then zeros.
pub open spec fn encoded(bytes: Seq<u8>) -> Seq<u8> {
    Seq::new(
        16,
        |i: int|
            if i < bytes.len() {
                scrambled(bytes[i], i)
            } else {
                0u8
            },
    )
}

/// Encodes a text (user name or password) into 16 bytes for the radio.
pub fn passcode(s: &str) -> (res: [u8; 16])
    ensures
        res@ == encoded(vstd::utf8::encode_utf8(s@)),
{
    let bytes = s.as_bytes();
    let mut res: [u8; 16] = [0; 16];
    let mut i: usize = 0;
    while i < 16 && i < bytes.len()
        invariant
            i <= 16,
            i <= bytes.len(),
            bytes@ == vstd::utf8::encode_utf8(s@),
            forall|k: int| 0 <= k < i ==> #[trigger] res@[k] == scrambled(bytes@[k], k),
            forall|k: int| i <= k < 16 ==> #[trigger] res@[k] == 0,
        decreases 16 - i,
    {
        let mut p: i32 = bytes[i] as i32 + i as i32;
        if p > 126 {
            p = 32 + p % 127;
        }
        if 32 <= p && p <= 126 {
            res[i] = TABLE[(p - 32) as usize];
        }
        i = i + 1;
    }
    assert(res@ =~= encoded(vstd::utf8::encode_utf8(s@)));
    res
}

/// Only the first 16 bytes of a text count.
pub proof fn bytes_beyond_sixteen_are_ignored(a: Seq<u8>, b: Seq<u8>)
    requires
        a.len() >= 16,
        b.len() >= 16,
        a.take(16) == b.take(16),
    ensures
        encoded(a) == encoded(b),
{
    assert forall|i: int| 0 <= i < 16 implies a[i] == b[i] by {
        assert(a[i] == a.take(16)[i] && b[i] == b.take(16)[i]);
    }
    assert(encoded(a) =~= encoded(b));
}

/// Position by position: the byte `c` at position `i` is encoded as the entry of the table for
/// `c + i`; past 126, as the entry for what is left of `c + i` after 127, counted from the start of
/// the table; where the table has no such entry, as 0. The places after the text hold 0.
pub proof fn each_byte_is_shifted_by_its_position(bytes: Seq<u8>, i: int)
    requires
        0 <= i < 16,
    ensures
        encoded(bytes).len() == 16,
        i >= bytes.len() ==> encoded(bytes)[i] == 0,
        i < bytes.len() && bytes[i] + i < 32 ==> encoded(bytes)[i] == 0,
        i < bytes.len() && 32 <= bytes[i] + i <= 126 ==> encoded(bytes)[i] == TABLE@[bytes[i] + i
            - 32],
        i < bytes.len() && 127 <= bytes[i] + i <= 221 ==> encoded(bytes)[i] == TABLE@[bytes[i] + i
            - 127],
        i < bytes.len() && 222 <= bytes[i] + i <= 253 ==> encoded(bytes)[i] == 0,
        i < bytes.len() && bytes[i] + i >= 254 ==> encoded(bytes)[i] == TABLE@[bytes[i] + i - 254],
{
}

/// One place further is one code further: the byte `c` at position `i + 1` is encoded as the byte
/// `c + 1` at position `i`.
pub proof fn one_place_further_is_one_code_further(a: Seq<u8>, b: Seq<u8>, i: int)
    requires
        0 <= i < 15,
        i + 1 < a.len(),
        i < b.len(),
        b[i] == a[i + 1] + 1,
    ensures
        encoded(a)[i + 1] == encoded(b)[i],
{
}

/// The encoding of a byte depends on that byte and on its position only.
pub proof fn bytes_are_encoded_apart(a: Seq<u8>, b: Seq<u8>, i: int)
    requires
        0 <= i < 16,
        i < a.len(),
        i < b.len(),
        a[i] == b[i],
    ensures
        encoded(a)[i] == encoded(b)[i],
{
}

proof fn table_spells_the_alphabet(k: int)
    requires
        0 <= k < 95,
    ensures
        TABLE@[k] == "G]LBf #FNWE=gv`Ab9Y-h~|e}I)rsx!nZ^J>q,*T<:cOCu'y[5pHkVo42l0am{/Kd8+.P@?U37%w$&tj(SMi\"\\D16X;zQ_R"@[k] as u8,
{
    reveal_strlit("G]LBf #FNWE=gv`Ab9Y-h~|e}I)rsx!nZ^J>q,*T<:cOCu'y[5pHkVo42l0am{/Kd8+.P@?U37%w$&tj(SMi\"\\D16X;zQ_R");
    assert(k == 0 || k == 1 || k == 2 || k == 3 || k == 4 || k == 5
        || k == 6 || k == 7 || k == 8 || k == 9 || k == 10 || k == 11
        || k == 12 || k == 13 || k == 14 || k == 15 || k == 16 || k == 17
        || k == 18 || k == 19 || k == 20 || k == 21 || k == 22 || k == 23
        || k == 24 || k == 25 || k == 26 || k == 27 || k == 28 || k == 29
        || k == 30 || k == 31 || k == 32 || k == 33 || k == 34 || k == 35
        || k == 36 || k == 37 || k == 38 || k == 39 || k == 40 || k == 41
        || k == 42 || k == 43 || k == 44 || k == 45 || k == 46 || k == 47
        || k == 48 || k == 49 || k == 50 || k == 51 || k == 52 || k == 53
        || k == 54 || k == 55 || k == 56 || k == 57 || k == 58 || k == 59
        || k == 60 || k == 61 || k == 62 || k == 63 || k == 64 || k == 65
        || k == 66 || k == 67 || k == 68 || k == 69 || k == 70 || k == 71
        || k == 72 || k == 73 || k == 74 || k == 75 || k == 76 || k == 77
        || k == 78 || k == 79 || k == 80 || k == 81 || k == 82 || k == 83
        || k == 84 || k == 85 || k == 86 || k == 87 || k == 88 || k == 89
        || k == 90 || k == 91 || k == 92 || k == 93 || k == 94);
}

/// At the first place, each printable character becomes another printable one: the space a `G`, the
/// exclamation mark a `]`, and so on through the alphabet.
pub proof fn printable_characters_follow_the_alphabet(bytes: Seq<u8>)
    requires
        bytes.len() > 0,
        32 <= bytes[0] <= 126,
    ensures
        encoded(bytes)[0] == "G]LBf #FNWE=gv`Ab9Y-h~|e}I)rsx!nZ^J>q,*T<:cOCu'y[5pHkVo42l0am{/Kd8+.P@?U37%w$&tj(SMi\"\\D16X;zQ_R"@[bytes[0] - 32] as u8,
{
    table_spells_the_alphabet(bytes[0] - 32);
}

} // verus!
