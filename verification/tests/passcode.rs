use ic705_bridge::rsba1::passcode::{passcode, TABLE};

#[test]
fn table_has_expected_bounds() {
    assert_eq!(TABLE[0], 0x47);
    assert_eq!(TABLE[94], 0x52);
}

#[test]
fn encodes_to_16_bytes() {
    let out = passcode("test");
    assert_eq!(out.len(), 16);
    assert_eq!(out[0], 0x22);
    assert_eq!(out[1], 0x3f);
}

#[test]
fn encodes_beer() {
    assert_eq!(
        passcode("beer"),
        [0x2b, 0x3f, 0x55, 0x5c, 0, 0, 0, 0, 0, 0, 0, 0, 0, 0, 0, 0]
    );
}

#[test]
fn codes_beyond_the_table_wrap_or_give_zero() {
    // '~' is 126; one place further it wraps to 32 + 127 % 127.
    assert_eq!(passcode("~~")[..2], [0x52, 0x47]);
    // A control character is below the table.
    assert_eq!(passcode("\u{1}")[0], 0);
    // 0xc3 0xa9: 32 + 195 % 127 = 100, 32 + 170 % 127 = 75.
    assert_eq!(passcode("é")[..2], [0x50, 0x4f]);
}

#[test]
fn only_the_first_sixteen_bytes_count() {
    assert_eq!(passcode("0123456789abcdefgh"), passcode("0123456789abcdefXYZ"));
    assert_ne!(passcode("0123456789abcdef"), passcode("0123456789abcdeg"));
    assert_eq!(passcode(""), [0u8; 16]);
}
