use ic705_bridge::error::BridgeError;
use ic705_bridge::text::{parse_u16, same_text, to_decimal, trim};
use ic705_bridge::util::{parse_hex, to_hex};

#[test]
fn parses_spaced_frame() {
    assert_eq!(
        parse_hex("FE FE A4 E0 03 FD").unwrap(),
        vec![0xFE, 0xFE, 0xA4, 0xE0, 0x03, 0xFD]
    );
}

#[test]
fn parses_compact_and_mixed_case() {
    assert_eq!(
        parse_hex("fefea4e003fd").unwrap(),
        vec![0xFE, 0xFE, 0xA4, 0xE0, 0x03, 0xFD]
    );
}

#[test]
fn rejects_odd_and_invalid() {
    assert!(parse_hex("FE F").is_err());
    assert!(parse_hex("FE GG").is_err());
    assert!(parse_hex("").is_err());
}

#[test]
fn roundtrip() {
    assert_eq!(
        to_hex(&[0xFE, 0xFE, 0xA4, 0xE0, 0x03, 0xFD]),
        "FE FE A4 E0 03 FD"
    );
}

fn fault(input: &str) -> String {
    match parse_hex(input) {
        Err(BridgeError::InvalidFrame(why)) => why,
        other => panic!("{other:?}"),
    }
}

#[test]
fn invalid_frames_say_why() {
    assert_eq!(fault(""), "trame vide");
    assert_eq!(fault(" ,;:-\t\r\n 0x"), "trame vide");
    assert_eq!(fault("FE F"), "nombre impair de chiffres hexadécimaux (3)");
    assert_eq!(fault("FE GG"), "caractère invalide : 'G'");
    assert_eq!(fault("é"), "caractère invalide : 'é'");
    assert_eq!(fault("éa"), "nombre impair de chiffres hexadécimaux (3)");
}

#[test]
fn separators_prefixes_and_case_do_not_matter() {
    let frame = vec![0xFE, 0xA4, 0x0B];
    for input in ["FE A4 0B", "fe,a4;0b", "0xFE 0xA4 0X0B", "F:E-A\t4\r\n0B"] {
        assert_eq!(parse_hex(input).unwrap(), frame, "{input}");
    }
    assert_eq!(fault("0xfea40xb"), "nombre impair de chiffres hexadécimaux (5)");
    assert_eq!(fault("00xX"), "caractère invalide : 'X'");
}

#[test]
fn every_byte_reads_back() {
    for b in 0..=255u8 {
        let text = to_hex(&[b]);
        assert_eq!(text, format!("{b:02X}"));
        assert_eq!(parse_hex(&text).unwrap(), vec![b]);
        assert_eq!(parse_hex(&text.to_lowercase()).unwrap(), vec![b]);
    }
    let all: Vec<u8> = (0..=255).collect();
    assert_eq!(parse_hex(&to_hex(&all)).unwrap(), all);
    assert_eq!(to_hex(&[]), "");
}

#[test]
fn numbers_in_base_ten() {
    for n in [0, 7, 9, 10, 99, 100, 1024, 8765, 65535, u64::MAX] {
        assert_eq!(to_decimal(n), n.to_string());
    }
    for n in 0..=u16::MAX {
        assert_eq!(parse_u16(&to_decimal(n as u64)), Some(n));
    }
    for s in [
        "", "+", "-1", "+0", "+12", "007", "65536", "99999999999999999999", "1 ", " 1", "1a", "٣",
        "++1",
    ] {
        assert_eq!(parse_u16(s), s.parse::<u16>().ok(), "{s}");
    }
}

#[test]
fn trim_cuts_all_white_space_around_a_text() {
    assert_eq!(trim("  192.168.1.200\n"), "192.168.1.200");
    assert_eq!(trim("ic705 local"), "ic705 local");
    assert_eq!(trim(" \u{a0}\t"), "");
    assert_eq!(trim(""), "");
    for code in 0..=0x10ffffu32 {
        if let Some(c) = char::from_u32(code) {
            let s: String = [c, 'x', c].iter().collect();
            assert_eq!(trim(&s), s.trim(), "{code:x}");
        }
    }
}

#[test]
fn texts_are_compared_by_their_characters() {
    assert!(same_text("/civ", "/civ"));
    assert!(!same_text("/civ", "/cis"));
    assert!(!same_text("/civ", "/civ/"));
    assert!(same_text("", ""));
}

#[test]
fn messages_of_the_errors() {
    let io = std::io::Error::new(std::io::ErrorKind::Other, "câble débranché");
    let cases = vec![
        (BridgeError::from(io), "erreur réseau : câble débranché"),
        (BridgeError::Timeout("x".into()), "délai dépassé : x"),
        (
            BridgeError::InvalidCredentials,
            "identifiants invalides (username / password refusés)",
        ),
        (BridgeError::AuthFailed("x".into()), "authentification échouée : x"),
        (BridgeError::NotConnected, "non connecté à l'IC-705"),
        (BridgeError::InvalidFrame("x".into()), "trame CI-V invalide : x"),
        (BridgeError::Protocol("x".into()), "erreur de protocole : x"),
    ];
    for (e, text) in cases {
        assert_eq!(e.to_string(), text);
    }
    let io = std::io::Error::new(std::io::ErrorKind::Other, "y");
    assert_eq!(BridgeError::Io(io).describe("z"), "erreur réseau : z");
}
