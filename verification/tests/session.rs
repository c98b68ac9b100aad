use ic705_bridge::error::BridgeError;
use ic705_bridge::rsba1::control::{
    ControlStream, AUTH_END, AUTH_RENEW, CONTROL_FIRST_PING, CONTROL_PORT, SERIAL_PORT,
};
use ic705_bridge::rsba1::handshake::{HandshakePhase, Heard};
use ic705_bridge::rsba1::owner::ControlOwner;
use ic705_bridge::rsba1::passcode::passcode;
use ic705_bridge::rsba1::serial::{connect_serial, KeeperPhase, SerialStream, SERIAL_FIRST_PING};
use ic705_bridge::rsba1::setup::{connect_control, patience, SetupEvent, SetupPhase};
use ic705_bridge::rsba1::stream::{Incoming, LocalAddr, StreamCommon};
use ic705_bridge::session::{
    command_has_subcommand, is_response_to, CivEvent, CivExchange, CivStep, Session,
};

const MS: u64 = 1_000_000;
const RADIO_SID: u32 = 0xDEAD_BEEF;
const CIV_RESPONSE: [u8; 11] = [
    0xFE, 0xFE, 0xE0, 0xA4, 0x03, 0x00, 0x00, 0x05, 0x45, 0x01, 0xFD,
];
const UNSOLICITED_MODE: [u8; 8] = [0xFE, 0xFE, 0xE0, 0xA4, 0x04, 0x01, 0x02, 0xFD];

#[test]
fn correlates_civ_responses_and_rejects_echo_or_unsolicited_frames() {
    let request = [0xFE, 0xFE, 0xA4, 0xE0, 0x03, 0xFD];
    let response = [
        0xFE, 0xFE, 0xE0, 0xA4, 0x03, 0x00, 0x00, 0x05, 0x45, 0x01, 0xFD,
    ];
    let unsolicited_mode = [0xFE, 0xFE, 0xE0, 0xA4, 0x04, 0x01, 0x02, 0xFD];
    let wrong_radio = [0xFE, 0xFE, 0xE0, 0xA5, 0x03, 0xFD];
    let ack = [0xFE, 0xFE, 0xE0, 0xA4, 0xFB, 0xFD];
    let smeter_request = [0xFE, 0xFE, 0xA4, 0xE0, 0x15, 0x02, 0xFD];
    let other_meter = [0xFE, 0xFE, 0xE0, 0xA4, 0x15, 0x11, 0x00, 0x00, 0xFD];

    assert!(!is_response_to(&request, &request));
    assert!(is_response_to(&request, &response));
    assert!(!is_response_to(&request, &unsolicited_mode));
    assert!(!is_response_to(&request, &wrong_radio));
    assert!(is_response_to(&request, &ack));
    assert!(!is_response_to(&smeter_request, &other_meter));
}

#[test]
fn other_correlations() {
    let smeter_request = [0xFE, 0xFE, 0xA4, 0xE0, 0x15, 0x02, 0xFD];
    let smeter = [0xFE, 0xFE, 0xE0, 0xA4, 0x15, 0x02, 0x00, 0x00, 0xFD];
    let refusal = [0xFE, 0xFE, 0xE0, 0xA4, 0xFA, 0xFD];
    assert!(is_response_to(&smeter_request, &smeter));
    assert!(is_response_to(&smeter_request, &refusal));
    // A refusal for somebody else.
    assert!(!is_response_to(&smeter_request, &[0xFE, 0xFE, 0xE1, 0xA4, 0xFA, 0xFD]));
    // Without a sub-command in the response, the command alone counts.
    assert!(is_response_to(&smeter_request, &[0xFE, 0xFE, 0xE0, 0xA4, 0x15, 0xFD]));
    // Frames that are not standard are taken as they come, but for the echo.
    assert!(is_response_to(&[0x01], &UNSOLICITED_MODE));
    assert!(is_response_to(&smeter_request, &[0x01]));
    assert!(is_response_to(&smeter_request, &[]));
    assert!(!is_response_to(&[0x01], &[0x01]));
    let with: Vec<u8> = (0..=255).filter(|c| command_has_subcommand(*c)).collect();
    assert_eq!(
        with,
        vec![0x14, 0x15, 0x16, 0x1A, 0x1B, 0x1C, 0x21, 0x25, 0x26, 0x27]
    );
}

/// Header as the radio writes it: its own identifier first.
fn header(len: u32, typ: u8, seq: u16, radio_sid: u32, client_sid: u32) -> Vec<u8> {
    let mut p = vec![0u8; 16];
    p[0..4].copy_from_slice(&len.to_le_bytes());
    p[4] = typ;
    p[6] = seq as u8;
    p[7] = (seq >> 8) as u8;
    p[8..12].copy_from_slice(&radio_sid.to_be_bytes());
    p[12..16].copy_from_slice(&client_sid.to_be_bytes());
    p
}

/// Data packet of the radio that carries a CI-V frame.
fn data_packet(civ: &[u8], client_sid: u32) -> Vec<u8> {
    let mut p = header(21 + civ.len() as u32, 0x00, 0, RADIO_SID + 1, client_sid);
    let l = civ.len() as u16;
    p.extend_from_slice(&[0xc1, l as u8, (l >> 8) as u8, 0x00, 0x00]);
    p.extend_from_slice(civ);
    p
}

fn client_sid(r: &[u8]) -> u32 {
    u32::from_be_bytes([r[8], r[9], r[10], r[11]])
}

/// What the radio answers to the datagram `r` on its control port.
fn mock_control(r: &[u8], good_password: bool) -> Vec<Vec<u8>> {
    let sid = client_sid(r);
    match (r.len(), r[4]) {
        (16, 0x03) => vec![header(16, 0x04, 0, RADIO_SID, sid)],
        (16, 0x06) => vec![header(16, 0x06, 1, RADIO_SID, sid)],
        (128, 0x00) if r[0] == 0x80 => {
            let mut p = header(96, 0x00, 0, RADIO_SID, sid);
            p.resize(96, 0);
            if good_password {
                p[26..32].copy_from_slice(&[1, 2, 3, 4, 5, 6]);
            } else {
                p[48..52].copy_from_slice(&[0xff, 0xff, 0xff, 0xfe]);
            }
            vec![p]
        }
        (64, 0x00) if r[0] == 0x40 => {
            let mut p = header(64, 0x00, 0, RADIO_SID, sid);
            p.resize(64, 0);
            p[21] = 0x05;
            let mut a8 = header(168, 0x00, 0, RADIO_SID, sid);
            a8.resize(168, 0);
            a8[66..82].copy_from_slice(&[0xAA; 16]);
            vec![p, a8]
        }
        (144, 0x00) if r[0] == 0x90 => {
            let mut p = header(144, 0x00, 0, RADIO_SID, sid);
            p.resize(144, 0);
            p[26..32].copy_from_slice(&[1, 2, 3, 4, 5, 6]);
            p[96] = 1;
            vec![p]
        }
        _ => vec![],
    }
}

/// What the radio answers to the datagram `r` on its serial port: a frame is echoed, followed by a
/// notification that has nothing to do with it, and by the response.
fn mock_serial(r: &[u8]) -> Vec<Vec<u8>> {
    let sid = client_sid(r);
    if r.len() == 16 && r[4] == 0x03 {
        vec![header(16, 0x04, 0, RADIO_SID + 1, sid)]
    } else if r.len() == 16 && r[4] == 0x06 {
        vec![header(16, 0x06, 1, RADIO_SID + 1, sid)]
    } else if r.len() > 21 && r[16] == 0xc1 {
        let l = u16::from_le_bytes([r[17], r[18]]) as usize;
        let civ = r[21..21 + l].to_vec();
        vec![
            data_packet(&civ, sid),
            data_packet(&UNSOLICITED_MODE, sid),
            data_packet(&CIV_RESPONSE, sid),
        ]
    } else {
        vec![]
    }
}

/// Runs the setup of the control stream against the mock radio.
fn set_up(password: &str, good_password: bool) -> (ControlStream, Result<(), BridgeError>, Vec<Vec<u8>>) {
    let local = LocalAddr::V4([127, 0, 0, 1], CONTROL_PORT);
    let common = StreamCommon::connect("control", local, 0);
    let (mut control, mut step) = connect_control(common, "user", password);
    let mut owner = ControlOwner::new();
    let mut sent = vec![];
    let mut inbox: Vec<Vec<u8>> = vec![];
    let mut signal = None;
    loop {
        for d in &step.send {
            inbox.extend(mock_control(d, good_password));
            sent.push(d.clone());
        }
        if let Some(outcome) = step.outcome {
            return (control, outcome, sent);
        }
        let event = if step.phase == SetupPhase::Ready {
            while signal.is_none() {
                let r = inbox.remove(0);
                assert!(matches!(control.common.on_datagram(&r, 1), Incoming::Deliver));
                let told = owner.on_packet(&mut control, &r, 1);
                if let Some(d) = told.request {
                    inbox.extend(mock_control(&d, good_password));
                    sent.push(d);
                }
                signal = told.signal;
            }
            SetupEvent::Signal(signal.take().unwrap())
        } else {
            SetupEvent::Heard(Heard::Datagram(inbox.remove(0)))
        };
        step = control.setup_next(step.phase, event, 1);
    }
}

/// Opens the serial stream on the mock radio.
fn open_serial() -> SerialStream {
    let local = LocalAddr::V4([127, 0, 0, 1], SERIAL_PORT);
    let (mut serial, mut step) = connect_serial(StreamCommon::connect("serial", local, 0));
    let mut inbox: Vec<Vec<u8>> = vec![];
    while step.phase != HandshakePhase::Open {
        for d in &step.send {
            inbox.extend(mock_serial(d));
        }
        step = serial.serial_handshake(step.phase, &Heard::Datagram(inbox.remove(0)));
    }
    serial
}

#[test]
fn full_session_over_mock_radio() {
    let (mut control, outcome, sent) = set_up("pass", true);
    assert!(outcome.is_ok());
    assert_eq!(control.auth_id, [1, 2, 3, 4, 5, 6]);
    assert_eq!(control.common.pkt7.send_seq, CONTROL_FIRST_PING);
    // Twice each packet of the handshake, the login, two authentications, one request.
    let lengths: Vec<usize> = sent.iter().map(|d| d.len()).collect();
    assert_eq!(lengths, vec![16, 16, 16, 16, 128, 64, 64, 144]);
    assert_eq!(sent[4][64..80], passcode("user"));
    assert_eq!(sent[4][80..96], passcode("pass"));
    assert_eq!(sent[7][32..48], [0xAA; 16]);
    assert_eq!(sent[7][96..112], passcode("user"));

    let mut serial = open_serial();
    assert_eq!(serial.common.remote_sid, RADIO_SID + 1);
    assert_eq!(serial.common.pkt7.send_seq, SERIAL_FIRST_PING);
    let (session, freed) = Session::connect("127.0.0.1", &mut control, Ok(()), 2);
    let session = session.unwrap();
    assert!(freed.is_empty());
    assert_eq!(session.host, "127.0.0.1");

    let tx = [0xFE, 0xFE, 0xA4, 0xE0, 0x03, 0xFD];
    let (datagram, mut exchange) = session.send_civ(&mut serial, &tx, 3);
    assert!(matches!(exchange.sent(3), CivStep::Wait(w) if w == 1200 * MS));
    let mut last = CivStep::Wait(0);
    for r in mock_serial(&datagram) {
        assert!(matches!(serial.common.on_datagram(&r, 4), Incoming::Deliver));
        let frame = serial.on_packet(&r, 4).unwrap();
        last = exchange.next(CivEvent::Frame(frame), 4);
    }
    assert!(matches!(last, CivStep::Wait(w) if w == 200 * MS));
    match exchange.next(CivEvent::Silence, 205 * MS) {
        CivStep::Done(Ok(resp)) => assert_eq!(resp, CIV_RESPONSE),
        CivStep::Done(Err(e)) => panic!("{e:?}"),
        CivStep::Wait(_) => panic!("still waiting"),
    }

    let farewell = session.disconnect(&mut serial, &mut control, 6);
    assert_eq!(farewell.serial.len(), 3);
    assert_eq!(farewell.serial[0][16..19], [0xc0, 0x01, 0x00]);
    assert_eq!(farewell.serial[0][21], 0x00);
    assert_eq!(farewell.serial[1], serial.common.header(16, 0x05, 0));
    assert_eq!(farewell.serial[2], serial.common.header(16, 0x05, 0));
    assert_eq!(farewell.control.len(), 1);
    assert_eq!(farewell.control[0].len(), 64);
    assert_eq!(farewell.control[0][21], AUTH_END);
    assert_eq!(farewell.wait, 500 * MS);
    let p = control.common.header(16, 0x05, 0).to_vec();
    assert_eq!(farewell.last, vec![p.clone(), p]);
}

#[test]
fn watchdog_detects_dead_radio() {
    let (mut control, outcome, _) = set_up("pass", true);
    assert!(outcome.is_ok());
    let serial = open_serial();
    let mut session = Session::connect("127.0.0.1", &mut control, Ok(()), 2).0.unwrap();
    assert!(!session.link_lost_watch());
    let control_at = control.common.last_rx_at;
    let limit = 10_000 * MS;
    assert!(!session.check_link(&control.common, &serial.common, control_at + limit));
    assert!(!session.link_lost_watch());
    assert!(session.check_link(&control.common, &serial.common, control_at + limit + 1));
    assert!(session.link_lost_watch());
    // The loss is told once, and stays.
    assert!(!session.check_link(&control.common, &serial.common, control_at + limit + 2));
    assert!(session.link_lost_watch());
}

#[test]
fn one_live_stream_keeps_the_link() {
    let local = LocalAddr::V4([127, 0, 0, 1], CONTROL_PORT);
    let mut a = StreamCommon::connect("control", local, 0);
    let b = StreamCommon::connect("serial", local, 0);
    let mut session = Session { host: "radio".into(), link_lost: false };
    a.on_datagram(&[0; 21], 5_000 * MS);
    assert!(!session.check_link(&a, &b, 15_000 * MS));
    assert!(!session.check_link(&b, &a, 15_000 * MS));
    assert!(session.check_link(&a, &b, 15_000 * MS + 1));
}

#[test]
fn bad_credentials_release_radio_session() {
    let (control, outcome, sent) = set_up("badpass", false);
    assert!(matches!(outcome, Err(BridgeError::InvalidCredentials)));
    let p = control.common.header(16, 0x05, 0).to_vec();
    assert_eq!(sent[sent.len() - 2..], [p.clone(), p]);
}

#[test]
fn a_failed_serial_stream_releases_the_session() {
    let (mut control, outcome, _) = set_up("pass", true);
    assert!(outcome.is_ok());
    let failure = Err(BridgeError::Timeout("serial/pkt6 answer".into()));
    let (session, freed) = Session::connect("radio", &mut control, failure, 2);
    assert!(matches!(session, Err(BridgeError::Timeout(why)) if why == "serial/pkt6 answer"));
    assert_eq!(freed.len(), 3);
    assert_eq!(freed[0][21], AUTH_END);
    assert_eq!(freed[0][26..32], [1, 2, 3, 4, 5, 6]);
    assert_eq!(freed[1], control.common.header(16, 0x05, 0));
    assert_eq!(freed[2], freed[1]);
}

fn control_stream() -> ControlStream {
    let local = LocalAddr::V4([127, 0, 0, 1], CONTROL_PORT);
    ControlStream::new(StreamCommon::connect("control", local, 0), "beer", "test")
}

#[test]
fn setup_failures() {
    let mut c = control_stream();
    let step = c.setup_with(SetupPhase::Login, SetupEvent::Heard(Heard::Nothing), [0, 0], 0);
    assert_eq!(step.phase, SetupPhase::Done);
    assert_eq!(
        step.outcome.unwrap().unwrap_err().to_string(),
        "délai dépassé : réponse de login"
    );
    let step = c.setup_with(SetupPhase::Ready, SetupEvent::SignalTimeout, [0, 0], 0);
    assert_eq!(
        step.outcome.unwrap().unwrap_err().to_string(),
        "délai dépassé : ouverture du stream serial+audio (la radio n'a pas confirmé)"
    );
    let step = c.setup_with(SetupPhase::Ready, SetupEvent::SignalLost, [0, 0], 0);
    assert_eq!(
        step.outcome.unwrap().unwrap_err().to_string(),
        "erreur de protocole : canal de disponibilité fermé"
    );
    let heard = SetupEvent::Heard(Heard::Nothing);
    let phase = SetupPhase::Handshake(HandshakePhase::Pkt4);
    let step = c.setup_with(phase, heard, [0, 0], 0);
    assert_eq!(
        step.outcome.unwrap().unwrap_err().to_string(),
        "délai dépassé : control/pkt4 : la radio ne répond pas (vérifier IP / RS-BA1 activé)"
    );
    // A short or foreign datagram is no answer to the login.
    let heard = SetupEvent::Heard(Heard::Datagram(vec![0x60, 0, 0, 0, 0, 0]));
    let step = c.setup_with(SetupPhase::Login, heard, [0, 0], 0);
    assert_eq!(step.phase, SetupPhase::Login);
    assert!(step.send.is_empty() && step.outcome.is_none());

    assert_eq!(patience(SetupPhase::Handshake(HandshakePhase::Pkt4)), 2_000 * MS);
    assert_eq!(patience(SetupPhase::Login), 2_000 * MS);
    assert_eq!(patience(SetupPhase::Ready), 8_000 * MS);
    assert_eq!(patience(SetupPhase::Done), 0);
}

#[test]
fn control_packets() {
    let mut c = control_stream();
    c.common.remote_sid = RADIO_SID;
    let login = c.login_with([0x11, 0x22], 0);
    let mut expected = header(128, 0, 1, 0x0001_C351, RADIO_SID);
    expected.extend_from_slice(&[0, 0, 0, 0x70, 1, 0, 0, 0, 0, 0, 0x11, 0x22, 0, 0, 0, 0]);
    expected.extend_from_slice(&[0; 32]);
    expected.extend_from_slice(&passcode("beer"));
    expected.extend_from_slice(&passcode("test"));
    expected.extend_from_slice(b"icom-pc\0");
    expected.extend_from_slice(&[0; 24]);
    assert_eq!(login, expected);

    c.auth_id = [1, 2, 3, 4, 5, 6];
    c.auth_inner_seq = 0x0201;
    let auth = c.send_auth(AUTH_RENEW, 0);
    let mut expected = header(64, 0, 2, 0x0001_C351, RADIO_SID);
    expected.extend_from_slice(&[0, 0, 0, 0x30, 1, 5, 0, 1, 2, 0, 1, 2, 3, 4, 5, 6]);
    expected.extend_from_slice(&[0; 32]);
    assert_eq!(auth, expected);

    let request = c.send_request_serial_audio(&[0xAA; 16], 0);
    let mut expected = header(144, 0, 3, 0x0001_C351, RADIO_SID);
    expected.extend_from_slice(&[0, 0, 0, 0x80, 1, 3, 0, 2, 2, 0, 1, 2, 3, 4, 5, 6]);
    expected.extend_from_slice(&[0xAA; 16]);
    expected.extend_from_slice(&[0; 16]);
    expected.extend_from_slice(b"IC-705\0\0");
    expected.extend_from_slice(&[0; 24]);
    expected.extend_from_slice(&passcode("beer"));
    expected.extend_from_slice(&[
        1, 1, 4, 4, 0, 0, 0xBB, 0x80, 0, 0, 0xBB, 0x80, 0, 0, 0xC3, 0x52, 0, 0, 0xC3, 0x53, 0, 0,
        0x01, 0x2C, 1, 0, 0, 0, 0, 0, 0, 0,
    ]);
    assert_eq!(request, expected);
}

#[test]
fn logins_are_unpredictable() {
    let ids: Vec<Vec<u8>> = (0..32).map(|_| control_stream().send_login(0)[26..28].to_vec()).collect();
    assert!(ids.iter().any(|id| *id != ids[0]));
}

fn control_reply(kind: u8, len: usize) -> Vec<u8> {
    let mut r = vec![0u8; len];
    r[0] = kind;
    r
}

#[test]
fn the_owner_asks_once_and_tells_once() {
    let mut c = control_stream();
    let mut owner = ControlOwner::new();
    let mut a8 = control_reply(0xa8, 168);
    a8[66..82].copy_from_slice(&[7; 16]);
    let step = owner.on_packet(&mut c, &a8, 0);
    assert!(step.request.is_none() && step.signal.is_none() && !step.stop);
    let mut ok = control_reply(0x40, 64);
    assert!(owner.on_packet(&mut c, &ok, 0).request.is_none());
    ok[21] = 0x05;
    let step = owner.on_packet(&mut c, &ok, 0);
    assert_eq!(step.request.unwrap()[32..48], [7; 16]);
    assert!(owner.on_packet(&mut c, &ok, 0).request.is_none());

    let mut open = control_reply(0x90, 144);
    open[8..16].copy_from_slice(&[1, 2, 3, 4, 5, 6, 7, 8]);
    open[26..32].copy_from_slice(&[9, 9, 9, 9, 9, 9]);
    assert!(owner.on_packet(&mut c, &open, 0).signal.is_none());
    open[96] = 1;
    assert!(matches!(owner.on_packet(&mut c, &open, 0).signal, Some(Ok(()))));
    assert_eq!(c.common.remote_sid, 0x0102_0304);
    assert_eq!(c.common.local_sid, 0x0506_0708);
    assert_eq!(c.auth_id, [9; 6]);
    assert!(owner.on_packet(&mut c, &open, 0).signal.is_none());
    assert!(owner.on_request_failed(BridgeError::NotConnected).is_none());
}

#[test]
fn the_owner_tells_refusals() {
    let mut refused = control_reply(0x50, 80);
    refused[48..51].copy_from_slice(&[0xff, 0xff, 0xff]);
    let step = ControlOwner::new().on_packet(&mut control_stream(), &refused, 0);
    assert!(step.stop);
    assert_eq!(
        step.signal.unwrap().unwrap_err().to_string(),
        "authentification échouée : refus de la radio (essayer de redémarrer l'IC-705)"
    );
    let mut gone = control_reply(0x50, 80);
    assert!(!ControlOwner::new().on_packet(&mut control_stream(), &gone, 0).stop);
    gone[64] = 0x01;
    let step = ControlOwner::new().on_packet(&mut control_stream(), &gone, 0);
    assert!(step.stop);
    assert_eq!(
        step.signal.unwrap().unwrap_err().to_string(),
        "authentification échouée : radio déconnectée"
    );
    let told = ControlOwner::new().on_request_failed(BridgeError::NotConnected);
    assert!(matches!(told, Some(Err(BridgeError::NotConnected))));
}

fn serial_stream() -> SerialStream {
    let local = LocalAddr::V4([127, 0, 0, 1], SERIAL_PORT);
    connect_serial(StreamCommon::connect("serial", local, 0)).0
}

#[test]
fn serial_packets() {
    let mut s = serial_stream();
    s.serial_seq = 0x0102;
    let p = s.send_civ(&[0xFE, 0xFD], 0);
    let mut expected = header(23, 0, 1, 0x0001_C352, 0);
    expected.extend_from_slice(&[0xc1, 2, 0, 1, 2, 0xFE, 0xFD]);
    assert_eq!(p, expected);
    let p = s.send_open_close(false, 0);
    let mut expected = header(22, 0, 2, 0x0001_C352, 0);
    expected.extend_from_slice(&[0xc0, 1, 0, 1, 3, 5]);
    assert_eq!(p, expected);
    let p = s.send_open_close(true, 0);
    assert_eq!(p[16..], [0xc0, 1, 0, 1, 4, 0]);
}

#[test]
fn frames_of_every_length_arrive_as_they_were_sent() {
    for n in [1usize, 6, 255, 256, 497, 65535] {
        let data: Vec<u8> = (0..n).map(|i| i as u8).collect();
        let p = serial_stream().send_civ(&data, 0);
        assert_eq!(serial_stream().on_packet(&p, 9).unwrap(), data);
    }
    let mut s = serial_stream();
    assert!(s.on_packet(&s.common.header(16, 0, 0), 9).is_none());
    let opening = s.send_open_close(false, 0);
    assert!(s.on_packet(&opening, 9).is_none());
    let empty = s.send_civ(&[], 0);
    assert!(s.on_packet(&empty, 9).is_none());
    assert_eq!(s.last_civ_rx, None);
    // A length that goes beyond the end stands for what is there.
    let mut p = s.send_civ(&[1, 2, 3], 0);
    p[17] = 200;
    assert_eq!(s.on_packet(&p, 9).unwrap(), vec![1, 2, 3]);
    assert_eq!(s.last_civ_rx, Some(9));
    p[17] = 1;
    assert_eq!(s.on_packet(&p, 10).unwrap(), vec![1]);
}

#[test]
fn the_channel_is_kept_open() {
    let mut s = serial_stream();
    let step = s.open_keeper(1_000 * MS);
    assert_eq!(step.phase, KeeperPhase::Opening(1_000 * MS));
    assert_eq!(step.send.unwrap()[21], 0x05);
    assert_eq!(step.sleep, 100 * MS);
    let step = s.keeper_next(step.phase, 1_100 * MS);
    assert_eq!(step.phase, KeeperPhase::Opening(1_000 * MS));
    assert!(step.send.is_some());
    // A frame comes.
    let p = serial_stream().send_civ(&[1], 0);
    s.on_packet(&p, 1_150 * MS);
    let step = s.keeper_next(step.phase, 1_200 * MS);
    assert_eq!(step.phase, KeeperPhase::Watching);
    assert!(step.send.is_none());
    assert_eq!(step.sleep, 500 * MS);
    let step = s.keeper_next(step.phase, 3_150 * MS);
    assert_eq!(step.phase, KeeperPhase::Watching);
    let step = s.keeper_next(step.phase, 3_150 * MS + 1);
    assert_eq!(step.phase, KeeperPhase::Opening(3_150 * MS + 1));
    assert!(step.send.is_some());
}

fn timeout_text(step: CivStep) -> String {
    match step {
        CivStep::Done(Err(e)) => e.to_string(),
        CivStep::Done(Ok(r)) => panic!("{r:?}"),
        CivStep::Wait(w) => panic!("{w}"),
    }
}

#[test]
fn an_exchange_without_response_times_out() {
    let tx = [0xFE, 0xFE, 0xA4, 0xE0, 0x03, 0xFD];
    let text = "délai dépassé : réponse CI-V à FE FE A4 E0 03 FD";
    let mut x = CivExchange::new(&tx, 0);
    assert_eq!(timeout_text(x.next(CivEvent::Silence, 1_200 * MS)), text);
    let mut x = CivExchange::new(&tx, 0);
    assert_eq!(timeout_text(x.next(CivEvent::Closed, 1)), text);
    // The echo and other notifications do not extend the time.
    let mut x = CivExchange::new(&tx, 0);
    let echo = CivEvent::Frame(tx.to_vec());
    assert!(matches!(x.next(echo, 200 * MS), CivStep::Wait(w) if w == 1_000 * MS));
    let other = CivEvent::Frame(UNSOLICITED_MODE.to_vec());
    assert!(matches!(x.next(other, 1_200 * MS), CivStep::Wait(0)));
    assert_eq!(timeout_text(x.next(CivEvent::Lagged, 1_200 * MS + 1)), text);
    // An empty frame is no response.
    let mut x = CivExchange::new(&tx, 0);
    assert_eq!(timeout_text(x.next(CivEvent::Frame(vec![]), 1)), text);
}

#[test]
fn a_response_is_gathered_within_its_window() {
    let tx = [0xFE, 0xFE, 0xA4, 0xE0, 0x03, 0xFD];
    let mut x = CivExchange::new(&tx, 0);
    let first = CivEvent::Frame(CIV_RESPONSE.to_vec());
    assert!(matches!(x.next(first, 1_100 * MS), CivStep::Wait(w) if w == 200 * MS));
    let other = CivEvent::Frame(UNSOLICITED_MODE.to_vec());
    assert!(matches!(x.next(other, 1_200 * MS), CivStep::Wait(w) if w == 200 * MS));
    assert!(matches!(x.next(CivEvent::Lagged, 1_300 * MS), CivStep::Wait(_)));
    let second = CivEvent::Frame(CIV_RESPONSE.to_vec());
    match x.next(second, 1_500 * MS) {
        CivStep::Done(Ok(r)) => assert_eq!(r, [CIV_RESPONSE, CIV_RESPONSE].concat()),
        CivStep::Done(Err(e)) => panic!("{e:?}"),
        CivStep::Wait(w) => panic!("{w}"),
    }
    let mut x = CivExchange::new(&tx, 0);
    x.next(CivEvent::Frame(CIV_RESPONSE.to_vec()), 1);
    assert!(matches!(x.next(CivEvent::Closed, 2), CivStep::Done(Ok(r)) if r == CIV_RESPONSE));
}
