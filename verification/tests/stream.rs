use ic705_bridge::error::BridgeError;
use ic705_bridge::rsba1::handshake::{HandshakePhase, Heard};
use ic705_bridge::rsba1::stream::{
    compute_local_sid, IdleStep, Incoming, LocalAddr, Lookup, StreamCommon,
};
use ic705_bridge::rsba1::wire;

const MS: u64 = 1_000_000;

fn stream() -> StreamCommon {
    let mut s = StreamCommon::connect("control", LocalAddr::V4([192, 168, 1, 20], 50001), 0);
    s.remote_sid = 0xDEAD_BEEF;
    s
}

/// An idle packet of the radio with the number `seq`.
fn idle(seq: u16) -> Vec<u8> {
    let mut p = vec![0x10, 0, 0, 0, 0, 0, seq as u8, (seq >> 8) as u8];
    p.extend_from_slice(&[0; 8]);
    p
}

fn answer(a: Incoming) -> Vec<Vec<u8>> {
    match a {
        Incoming::Answer(list) => list,
        Incoming::Deliver => panic!("delivered"),
        Incoming::Drop => panic!("dropped"),
    }
}

#[test]
fn local_sid_comes_from_address_and_port() {
    assert_eq!(
        compute_local_sid(LocalAddr::V4([192, 168, 1, 20], 50001)),
        0x0114_C351
    );
    let mut ip = [0u8; 16];
    ip[12..].copy_from_slice(&[10, 20, 30, 40]);
    assert_eq!(compute_local_sid(LocalAddr::V6(ip, 80)), 0x1E28_0050);
}

#[test]
fn header_layout() {
    let h = stream().header(0x0403_0201, 0x07, 0x1234);
    assert_eq!(
        h,
        [
            0x01, 0x02, 0x03, 0x04, 0x07, 0x00, 0x34, 0x12, 0x01, 0x14, 0xC3, 0x51, 0xDE, 0xAD,
            0xBE, 0xEF
        ]
    );
}

#[test]
fn bytes_split_and_join() {
    for x in [0u32, 1, 0x0102_0304, 0xDEAD_BEEF, u32::MAX] {
        assert_eq!(wire::u32_to_le(x), x.to_le_bytes());
        assert_eq!(wire::u32_to_be(x), x.to_be_bytes());
        let b = x.to_be_bytes();
        assert_eq!(wire::u32_from_be(b[0], b[1], b[2], b[3]), x);
    }
    for x in [0u16, 1, 0x1234, u16::MAX] {
        assert_eq!([wire::low(x), wire::high(x)], x.to_le_bytes());
        assert_eq!(wire::u16_from(wire::low(x), wire::high(x)), x);
    }
}

#[test]
fn unreachable_hosts_are_named() {
    assert!(StreamCommon::resolve("ic705.local", Lookup::Found).is_ok());
    match StreamCommon::resolve("radio", Lookup::Failed) {
        Err(BridgeError::Protocol(why)) => assert_eq!(
            why,
            "hôte introuvable : « radio » (vérifier l'IP ou le nom)"
        ),
        other => panic!("{other:?}"),
    }
    match StreamCommon::resolve("radio", Lookup::Empty) {
        Err(BridgeError::Protocol(why)) => assert_eq!(why, "hôte introuvable : « radio »"),
        other => panic!("{other:?}"),
    }
    assert_eq!(StreamCommon::bind_ports(50002), [50002, 0]);
}

#[test]
fn handshake_learns_the_radio() {
    let mut s = StreamCommon::connect("control", LocalAddr::V4([127, 0, 0, 1], 50001), 0);
    let step = s.handshake();
    assert_eq!(step.phase, HandshakePhase::Pkt4);
    let there = vec![
        0x10, 0, 0, 0, 0x03, 0, 0, 0, 0x00, 0x01, 0xC3, 0x51, 0, 0, 0, 0,
    ];
    assert_eq!(step.send, vec![there.clone(), there]);

    // Something else: nothing changes.
    let step = s.handshake_next(step.phase, &Heard::Datagram(idle(1)));
    assert_eq!(step.phase, HandshakePhase::Pkt4);
    assert!(step.send.is_empty());

    let here = vec![
        0x10, 0, 0, 0, 0x04, 0, 0, 0, 0xDE, 0xAD, 0xBE, 0xEF, 0x00, 0x01, 0xC3, 0x51,
    ];
    let step = s.handshake_next(step.phase, &Heard::Datagram(here));
    assert_eq!(step.phase, HandshakePhase::Pkt6Answer);
    assert_eq!(s.remote_sid, 0xDEAD_BEEF);
    assert!(s.got_remote_sid);
    let ready = vec![
        0x10, 0, 0, 0, 0x06, 0, 0x01, 0, 0x00, 0x01, 0xC3, 0x51, 0xDE, 0xAD, 0xBE, 0xEF,
    ];
    assert_eq!(step.send, vec![ready.clone(), ready.clone()]);

    let step = s.handshake_next(step.phase, &Heard::Datagram(ready));
    assert_eq!(step.phase, HandshakePhase::Open);
    assert!(step.send.is_empty());
    assert!(step.error.is_none());
}

#[test]
fn handshake_times_out() {
    let mut s = StreamCommon::connect("serial", LocalAddr::V4([127, 0, 0, 1], 50002), 0);
    let step = s.handshake_next(HandshakePhase::Pkt4, &Heard::Nothing);
    assert_eq!(step.phase, HandshakePhase::Failed);
    assert_eq!(
        step.error.unwrap().to_string(),
        "délai dépassé : serial/pkt4 : la radio ne répond pas (vérifier IP / RS-BA1 activé)"
    );
    let step = s.handshake_next(HandshakePhase::Pkt6Answer, &Heard::Nothing);
    assert_eq!(
        step.error.unwrap().to_string(),
        "délai dépassé : serial/pkt6 answer"
    );
}

#[test]
fn waiting_time_runs_out() {
    assert_eq!(StreamCommon::time_left(100, 50, 90), Some(50));
    assert_eq!(StreamCommon::time_left(100, 50, 120), Some(30));
    assert_eq!(StreamCommon::time_left(100, 50, 150), Some(0));
    assert_eq!(StreamCommon::time_left(100, 50, 151), None);
}

#[test]
fn tracked_packets_are_numbered_and_sent_again() {
    let mut s = stream();
    let p = s.begin(16, 0x00, 0);
    let first = s.send_tracked(p, 0);
    assert_eq!(first[6..8], [1, 0]);
    let mut long = s.begin(18, 0x00, 0);
    long.extend_from_slice(&[0xAA, 0xBB]);
    let second = s.send_tracked(long, 0);
    assert_eq!(second[6..8], [2, 0]);

    // Simple request.
    let ask = |seq: u16| {
        let mut r = vec![0x10, 0, 0, 0, 0x01, 0, seq as u8, (seq >> 8) as u8];
        r.extend_from_slice(&[0; 8]);
        r
    };
    assert_eq!(
        answer(s.on_datagram(&ask(2), 1)),
        vec![second.clone(), second.clone()]
    );
    // Unknown number: an idle with that number fills the gap.
    let filler = s.header(16, 0x00, 9).to_vec();
    assert_eq!(
        answer(s.on_datagram(&ask(9), 1)),
        vec![filler.clone(), filler.clone()]
    );

    // Ranges: 1 to 2, then 9 to 9; a range that is too long, and leftover bytes, are ignored.
    let mut r = vec![0x18, 0, 0, 0, 0x01, 0, 0, 0];
    r.extend_from_slice(&[0; 8]);
    r.extend_from_slice(&[1, 0, 2, 0, 5, 0, 4, 0, 9, 0, 9, 0, 1, 0, 1]);
    assert_eq!(
        answer(s.on_datagram(&r, 1)),
        vec![
            first.clone(),
            first,
            second.clone(),
            second,
            filler.clone(),
            filler
        ]
    );
}

#[test]
fn the_history_is_bounded() {
    let mut s = stream();
    for _ in 0..300 {
        let p = s.begin(16, 0x00, 0);
        s.send_tracked(p, 0);
    }
    assert_eq!(s.pkt0.tx_buf.len(), 256);
    assert_eq!(s.pkt0.send_seq, 301);
    assert!(s.pkt0.find(44).is_none());
    assert_eq!(s.pkt0.find(45).unwrap()[6..8], [45, 0]);
    assert_eq!(s.pkt0.find(300).unwrap()[6..8], [0x2c, 1]);
    // A range as long as the history is answered, a longer one is not.
    let ask = |end: u16| {
        let mut r = vec![0x18, 0, 0, 0, 0x01, 0, 0, 0];
        r.extend_from_slice(&[0; 8]);
        r.extend_from_slice(&[0, 0, end as u8, (end >> 8) as u8]);
        r
    };
    assert_eq!(s.handle_pkt0_retransmit(&ask(255)).len(), 512);
    assert_eq!(s.handle_pkt0_retransmit(&ask(256)).len(), 0);
}

#[test]
fn numbers_wrap_around() {
    let mut s = stream();
    s.pkt0.send_seq = 0xFFFF;
    let p = s.begin(16, 0x00, 0);
    assert_eq!(s.send_tracked(p, 0)[6..8], [0xFF, 0xFF]);
    let p = s.begin(16, 0x00, 0);
    assert_eq!(s.send_tracked(p, 0)[6..8], [0, 0]);
}

#[test]
fn pings_of_the_radio_are_answered_and_ours_are_counted() {
    let mut s = stream();
    let mut r = vec![0x15, 0, 0, 0, 0x07, 0, 0x34, 0x12];
    r.extend_from_slice(&[0; 8]);
    r.extend_from_slice(&[0x00, 1, 2, 3, 4]);
    let mut pong = s.header(21, 0x07, 0x1234).to_vec();
    pong.extend_from_slice(&[0x01, 1, 2, 3, 4]);
    assert_eq!(answer(s.on_datagram(&r, 7)), vec![pong]);
    assert_eq!(s.last_rx_at, 7);
    // The answer to one of ours calls for nothing.
    r[16] = 0x01;
    assert_eq!(answer(s.on_datagram(&r, 8)), Vec::<Vec<u8>>::new());
    // Only the type tells a ping, not the high bytes of the length.
    r[16] = 0x00;
    r[2] = 0xff;
    assert_eq!(answer(s.on_datagram(&r, 8)).len(), 1);

    s.start_pkt7(2);
    let ping = s.next_ping(0x5A);
    let mut expected = s.header(21, 0x07, 2).to_vec();
    expected.extend_from_slice(&[0x00, 0x5A, 0x04, 0x83, 0x06]);
    assert_eq!(ping, expected);
    assert_eq!(s.pkt7.send_seq, 3);
    assert_eq!(s.pkt7.inner_seq, 0x8305);
    assert_eq!(s.pkt0.send_seq, 1);
}

#[test]
fn pings_hold_an_unpredictable_byte() {
    let mut s = stream();
    let bytes: Vec<u8> = (0..64).map(|_| s.send_ping()[17]).collect();
    assert!(bytes.iter().any(|b| *b != bytes[0]));
}

#[test]
fn duplicates_are_dropped_and_gaps_are_asked_for() {
    let mut s = stream();
    assert!(matches!(s.on_datagram(&idle(10), 1), Incoming::Deliver));
    assert!(matches!(s.on_datagram(&idle(10), 2), Incoming::Drop));
    assert!(matches!(s.on_datagram(&idle(12), 3), Incoming::Deliver));
    assert_eq!(s.rx_retransmit(), vec![s.header(16, 0x01, 11).to_vec()]);
    assert!(matches!(s.on_datagram(&idle(11), 4), Incoming::Deliver));
    assert!(s.rx_retransmit().is_empty());
    // A packet without a number is never a duplicate.
    assert!(matches!(s.on_datagram(&idle(0), 5), Incoming::Deliver));
    assert!(matches!(s.on_datagram(&idle(0), 6), Incoming::Deliver));
    // Neither is a short one.
    assert!(matches!(s.on_datagram(&[1, 2, 3], 7), Incoming::Deliver));
    assert_eq!(s.silent_for(10), 3);
    assert_eq!(s.silent_for(5), 0);
}

#[test]
fn idle_packets_are_paced() {
    let mut s = stream();
    match s.idle_step(40 * MS) {
        IdleStep::Wait(w) => assert_eq!(w, 60 * MS),
        IdleStep::Send(_) => panic!("too early"),
    }
    match s.idle_step(100 * MS) {
        IdleStep::Send(p) => assert_eq!(p, {
            let mut h = s.header(16, 0x00, 1).to_vec();
            h[6] = 1;
            h
        }),
        IdleStep::Wait(_) => panic!("late"),
    }
    // An idle packet is no activity: after a second at rest the pace is one per second.
    s.pkt0.last_send_at = 1000 * MS;
    match s.idle_step(1200 * MS) {
        IdleStep::Wait(w) => assert_eq!(w, 800 * MS),
        IdleStep::Send(_) => panic!("too early"),
    }
    // Another packet is.
    let mut p = s.begin(17, 0x00, 0);
    p.push(0);
    s.send_tracked(p, 1200 * MS);
    match s.idle_step(1250 * MS) {
        IdleStep::Wait(w) => assert_eq!(w, 50 * MS),
        IdleStep::Send(_) => panic!("too early"),
    }
}

#[test]
fn untracked_idle_keeps_its_number() {
    let mut s = stream();
    assert_eq!(s.send_idle(false, 77, 0), s.header(16, 0x00, 77).to_vec());
    assert_eq!(s.pkt0.send_seq, 1);
    assert_eq!(s.send_idle(true, 77, 0)[6..8], [1, 0]);
    assert_eq!(s.pkt0.send_seq, 2);
}

#[test]
fn a_stream_is_closed_twice() {
    let s = stream();
    let p = s.header(16, 0x05, 0).to_vec();
    assert_eq!(s.send_disconnect(), vec![p.clone(), p]);
}
