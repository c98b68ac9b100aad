//! The serial stream (port 50002): CI-V frames in both directions.
//!
//! Frames travel as they are, inside data packets. Times are nanoseconds on the caller's monotonic
//! clock.

use vstd::prelude::*;

use crate::rsba1::handshake;
use crate::rsba1::handshake::HandshakePhase;
use crate::rsba1::handshake::HandshakeStep;
use crate::rsba1::handshake::Heard;
use crate::rsba1::pkt0;
use crate::rsba1::stream;
use crate::rsba1::stream::Incoming;
use crate::rsba1::stream::StreamCommon;
use crate::rsba1::stream::StreamView;
use crate::rsba1::wire;

verus! {

/// Interval between two openings of the channel while no frame comes: 100 ms.
pub const OPEN_RESEND_INTERVAL: u64 = 100_000_000;

/// Without a frame for this long, the channel is opened again: 2 s.
pub const CIV_WATCHDOG: u64 = 2_000_000_000;

/// Interval between two checks of the frames that come in: 500 ms.
pub const WATCHDOG_CHECK: u64 = 500_000_000;

/// Number of the first ping on the serial stream.
pub const SERIAL_FIRST_PING: u16 = 1;

/// The serial stream.
pub struct SerialStream {
    pub common: StreamCommon,
    /// Number of the next data or opening packet, apart from that of its header.
    pub serial_seq: u16,
    /// When the last CI-V frame came.
    pub last_civ_rx: Option<u64>,
}

/// What a `SerialStream` stands for.
#[verifier::ext_equal]
pub struct SerialView {
    pub common: StreamView,
    pub serial_seq: u16,
    pub last_civ_rx: Option<u64>,
}

impl View for SerialStream {
    type V = SerialView;

    open spec fn view(&self) -> SerialView {
        SerialView {
            common: self.common@,
            serial_seq: self.serial_seq,
            last_civ_rx: self.last_civ_rx,
        }
    }
}

/// The CI-V frame inside the packet `r`, if it is a data packet. A length that goes beyond the end
/// of the packet stands for what is there.
pub open spec fn civ_payload(r: Seq<u8>) -> Option<Seq<u8>> {
    if r.len() > 21 && r[4] == 0 && r[16] == 0xc1 && wire::join16(r[17], r[18]) > 0 {
        let end = 21 + wire::join16(r[17], r[18]);
        Some(r.subrange(21, if end <= r.len() {
            end
        } else {
            r.len() as int
        }))
    } else {
        None
    }
}

/// What the keeper of the channel is about.
#[derive(Clone, Copy, PartialEq, Eq, Structural, Debug)]
pub enum KeeperPhase {
    /// Opening the channel, since the given time.
    Opening(u64),
    /// The channel is open: watching the frames that come in.
    Watching,
}

/// A step of the keeper of the channel.
pub struct KeeperStep {
    pub phase: KeeperPhase,
    /// The packet to send now, if any.
    pub send: Option<Vec<u8>>,
    /// How long to sleep before the next step.
    pub sleep: u64,
}

impl SerialView {
    /// A serial stream on which nothing has been sent.
    pub open spec fn created(common: StreamView) -> SerialView {
        SerialView { common, serial_seq: 0, last_civ_rx: None }
    }

    pub open spec fn wf(self) -> bool {
        self.common.wf()
    }

    /// The packet that carries the frame `data`. The length field has 16 bits.
    pub open spec fn data_packet(self, data: Seq<u8>) -> Seq<u8> {
        self.common.header((21 + data.len()) as u32, 0x00, 0) + seq![0xc1u8] + wire::le16(
            (data.len() % 0x10000) as u16,
        ) + wire::be16(self.serial_seq) + data
    }

    /// The packet that opens the channel, or closes it.
    pub open spec fn open_close(self, close: bool) -> Seq<u8> {
        self.common.header(22, 0x00, 0) + seq![0xc0u8, 0x01, 0x00] + wire::be16(self.serial_seq)
            + seq![
            if close {
                0x00u8
            } else {
                0x05
            },
        ]
    }

    /// The state once `packet`, which used the serial number, has been sent at time `now`.
    pub open spec fn sent(self, packet: Seq<u8>, now: u64) -> SerialView {
        SerialView {
            common: self.common.numbered(packet, now),
            serial_seq: wire::after(self.serial_seq, 1),
            ..self
        }
    }

    /// The state once the packet `r` has been read at time `now`.
    pub open spec fn read(self, r: Seq<u8>, now: u64) -> SerialView {
        if civ_payload(r) is Some {
            SerialView { last_civ_rx: Some(now), ..self }
        } else {
            self
        }
    }

    /// The state once the handshake has heard `heard` in phase `phase`. The pings begin when it
    /// opens the stream.
    pub open spec fn shaken(self, phase: HandshakePhase, heard: Option<Seq<u8>>) -> SerialView {
        let common = self.common.shaken(phase, heard);
        SerialView {
            common: if handshake::next_phase(phase, heard) == HandshakePhase::Open {
                common.pinging_from(SERIAL_FIRST_PING)
            } else {
                common
            },
            ..self
        }
    }

    /// The phase of the keeper that follows `phase` at time `now`: a frame that came since the
    /// opening began ends it; a frame that is too old, or none, begins it again.
    pub open spec fn keeper_phase(self, phase: KeeperPhase, now: u64) -> KeeperPhase {
        match phase {
            KeeperPhase::Opening(start) => if self.last_civ_rx matches Some(t) && t >= start {
                KeeperPhase::Watching
            } else {
                phase
            },
            KeeperPhase::Watching => if self.last_civ_rx matches Some(t) && now - t
                <= CIV_WATCHDOG {
                KeeperPhase::Watching
            } else {
                KeeperPhase::Opening(now)
            },
        }
    }
}

/// Whether `step` is the step of the keeper towards `phase`: the channel is opened in the opening
/// phase, and nothing is sent in the other.
pub open spec fn is_keeper_step(
    before: SerialView,
    after: SerialView,
    phase: KeeperPhase,
    now: u64,
    step: KeeperStep,
) -> bool {
    &&& step.phase == phase
    &&& match phase {
        KeeperPhase::Opening(_) => {
            &&& step.send matches Some(p)
            &&& p@ == before.common.stamp(before.open_close(false))
            &&& step.sleep == OPEN_RESEND_INTERVAL
            &&& after == before.sent(before.open_close(false), now)
        },
        KeeperPhase::Watching => {
            &&& step.send is None
            &&& step.sleep == WATCHDOG_CHECK
            &&& after == before
        },
    }
}

/// Begins a serial stream on `common`: the handshake goes out.
pub fn connect_serial(common: StreamCommon) -> (r: (SerialStream, HandshakeStep))
    ensures
        r.0@ == SerialView::created(common@),
        r.1.phase == HandshakePhase::Pkt4,
        wire::contents(r.1.send@) == common@.are_you_there(),
        r.1.error is None,
{
    let step = common.handshake();
    (SerialStream { common, serial_seq: 0, last_civ_rx: None }, step)
}

impl SerialStream {
    /// Goes on with the handshake of the serial stream.
    pub fn serial_handshake(&mut self, phase: HandshakePhase, heard: &Heard) -> (step: HandshakeStep)
        ensures
            step.phase == handshake::next_phase(phase, heard.bytes()),
            wire::contents(step.send@) == (if phase == HandshakePhase::Pkt4 && step.phase
                == HandshakePhase::Pkt6Answer {
                final(self)@.common.are_you_ready()
            } else {
                Seq::empty()
            }),
            handshake::is_timeout(
                step.error,
                old(self)@.common.handshake_failure(phase, heard.bytes()),
            ),
            final(self)@ == old(self)@.shaken(phase, heard.bytes()),
            old(self)@.wf() ==> final(self)@.wf(),
    {
        let step = self.common.handshake_next(phase, heard);
        if step.phase == HandshakePhase::Open {
            self.common.start_pkt7(SERIAL_FIRST_PING);
        }
        step
    }

    /// Takes the next serial number.
    fn next_serial_seq(&mut self) -> (seq: u16)
        ensures
            seq == old(self)@.serial_seq,
            final(self)@ == (SerialView {
                serial_seq: wire::after(old(self)@.serial_seq, 1),
                ..old(self)@
            }),
    {
        let seq: u16 = self.serial_seq;
        self.serial_seq = seq.wrapping_add(1);
        seq
    }

    /// The packet that carries the CI-V frame `data` to the radio.
    pub fn send_civ(&mut self, data: &[u8], now: u64) -> (out: Vec<u8>)
        requires
            data@.len() <= u32::MAX - 21,
        ensures
            out@ == old(self)@.common.stamp(old(self)@.data_packet(data@)),
            final(self)@ == old(self)@.sent(old(self)@.data_packet(data@), now),
            old(self)@.wf() ==> final(self)@.wf(),
    {
        let ghost before = self@;
        let l: u16 = (data.len() % 0x10000) as u16;
        let seq = self.next_serial_seq();
        let mut p = self.common.begin(21 + data.len() as u32, 0x00, 0);
        let head: [u8; 5] = [0xc1, wire::low(l), wire::high(l), wire::high(seq), wire::low(seq)];
        wire::append(&mut p, head.as_slice());
        wire::append(&mut p, data);
        assert(p@ =~= before.data_packet(data@));
        self.common.send_tracked(p, now)
    }

    /// The packet that opens the channel on the side of the radio, or closes it.
    pub fn send_open_close(&mut self, close: bool, now: u64) -> (out: Vec<u8>)
        ensures
            out@ == old(self)@.common.stamp(old(self)@.open_close(close)),
            final(self)@ == old(self)@.sent(old(self)@.open_close(close), now),
            old(self)@.wf() ==> final(self)@.wf(),
    {
        let ghost before = self@;
        let magic: u8 = if close {
            0x00
        } else {
            0x05
        };
        let seq = self.next_serial_seq();
        let mut p = self.common.begin(22, 0x00, 0);
        let tail: [u8; 6] = [0xc0, 0x01, 0x00, wire::high(seq), wire::low(seq), magic];
        wire::append(&mut p, tail.as_slice());
        assert(p@ =~= before.open_close(close));
        self.common.send_tracked(p, now)
    }

    /// The CI-V frame inside a packet delivered by the stream at time `now`, if there is one.
    pub fn on_packet(&mut self, r: &[u8], now: u64) -> (frame: Option<Vec<u8>>)
        ensures
            match frame {
                Some(f) => civ_payload(r@) == Some(f@),
                None => civ_payload(r@) is None,
            },
            final(self)@ == old(self)@.read(r@, now),
            old(self)@.wf() ==> final(self)@.wf(),
    {
        if r.len() > 21 && r[4] == 0x00 && r[16] == 0xc1 {
            let l: usize = wire::u16_from(r[17], r[18]) as usize;
            let end: usize = if l <= r.len() - 21 {
                21 + l
            } else {
                r.len()
            };
            if end > 21 {
                self.last_civ_rx = Some(now);
                return Some(wire::slice_of(r, 21, end));
            }
        }
        None
    }

    /// Enters the phase `phase` of the keeper.
    fn keeper_enter(&mut self, phase: KeeperPhase, now: u64) -> (step: KeeperStep)
        ensures
            is_keeper_step(old(self)@, final(self)@, phase, now, step),
            old(self)@.wf() ==> final(self)@.wf(),
    {
        match phase {
            KeeperPhase::Opening(_) => {
                let p = self.send_open_close(false, now);
                KeeperStep { phase, send: Some(p), sleep: OPEN_RESEND_INTERVAL }
            },
            KeeperPhase::Watching => KeeperStep { phase, send: None, sleep: WATCHDOG_CHECK },
        }
    }

    /// Begins to keep the channel open.
    pub fn open_keeper(&mut self, now: u64) -> (step: KeeperStep)
        ensures
            is_keeper_step(old(self)@, final(self)@, KeeperPhase::Opening(now), now, step),
            old(self)@.wf() ==> final(self)@.wf(),
    {
        self.keeper_enter(KeeperPhase::Opening(now), now)
    }

    /// Goes on keeping the channel open, after the sleep of the last step.
    pub fn keeper_next(&mut self, phase: KeeperPhase, now: u64) -> (step: KeeperStep)
        ensures
            is_keeper_step(
                old(self)@,
                final(self)@,
                old(self)@.keeper_phase(phase, now),
                now,
                step,
            ),
            old(self)@.wf() ==> final(self)@.wf(),
    {
        let next = match phase {
            KeeperPhase::Opening(start) => match self.last_civ_rx {
                Some(t) => if t >= start {
                    KeeperPhase::Watching
                } else {
                    phase
                },
                None => phase,
            },
            KeeperPhase::Watching => match self.last_civ_rx {
                Some(t) => if now.saturating_sub(t) <= CIV_WATCHDOG {
                    KeeperPhase::Watching
                } else {
                    KeeperPhase::Opening(now)
                },
                None => KeeperPhase::Opening(now),
            },
        };
        self.keeper_enter(next, now)
    }
}

/// A frame arrives as it was sent: the packet that carries it, whatever number it is sent under,
/// holds that frame for the reader. (The length field of the packet has 16 bits.)
pub proof fn a_frame_arrives_as_it_was_sent(v: SerialView, data: Seq<u8>, seq: u16)
    requires
        0 < data.len() <= u16::MAX,
    ensures
        civ_payload(pkt0::stamped(v.data_packet(data), seq)) == Some(data),
        v.data_packet(data).len() == 21 + data.len(),
        v.data_packet(data).take(4) == wire::le32((21 + data.len()) as u32),
        v.data_packet(data).subrange(19, 21) == wire::be16(v.serial_seq),
{
    let h = v.common.header((21 + data.len()) as u32, 0x00, 0);
    let p = v.data_packet(data);
    let q = pkt0::stamped(p, seq);
    let l = data.len() as u16;
    assert(h.len() == 16);
    wire::joining_undoes_splitting(l, 0);
    assert(p[4] == h[4] && q[4] == p[4]);
    assert(q[16] == 0xc1);
    assert(q[17] == wire::le16(l)[0]);
    assert(q[18] == wire::le16(l)[1]);
    assert(q.subrange(21, 21 + l) =~= data);
    assert(p.take(4) =~= wire::le32((21 + data.len()) as u32));
    assert(p.subrange(19, 21) =~= wire::be16(v.serial_seq));
}

/// The packets that open or close the channel carry no frame.
pub proof fn opening_packets_carry_no_frame(v: SerialView, close: bool, seq: u16)
    ensures
        v.open_close(close).len() == 22,
        civ_payload(pkt0::stamped(v.open_close(close), seq)) is None,
{
    let h = v.common.header(22, 0x00, 0);
    assert(h.len() == 16);
    assert(pkt0::stamped(v.open_close(close), seq)[16] == 0xc0);
}

/// The channel is opened again and again until a frame comes: as long as no frame has come since
/// the opening began, the keeper stays in that phase; the first one that comes ends it.
pub proof fn the_channel_is_opened_until_a_frame_comes(
    v: SerialView,
    start: u64,
    now: u64,
    r: Seq<u8>,
    t: u64,
)
    ensures
        v.last_civ_rx is None || v.last_civ_rx->0 < start ==> v.keeper_phase(
            KeeperPhase::Opening(start),
            now,
        ) == KeeperPhase::Opening(start),
        civ_payload(r) is Some && t >= start ==> v.read(r, t).keeper_phase(
            KeeperPhase::Opening(start),
            now,
        ) == KeeperPhase::Watching,
{
}

/// Once the channel is open, it is opened again exactly when no frame has come for more than two
/// seconds.
pub proof fn a_silent_channel_is_opened_again(v: SerialView, t: u64, now: u64)
    requires
        v.last_civ_rx == Some(t),
        t <= now,
    ensures
        v.keeper_phase(KeeperPhase::Watching, now) == KeeperPhase::Opening(now) <==> now - t
            > CIV_WATCHDOG,
        v.keeper_phase(KeeperPhase::Watching, now) == KeeperPhase::Watching <==> now - t
            <= CIV_WATCHDOG,
{
}

/// The packet that carries a frame, byte by byte: a header of type 0 with the length of the whole,
/// `C1`, the length of the frame, low byte first, the serial number, high byte first, the frame.
pub proof fn bytes_of_a_data_packet(v: SerialView, data: Seq<u8>, i: int)
    requires
        data.len() <= u16::MAX,
    ensures
        ({
            let p = v.data_packet(data);
            &&& p.len() == 21 + data.len()
            &&& p.take(16) == v.common.header((21 + data.len()) as u32, 0, 0)
            &&& p[16] == 0xc1
            &&& p[17] + 256 * p[18] == data.len()
            &&& 256 * p[19] + p[20] == v.serial_seq
            &&& 0 <= i < data.len() ==> p[21 + i] == data[i]
        }),
{
    let p = v.data_packet(data);
    stream::layout_of_the_header(v.common, (21 + data.len()) as u32, 0, 0);
    assert(p.take(16) =~= v.common.header((21 + data.len()) as u32, 0, 0));
    wire::bytes_have_their_weight(data.len() as u16, 0);
    wire::bytes_have_their_weight(v.serial_seq, 0);
    assert(p[17] == wire::le16(data.len() as u16)[0] && p[18] == wire::le16(data.len() as u16)[1]);
    assert(p[19] == wire::be16(v.serial_seq)[0] && p[20] == wire::be16(v.serial_seq)[1]);
}

/// The packet that opens or closes the channel, byte by byte: a header of type 0 and length 22,
/// `C0 01 00`, the serial number, high byte first, then 5 to open, 0 to close.
pub proof fn bytes_of_an_opening_packet(v: SerialView, close: bool)
    ensures
        ({
            let p = v.open_close(close);
            &&& p.len() == 22
            &&& p.take(16) == v.common.header(22, 0, 0)
            &&& p[16] == 0xc0 && p[17] == 1 && p[18] == 0
            &&& 256 * p[19] + p[20] == v.serial_seq
            &&& close ==> p[21] == 0
            &&& !close ==> p[21] == 5
        }),
{
    let p = v.open_close(close);
    stream::layout_of_the_header(v.common, 22, 0, 0);
    assert(p.take(16) =~= v.common.header(22, 0, 0));
    wire::bytes_have_their_weight(v.serial_seq, 0);
    assert(p[19] == wire::be16(v.serial_seq)[0] && p[20] == wire::be16(v.serial_seq)[1]);
}

/// Each packet sent takes a serial number; the time of the last frame stays. A new stream counts
/// from 0 and has received none.
pub proof fn serial_packets_are_counted(v: SerialView, packet: Seq<u8>, now: u64, common: StreamView)
    ensures
        v.sent(packet, now).serial_seq == (v.serial_seq + 1) % 65536,
        v.sent(packet, now).common == v.common.numbered(packet, now),
        v.sent(packet, now).last_civ_rx == v.last_civ_rx,
        SerialView::created(common).common == common,
        SerialView::created(common).serial_seq == 0,
        SerialView::created(common).last_civ_rx is None,
{
}

/// What is read out of a packet, by its bytes. A packet of more than 21 bytes, with type 0 and `C1`
/// at offset 16, holds a frame as long as the two bytes at offset 17 say, low byte first, or as
/// long as the packet lasts; a length of 0, and any other packet, holds none.
pub proof fn frames_are_read_by_their_length(r: Seq<u8>, i: int)
    ensures
        r.len() <= 21 || r[4] != 0 || r[16] != 0xc1 || (r[17] == 0 && r[18] == 0) ==> civ_payload(
            r,
        ) is None,
        r.len() > 21 && r[4] == 0 && r[16] == 0xc1 && (r[17] != 0 || r[18] != 0) ==> {
            let l = r[17] + 256 * r[18];
            &&& civ_payload(r) is Some
            &&& 21 + l <= r.len() ==> civ_payload(r)->0.len() == l
            &&& 21 + l > r.len() ==> civ_payload(r)->0.len() == r.len() - 21
            &&& 0 <= i < civ_payload(r)->0.len() ==> civ_payload(r)->0[i] == r[21 + i]
        },
{
}

/// A packet that holds a frame sets the time of the last frame; no packet changes anything else.
pub proof fn only_frames_set_the_time(v: SerialView, r: Seq<u8>, now: u64)
    ensures
        civ_payload(r) is Some ==> v.read(r, now) == (SerialView { last_civ_rx: Some(now), ..v }),
        civ_payload(r) is None ==> v.read(r, now) == v,
{
}

/// A data packet under a number other than 0 is tracked by the stream that receives it: heard twice
/// in a row, its frame is delivered once at most.
pub proof fn data_packets_are_numbered(
    v: SerialView,
    data: Seq<u8>,
    seq: u16,
    radio: StreamView,
    t: u64,
    again: Incoming,
)
    requires
        data.len() <= u16::MAX,
        seq != 0,
        stream::is_reaction(
            radio.heard(pkt0::stamped(v.data_packet(data), seq), t),
            pkt0::stamped(v.data_packet(data), seq),
            again,
        ),
    ensures
        stream::is_numbered(pkt0::stamped(v.data_packet(data), seq)),
        stream::seq_of(pkt0::stamped(v.data_packet(data), seq)) == seq,
        again is Drop,
{
    let p = v.data_packet(data);
    let q = pkt0::stamped(p, seq);
    bytes_of_a_data_packet(v, data, 0);
    stream::layout_of_the_header(v.common, (21 + data.len()) as u32, 0, 0);
    pkt0::stamping_writes_the_number_only(p, seq, 4);
    pkt0::stamping_writes_the_number_only(p, seq, 5);
    assert(p[4] == p.take(16)[4] && p[5] == p.take(16)[5]);
    stream::datagrams_are_told_apart_by_their_bytes(q);
    stream::a_numbered_packet_heard_twice_is_dropped(radio, q, t, again);
}

/// The keeper sends the opening, and sleeps 100 ms, while it opens the channel; it sends nothing,
/// and sleeps 500 ms, while it watches.
pub proof fn what_the_keeper_does(
    before: SerialView,
    after: SerialView,
    phase: KeeperPhase,
    now: u64,
    step: KeeperStep,
)
    requires
        is_keeper_step(before, after, phase, now, step),
    ensures
        step.phase == phase,
        phase is Opening ==> step.sleep == 100_000_000 && (step.send matches Some(p) && p@.len()
            == 22 && p@[16] == 0xc0 && p@[21] == 5 && p@[6] + 256 * p@[7]
            == before.common.pkt0.send_seq) && after.serial_seq == (before.serial_seq + 1) % 65536,
        phase is Watching ==> step.sleep == 500_000_000 && step.send is None && after == before,
{
    bytes_of_an_opening_packet(before, false);
}

/// From one phase of the keeper to the next, by the time of the last frame: the opening that began
/// at `start` ends with a frame that came since; the watching ends when the last frame is more than
/// two seconds old, or when there was none.
pub proof fn how_the_keeper_goes_on(v: SerialView, start: u64, now: u64)
    ensures
        v.keeper_phase(KeeperPhase::Opening(start), now) == (match v.last_civ_rx {
            Some(t) => if start <= t {
                KeeperPhase::Watching
            } else {
                KeeperPhase::Opening(start)
            },
            None => KeeperPhase::Opening(start),
        }),
        v.keeper_phase(KeeperPhase::Watching, now) == (match v.last_civ_rx {
            Some(t) => if now <= t + 2_000_000_000 {
                KeeperPhase::Watching
            } else {
                KeeperPhase::Opening(now)
            },
            None => KeeperPhase::Opening(now),
        }),
{
}

/// The pings of the serial stream start at 1 when the handshake opens it; until then the handshake
/// changes only what it learns of the radio.
pub proof fn the_serial_stream_pings_from_one(
    v: SerialView,
    phase: HandshakePhase,
    heard: Option<Seq<u8>>,
)
    ensures
        ({
            let w = v.shaken(phase, heard);
            let open = handshake::next_phase(phase, heard) == HandshakePhase::Open;
            &&& w.serial_seq == v.serial_seq
            &&& w.last_civ_rx == v.last_civ_rx
            &&& open ==> w.common.pkt7.send_seq == 1
            &&& !open ==> w.common == v.common.shaken(phase, heard)
            &&& w.common.pkt7.inner_seq == v.common.pkt7.inner_seq
            &&& w.common.remote_sid == v.common.shaken(phase, heard).remote_sid
            &&& w.common.local_sid == v.common.local_sid
            &&& w.common.pkt0 == v.common.pkt0
            &&& w.common.rx == v.common.rx
        }),
{
}

} // verus!
