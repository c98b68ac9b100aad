//! What the two UDP streams of a session (control and serial) have in common: the packet header,
//! the opening handshake, the keepalives and the retransmissions.
//!
//! Nothing here touches a socket: the functions take the datagrams received and return the
//! datagrams to send. Times are nanoseconds on the caller's monotonic clock.

use vstd::prelude::*;

use crate::error::BridgeError;
use crate::rsba1::pkt0;
use crate::rsba1::pkt0::Pkt0State;
use crate::rsba1::pkt0::Pkt0View;
use crate::rsba1::pkt0::TX_BUF_MAX;
use crate::rsba1::random::random_byte;
use crate::rsba1::rx::RxState;
use crate::rsba1::rx::RxView;
use crate::rsba1::wire;

verus! {

/// How long an answer is waited for during the handshake: 2 s.
pub const EXPECT_TIMEOUT: u64 = 2_000_000_000;

/// Interval between pings: 3 s.
pub const PKT7_INTERVAL: u64 = 3_000_000_000;

/// Interval between two rounds of retransmission requests: 100 ms.
pub const RX_RETRANSMIT_INTERVAL: u64 = 100_000_000;

/// First value of the counter inside our pings.
pub const PKT7_FIRST_INNER_SEQ: u16 = 0x8304;

/// Counters of the pings.
#[derive(Clone, Copy)]
pub struct Pkt7State {
    /// Number of the next ping.
    pub send_seq: u16,
    /// Counter written inside the next ping.
    pub inner_seq: u16,
}

/// A local socket address: the bytes of the IP address, and the port.
#[derive(Clone, Copy)]
pub enum LocalAddr {
    V4([u8; 4], u16),
    V6([u8; 16], u16),
}

/// The session identifier derived from a local address: the last two bytes of the IP address, then
/// the port.
pub open spec fn local_sid(addr: LocalAddr) -> u32 {
    match addr {
        LocalAddr::V4(ip, port) => wire::join32(
            ip@[2],
            ip@[3],
            (port / 256) as u8,
            (port % 256) as u8,
        ),
        LocalAddr::V6(ip, port) => wire::join32(
            ip@[14],
            ip@[15],
            (port / 256) as u8,
            (port % 256) as u8,
        ),
    }
}

/// Computes the session identifier of a local address.
pub fn compute_local_sid(addr: LocalAddr) -> (sid: u32)
    ensures
        sid == local_sid(addr),
{
    match addr {
        LocalAddr::V4(ip, port) => wire::u32_from_be(
            ip[2],
            ip[3],
            wire::high(port),
            wire::low(port),
        ),
        LocalAddr::V6(ip, port) => wire::u32_from_be(
            ip[14],
            ip[15],
            wire::high(port),
            wire::low(port),
        ),
    }
}

/// The 16 bytes that begin every packet.
pub open spec fn header_bytes(len: u32, typ: u8, seq: u16, local: u32, remote: u32) -> Seq<u8> {
    wire::le32(len) + seq![typ, 0] + wire::le16(seq) + wire::be32(local) + wire::be32(remote)
}

/// One UDP stream of a session.
pub struct StreamCommon {
    pub name: &'static str,
    /// Our identifier in the session.
    pub local_sid: u32,
    /// The identifier of the radio.
    pub remote_sid: u32,
    /// Whether the radio has told its identifier.
    pub got_remote_sid: bool,
    pub pkt0: Pkt0State,
    pub pkt7: Pkt7State,
    pub rx: RxState,
    /// When the last packet of any kind came from the radio.
    pub last_rx_at: u64,
}

/// What a `StreamCommon` stands for.
#[verifier::ext_equal]
pub struct StreamView {
    pub name: Seq<char>,
    pub local_sid: u32,
    pub remote_sid: u32,
    pub got_remote_sid: bool,
    pub pkt0: Pkt0View,
    pub pkt7: Pkt7State,
    pub rx: RxView,
    pub last_rx_at: u64,
}

impl View for StreamCommon {
    type V = StreamView;

    open spec fn view(&self) -> StreamView {
        StreamView {
            name: self.name@,
            local_sid: self.local_sid,
            remote_sid: self.remote_sid,
            got_remote_sid: self.got_remote_sid,
            pkt0: self.pkt0@,
            pkt7: self.pkt7,
            rx: self.rx@,
            last_rx_at: self.last_rx_at,
        }
    }
}

/// What is to be done with a datagram received.
pub enum Incoming {
    /// It was for the stream itself: send these datagrams, possibly none.
    Answer(Vec<Vec<u8>>),
    /// It is for the owner of the stream.
    Deliver,
    /// It is a duplicate.
    Drop,
}

/// What the idle keepalive does next.
pub enum IdleStep {
    Send(Vec<u8>),
    Wait(u64),
}

/// Whether `r` holds at least `min_len` bytes and begins with `prefix`.
pub open spec fn is_expected(min_len: int, prefix: Seq<u8>, r: Seq<u8>) -> bool {
    r.len() >= min_len && prefix.is_prefix_of(r)
}

/// Whether `r` is a ping or the answer to one.
pub open spec fn is_ping(r: Seq<u8>) -> bool {
    r.len() == 21 && r[4] == 0x07 && r[5] == 0
}

/// Whether `r` asks for one packet again.
pub open spec fn asks_for_one(r: Seq<u8>) -> bool {
    r.len() >= 16 && seq![0x10u8, 0, 0, 0, 0x01, 0].is_prefix_of(r)
}

/// Whether `r` asks for ranges of packets again.
pub open spec fn asks_for_ranges(r: Seq<u8>) -> bool {
    r.len() >= 16 && seq![0x18u8, 0, 0, 0, 0x01, 0].is_prefix_of(r)
}

/// The sequence number in the header of a packet.
pub open spec fn seq_of(r: Seq<u8>) -> u16 {
    wire::join16(r[6], r[7])
}

/// Whether `r` is a packet that the radio numbers and may repeat.
pub open spec fn is_numbered(r: Seq<u8>) -> bool {
    r.len() >= 16 && r[4] == 0 && r[5] == 0 && seq_of(r) != 0
}

impl StreamView {
    /// A stream just created.
    pub open spec fn created(name: Seq<char>, local_sid: u32, now: u64) -> StreamView {
        StreamView {
            name,
            local_sid,
            remote_sid: 0,
            got_remote_sid: false,
            pkt0: Pkt0View::initial(now),
            pkt7: Pkt7State { send_seq: 0, inner_seq: PKT7_FIRST_INNER_SEQ },
            rx: RxView::fresh(),
            last_rx_at: now,
        }
    }

    pub open spec fn wf(self) -> bool {
        self.pkt0.wf() && self.rx.wf()
    }

    /// The header of a packet of this stream.
    pub open spec fn header(self, len: u32, typ: u8, seq: u16) -> Seq<u8> {
        header_bytes(len, typ, seq, self.local_sid, self.remote_sid)
    }

    /// The state once `packet` has been sent at time `now` as a numbered packet.
    pub open spec fn numbered(self, packet: Seq<u8>, now: u64) -> StreamView {
        StreamView { pkt0: self.pkt0.numbered(packet, now), ..self }
    }

    /// What `packet` becomes when it is sent as a numbered packet.
    pub open spec fn stamp(self, packet: Seq<u8>) -> Seq<u8> {
        pkt0::stamped(packet, self.pkt0.send_seq)
    }

    /// The two datagrams that answer a request for the packet `seq`: the packet twice if the
    /// history holds it, else twice an idle packet with that number, which fills the gap.
    pub open spec fn resent(self, seq: u16) -> Seq<Seq<u8>> {
        match pkt0::buffered(self.pkt0.sent, seq) {
            Some(p) => seq![p, p],
            None => seq![self.header(16, 0x00, seq), self.header(16, 0x00, seq)],
        }
    }

    /// The answers for `n` numbers in turn, beginning with `start`.
    pub open spec fn resent_run(self, start: u16, n: nat) -> Seq<Seq<u8>>
        decreases n,
    {
        if n == 0 {
            Seq::empty()
        } else {
            self.resent_run(start, (n - 1) as nat) + self.resent(wire::after(start, n - 1))
        }
    }

    /// The answers for the range from `start` to `end`; none if it is longer than the history.
    pub open spec fn resent_range(self, start: u16, end: u16) -> Seq<Seq<u8>> {
        if wire::ahead(start, end) >= TX_BUF_MAX {
            Seq::empty()
        } else {
            self.resent_run(start, (wire::ahead(start, end) + 1) as nat)
        }
    }

    /// The answers for a list of ranges, each written as its two ends.
    pub open spec fn resent_ranges(self, body: Seq<u8>) -> Seq<Seq<u8>>
        decreases body.len(),
    {
        if body.len() < 4 {
            Seq::empty()
        } else {
            self.resent_range(wire::join16(body[0], body[1]), wire::join16(body[2], body[3]))
                + self.resent_ranges(body.skip(4))
        }
    }

    /// The answers to a retransmission request.
    pub open spec fn resent_for(self, r: Seq<u8>) -> Seq<Seq<u8>> {
        if asks_for_one(r) {
            self.resent(seq_of(r))
        } else if asks_for_ranges(r) {
            self.resent_ranges(r.skip(16))
        } else {
            Seq::empty()
        }
    }

    /// A ping of ours, with the random byte `random`.
    pub open spec fn ping(self, seq: u16, random: u8) -> Seq<u8> {
        self.header(21, 0x07, seq) + seq![0u8, random] + wire::le16(self.pkt7.inner_seq) + seq![
            0x06u8,
        ]
    }

    /// The state once a ping has been sent: both of its counters have advanced.
    pub open spec fn pinged(self) -> StreamView {
        StreamView {
            pkt7: Pkt7State {
                send_seq: wire::after(self.pkt7.send_seq, 1),
                inner_seq: wire::after(self.pkt7.inner_seq, 1),
            },
            ..self
        }
    }

    /// The state once the number of the next ping has been set.
    pub open spec fn pinging_from(self, first_seq: u16) -> StreamView {
        StreamView { pkt7: Pkt7State { send_seq: first_seq, ..self.pkt7 }, ..self }
    }

    /// The packets that ask the radio for the numbers `due` again.
    pub open spec fn requests(self, due: Seq<u16>) -> Seq<Seq<u8>> {
        Seq::new(due.len(), |i: int| self.header(16, 0x01, due[i]))
    }

    /// The packets that close the stream.
    pub open spec fn farewell(self) -> Seq<Seq<u8>> {
        seq![self.header(16, 0x05, 0), self.header(16, 0x05, 0)]
    }

    /// The answer to a ping of the radio.
    pub open spec fn pong(self, seq: u16, reply_id: Seq<u8>) -> Seq<u8> {
        self.header(21, 0x07, seq) + seq![0x01u8] + reply_id
    }

    /// The answers to the ping `r`: one if the radio asks, none if it answers us.
    pub open spec fn pongs(self, r: Seq<u8>) -> Seq<Seq<u8>> {
        if r[16] == 0 {
            seq![self.pong(seq_of(r), r.subrange(17, 21))]
        } else {
            Seq::empty()
        }
    }

    /// The state after the datagram `r` at time `now`.
    pub open spec fn heard(self, r: Seq<u8>, now: u64) -> StreamView {
        StreamView {
            last_rx_at: now,
            rx: if !is_ping(r) && !asks_for_one(r) && !asks_for_ranges(r) && is_numbered(r) {
                self.rx.received(seq_of(r))
            } else {
                self.rx
            },
            ..self
        }
    }
}

/// Whether `a` is what is to be done with the datagram `r` in state `v`.
pub open spec fn is_reaction(v: StreamView, r: Seq<u8>, a: Incoming) -> bool {
    if is_ping(r) {
        a matches Incoming::Answer(list) && wire::contents(list@) == v.pongs(r)
    } else if asks_for_one(r) || asks_for_ranges(r) {
        a matches Incoming::Answer(list) && wire::contents(list@) == v.resent_for(r)
    } else if is_numbered(r) && !v.rx.delivers(seq_of(r)) {
        a is Drop
    } else {
        a is Deliver
    }
}

/// Whether `list` asks for each missing number that has not been asked for often enough, once, in
/// any order.
pub open spec fn is_round(v: StreamView, list: Seq<Seq<u8>>) -> bool {
    exists|due: Seq<u16>|
        list == #[trigger] v.requests(due) && due.no_duplicates() && due.to_set() == v.rx.due()
}

/// What came of looking up the host of the radio.
#[derive(Clone, Copy)]
pub enum Lookup {
    /// The look-up failed.
    Failed,
    /// It gave no address.
    Empty,
    /// It gave an address.
    Found,
}

impl StreamCommon {
    /// Whether the host of the radio can be reached, as far as looking it up tells.
    pub fn resolve(host: &str, lookup: Lookup) -> (r: Result<(), BridgeError>)
        ensures
            match lookup {
                Lookup::Failed => r matches Err(BridgeError::Protocol(why)) && why@
                    == "hôte introuvable : « "@ + host@
                    + " » (vérifier l'IP ou le nom)"@,
                Lookup::Empty => r matches Err(BridgeError::Protocol(why)) && why@
                    == "hôte introuvable : « "@ + host@ + " »"@,
                Lookup::Found => r is Ok,
            },
    {
        match lookup {
            Lookup::Failed => Err(
                BridgeError::Protocol(
                    "hôte introuvable : « ".to_owned().concat(host).concat(
                        " » (vérifier l'IP ou le nom)",
                    ),
                ),
            ),
            Lookup::Empty => Err(
                BridgeError::Protocol("hôte introuvable : « ".to_owned().concat(host).concat(" »")),
            ),
            Lookup::Found => Ok(()),
        }
    }

    /// The local ports to try in turn for a stream on `port`: the same number, then any free one.
    pub fn bind_ports(port: u16) -> (ports: [u16; 2])
        ensures
            ports@ == seq![port, 0],
    {
        let ports: [u16; 2] = [port, 0];
        assert(ports@ =~= seq![port, 0]);
        ports
    }

    /// A stream on a socket bound to `local`.
    pub fn connect(name: &'static str, local: LocalAddr, now: u64) -> (stream: StreamCommon)
        ensures
            stream@ == StreamView::created(name@, local_sid(local), now),
            stream@.wf(),
    {
        StreamCommon {
            name,
            local_sid: compute_local_sid(local),
            remote_sid: 0,
            got_remote_sid: false,
            pkt0: Pkt0State::new(now),
            pkt7: Pkt7State { send_seq: 0, inner_seq: PKT7_FIRST_INNER_SEQ },
            rx: RxState::new(),
            last_rx_at: now,
        }
    }

    /// Time elapsed since the last packet from the radio.
    pub fn silent_for(&self, now: u64) -> (elapsed: u64)
        ensures
            elapsed == (if now >= self@.last_rx_at {
                now - self@.last_rx_at
            } else {
                0
            }),
    {
        now.saturating_sub(self.last_rx_at)
    }

    /// The header of a packet: `[len LE u32][type][00][seq LE u16][local BE u32][remote BE u32]`.
    pub fn header(&self, len: u32, typ: u8, seq: u16) -> (h: [u8; 16])
        ensures
            h@ == self@.header(len, typ, seq),
    {
        let l = wire::u32_to_le(len);
        let ls = wire::u32_to_be(self.local_sid);
        let rs = wire::u32_to_be(self.remote_sid);
        let h: [u8; 16] = [
            l[0],
            l[1],
            l[2],
            l[3],
            typ,
            0x00,
            wire::low(seq),
            wire::high(seq),
            ls[0],
            ls[1],
            ls[2],
            ls[3],
            rs[0],
            rs[1],
            rs[2],
            rs[3],
        ];
        assert(h@ =~= self@.header(len, typ, seq));
        h
    }

    /// The header of a packet, as the beginning of a datagram.
    pub fn begin(&self, len: u32, typ: u8, seq: u16) -> (p: Vec<u8>)
        ensures
            p@ == self@.header(len, typ, seq),
            p@.len() == 16,
    {
        let h = self.header(len, typ, seq);
        let mut p: Vec<u8> = Vec::new();
        wire::append(&mut p, h.as_slice());
        assert(p@ =~= h@);
        p
    }

    /// Gives `packet` the next number, keeps it for retransmission, and returns the datagram to
    /// send.
    pub fn send_tracked(&mut self, packet: Vec<u8>, now: u64) -> (out: Vec<u8>)
        requires
            packet@.len() >= 8,
        ensures
            out@ == old(self)@.stamp(packet@),
            final(self)@ == old(self)@.numbered(packet@, now),
            old(self)@.wf() ==> final(self)@.wf(),
    {
        self.pkt0.send_tracked(packet, now)
    }

    /// An idle packet: the next numbered one, or one with the number `seq` that fills a gap and is
    /// not kept.
    pub fn send_idle(&mut self, next: bool, seq: u16, now: u64) -> (out: Vec<u8>)
        ensures
            next ==> out@ == old(self)@.stamp(old(self)@.header(16, 0x00, seq)) && final(self)@
                == old(self)@.numbered(old(self)@.header(16, 0x00, seq), now),
            !next ==> out@ == old(self)@.header(16, 0x00, seq) && final(self)@ == old(self)@,
            old(self)@.wf() ==> final(self)@.wf(),
    {
        let p = self.begin(16, 0x00, seq);
        if next {
            self.send_tracked(p, now)
        } else {
            p
        }
    }
}

impl StreamCommon {
    /// Whether `r` is a datagram of at least `min_len` bytes that begins with `prefix`.
    pub fn expect(min_len: usize, prefix: &[u8], r: &[u8]) -> (b: bool)
        ensures
            b == is_expected(min_len as int, prefix@, r@),
    {
        r.len() >= min_len && wire::starts_with(r, prefix)
    }

    /// How long an answer can still be waited for at time `now`, when it has been since `start` and
    /// may be for `limit`; nothing once that is over.
    pub fn time_left(start: u64, limit: u64, now: u64) -> (left: Option<u64>)
        ensures
            left == (if now <= start {
                Some(limit)
            } else if now - start <= limit {
                Some((limit - (now - start)) as u64)
            } else {
                None
            }),
    {
        let elapsed: u64 = now.saturating_sub(start);
        if elapsed <= limit {
            Some(limit - elapsed)
        } else {
            None
        }
    }

    /// Whether `r` is a ping or the answer to one.
    pub fn is_pkt7(r: &[u8]) -> (b: bool)
        ensures
            b == is_ping(r@),
    {
        r.len() == 21 && r[4] == 0x07 && r[5] == 0x00
    }

    /// A ping, or the answer to one when `reply_id` is given. `random` is the unpredictable byte of
    /// a ping.
    pub fn build_pkt7(&mut self, reply_id: Option<[u8; 4]>, seq: u16, random: u8) -> (p: Vec<u8>)
        ensures
            match reply_id {
                Some(id) => p@ == old(self)@.pong(seq, id@) && final(self)@ == old(self)@,
                None => p@ == old(self)@.ping(seq, random) && final(self)@ == (StreamView {
                    pkt7: Pkt7State {
                        inner_seq: wire::after(old(self)@.pkt7.inner_seq, 1),
                        ..old(self)@.pkt7
                    },
                    ..old(self)@
                }),
            },
    {
        let mut p = self.begin(21, 0x07, seq);
        match reply_id {
            Some(id) => {
                p.push(0x01);
                wire::append(&mut p, id.as_slice());
                assert(p@ =~= old(self)@.pong(seq, id@));
            },
            None => {
                let inner: u16 = self.pkt7.inner_seq;
                self.pkt7.inner_seq = inner.wrapping_add(1);
                p.push(0x00);
                p.push(random);
                p.push(wire::low(inner));
                p.push(wire::high(inner));
                p.push(0x06);
                assert(p@ =~= old(self)@.ping(seq, random));
            },
        }
        p
    }

    /// The next ping, with the unpredictable byte `random`.
    pub fn next_ping(&mut self, random: u8) -> (p: Vec<u8>)
        ensures
            p@ == old(self)@.ping(old(self)@.pkt7.send_seq, random),
            final(self)@ == old(self)@.pinged(),
    {
        let seq: u16 = self.pkt7.send_seq;
        self.pkt7.send_seq = seq.wrapping_add(1);
        self.build_pkt7(None, seq, random)
    }

    /// The next ping.
    pub fn send_ping(&mut self) -> (p: Vec<u8>)
        ensures
            exists|random: u8| p@ == #[trigger] old(self)@.ping(old(self)@.pkt7.send_seq, random),
            final(self)@ == old(self)@.pinged(),
    {
        let random = random_byte();
        self.next_ping(random)
    }

    /// Sets the number of the next ping.
    pub fn start_pkt7(&mut self, first_seq: u16)
        ensures
            final(self)@ == old(self)@.pinging_from(first_seq),
    {
        self.pkt7.send_seq = first_seq;
    }

    /// The answer to a ping of the radio. The radio's answers to our pings call for none.
    pub fn handle_pkt7(&mut self, r: &[u8]) -> (list: Vec<Vec<u8>>)
        requires
            is_ping(r@),
        ensures
            wire::contents(list@) == old(self)@.pongs(r@),
            final(self)@ == old(self)@,
    {
        let mut list: Vec<Vec<u8>> = Vec::new();
        if r[16] == 0x00 {
            let seq = wire::u16_from(r[6], r[7]);
            let id: [u8; 4] = [r[17], r[18], r[19], r[20]];
            assert(id@ =~= r@.subrange(17, 21));
            let p = self.build_pkt7(Some(id), seq, 0);
            list.push(p);
        }
        assert(wire::contents(list@) =~= old(self)@.pongs(r@));
        list
    }

    /// Whether `r` asks for packets again.
    pub fn is_pkt0_retransmit(r: &[u8]) -> (b: bool)
        ensures
            b == (asks_for_one(r@) || asks_for_ranges(r@)),
    {
        Self::one_asked(r) || Self::ranges_asked(r)
    }

    fn one_asked(r: &[u8]) -> (b: bool)
        ensures
            b == asks_for_one(r@),
    {
        let prefix: [u8; 6] = [0x10, 0x00, 0x00, 0x00, 0x01, 0x00];
        assert(prefix@ =~= seq![0x10u8, 0, 0, 0, 0x01, 0]);
        Self::expect(16, prefix.as_slice(), r)
    }

    fn ranges_asked(r: &[u8]) -> (b: bool)
        ensures
            b == asks_for_ranges(r@),
    {
        let prefix: [u8; 6] = [0x18, 0x00, 0x00, 0x00, 0x01, 0x00];
        assert(prefix@ =~= seq![0x18u8, 0, 0, 0, 0x01, 0]);
        Self::expect(16, prefix.as_slice(), r)
    }

    /// The answers to a request for the packet `seq`.
    pub fn retransmit_one(&self, seq: u16) -> (list: Vec<Vec<u8>>)
        ensures
            wire::contents(list@) == self@.resent(seq),
    {
        match self.pkt0.find(seq) {
            Some(p) => wire::twice(p),
            None => {
                let p = self.begin(16, 0x00, seq);
                wire::twice(p)
            },
        }
    }

    /// The answers for the range from `start` to `end`. A range longer than the history cannot be
    /// genuine and gets none.
    fn retransmit_range(&self, start: u16, end: u16) -> (list: Vec<Vec<u8>>)
        ensures
            wire::contents(list@) == self@.resent_range(start, end),
    {
        let mut list: Vec<Vec<u8>> = Vec::new();
        let last: u16 = end.wrapping_sub(start);
        assert(last == wire::ahead(start, end));
        assert(wire::contents(list@) =~= Seq::<Seq<u8>>::empty());
        if last as usize >= TX_BUF_MAX {
            return list;
        }
        let mut k: u16 = 0;
        while k <= last
            invariant
                k <= last + 1,
                last < TX_BUF_MAX,
                wire::contents(list@) == self@.resent_run(start, k as nat),
            decreases last + 1 - k,
        {
            let seq: u16 = start.wrapping_add(k);
            assert(seq == wire::after(start, k as int));
            let more = self.retransmit_one(seq);
            wire::append_all(&mut list, more);
            k = k + 1;
        }
        list
    }

    /// The answers to a retransmission request.
    pub fn handle_pkt0_retransmit(&self, r: &[u8]) -> (list: Vec<Vec<u8>>)
        ensures
            wire::contents(list@) == self@.resent_for(r@),
    {
        if Self::one_asked(r) {
            return self.retransmit_one(wire::u16_from(r[6], r[7]));
        }
        let mut list: Vec<Vec<u8>> = Vec::new();
        assert(wire::contents(list@) =~= Seq::<Seq<u8>>::empty());
        if Self::ranges_asked(r) {
            let mut i: usize = 16;
            assert(Seq::<Seq<u8>>::empty() + self@.resent_ranges(r@.skip(16))
                =~= self@.resent_ranges(r@.skip(16)));
            while r.len() - i >= 4
                invariant
                    16 <= i <= r.len(),
                    wire::contents(list@) + self@.resent_ranges(r@.skip(i as int))
                        == self@.resent_ranges(r@.skip(16)),
                decreases r.len() - i,
            {
                let ghost body = r@.skip(i as int);
                let start = wire::u16_from(r[i], r[i + 1]);
                let end = wire::u16_from(r[i + 2], r[i + 3]);
                let more = self.retransmit_range(start, end);
                let ghost before = wire::contents(list@);
                wire::append_all(&mut list, more);
                proof {
                    assert(body.skip(4) =~= r@.skip(i + 4));
                    assert(before + (self@.resent_range(start, end) + self@.resent_ranges(
                        body.skip(4),
                    )) =~= wire::contents(list@) + self@.resent_ranges(body.skip(4)));
                }
                i = i + 4;
            }
            assert(wire::contents(list@) + self@.resent_ranges(r@.skip(i as int))
                =~= wire::contents(list@));
        }
        list
    }

    /// Records the number of a packet received. Returns `true` if the packet is to be delivered,
    /// `false` if it is a duplicate.
    pub fn on_rx_seq(&mut self, seq: u16) -> (deliver: bool)
        requires
            old(self)@.wf(),
        ensures
            deliver == old(self)@.rx.delivers(seq),
            final(self)@ == (StreamView { rx: old(self)@.rx.received(seq), ..old(self)@ }),
            final(self)@.wf(),
    {
        self.rx.on_seq(seq)
    }

    /// Takes in a datagram received at time `now`: pings and retransmission requests are answered
    /// here, duplicates are dropped, the rest is for the owner of the stream.
    pub fn on_datagram(&mut self, r: &[u8], now: u64) -> (action: Incoming)
        requires
            old(self)@.wf(),
        ensures
            is_reaction(old(self)@, r@, action),
            final(self)@ == old(self)@.heard(r@, now),
            final(self)@.wf(),
    {
        let action = if Self::is_pkt7(r) {
            Incoming::Answer(self.handle_pkt7(r))
        } else if Self::is_pkt0_retransmit(r) {
            Incoming::Answer(self.handle_pkt0_retransmit(r))
        } else {
            let mut fresh = true;
            if r.len() >= 16 && r[4] == 0x00 && r[5] == 0x00 {
                let seq = wire::u16_from(r[6], r[7]);
                fresh = seq == 0 || self.on_rx_seq(seq);
            }
            if fresh {
                Incoming::Deliver
            } else {
                Incoming::Drop
            }
        };
        self.last_rx_at = now;
        action
    }

    /// The packets that ask the radio for the numbers `due` again.
    pub fn retransmit_requests(&self, due: &Vec<u16>) -> (list: Vec<Vec<u8>>)
        ensures
            wire::contents(list@) == self@.requests(due@),
    {
        let mut list: Vec<Vec<u8>> = Vec::new();
        let mut i: usize = 0;
        while i < due.len()
            invariant
                i <= due.len(),
                list@.len() == i,
                forall|k: int|
                    0 <= k < i ==> (#[trigger] list@[k])@ == self@.header(16, 0x01, due@[k]),
            decreases due.len() - i,
        {
            let p = self.begin(16, 0x01, due[i]);
            list.push(p);
            i = i + 1;
        }
        assert(wire::contents(list@) =~= self@.requests(due@));
        list
    }

    /// A round of retransmission requests: one packet for each missing number that has not been
    /// asked for often enough, in no particular order.
    pub fn rx_retransmit(&mut self) -> (list: Vec<Vec<u8>>)
        requires
            old(self)@.wf(),
        ensures
            is_round(old(self)@, wire::contents(list@)),
            final(self)@ == (StreamView { rx: old(self)@.rx.asked(), ..old(self)@ }),
            final(self)@.wf(),
    {
        let due = self.rx.take_due();
        let list = self.retransmit_requests(&due);
        assert(old(self)@.requests(due@) =~= self@.requests(due@));
        list
    }

    /// The idle keepalive at time `now`: an idle packet if it is due, else how long to wait.
    pub fn idle_step(&mut self, now: u64) -> (step: IdleStep)
        requires
            old(self)@.pkt0.last_send_at <= now,
        ensures
            match step {
                IdleStep::Send(p) => {
                    &&& old(self)@.pkt0.idle_wait(now) == 0
                    &&& p@ == old(self)@.stamp(old(self)@.header(16, 0x00, 0))
                    &&& final(self)@ == old(self)@.numbered(old(self)@.header(16, 0x00, 0), now)
                },
                IdleStep::Wait(w) => {
                    &&& w > 0
                    &&& w == old(self)@.pkt0.idle_wait(now)
                    &&& final(self)@ == old(self)@
                },
            },
            old(self)@.wf() ==> final(self)@.wf(),
    {
        let wait: u64 = self.pkt0.idle_wait(now);
        if wait == 0 {
            IdleStep::Send(self.send_idle(true, 0, now))
        } else {
            IdleStep::Wait(wait)
        }
    }

    /// The packets that close the stream.
    pub fn send_disconnect(&self) -> (list: Vec<Vec<u8>>)
        ensures
            wire::contents(list@) == self@.farewell(),
    {
        let p = self.begin(16, 0x05, 0);
        wire::twice(p)
    }
}

/// Whether `d` carries the sequence number `seq`.
pub open spec fn carries(d: Seq<u8>, seq: u16) -> bool {
    d.len() >= 8 && seq_of(d) == seq
}

proof fn headers_carry_their_number(v: StreamView, len: u32, typ: u8, seq: u16)
    ensures
        carries(v.header(len, typ, seq), seq),
{
    let h = v.header(len, typ, seq);
    wire::joining_undoes_splitting(seq, 0);
    assert(h[6] == wire::le16(seq)[0]);
    assert(h[7] == wire::le16(seq)[1]);
}

proof fn kept_packets_carry_their_number(v: Pkt0View, at: int)
    requires
        v.wf(),
        0 <= at < v.sent.len(),
    ensures
        carries(v.sent[at].1, v.sent[at].0),
        wire::ahead(v.sent[at].0, v.send_seq) == v.sent.len() - at,
{
    let (s, p) = v.sent[at];
    wire::joining_undoes_splitting(s, 0);
}

proof fn resent_carries_the_number(v: StreamView, seq: u16)
    requires
        v.wf(),
    ensures
        v.resent(seq).len() == 2,
        carries(v.resent(seq)[0], seq),
        carries(v.resent(seq)[1], seq),
{
    pkt0::history_holds_the_last_packets(v.pkt0, seq);
    headers_carry_their_number(v, 16, 0x00, seq);
    let k = wire::ahead(seq, v.pkt0.send_seq);
    if 1 <= k <= v.pkt0.sent.len() {
        let at = v.pkt0.sent.len() - k;
        kept_packets_carry_their_number(v.pkt0, at);
        wire::equally_far_is_equal(v.pkt0.sent[at].0, seq, v.pkt0.send_seq);
    }
}

/// A number that the radio asks for is always answered, with two datagrams that carry it, so that
/// the radio never waits for it for ever.
pub proof fn a_number_asked_for_is_answered(v: StreamView, r: Seq<u8>)
    requires
        v.wf(),
        asks_for_one(r),
    ensures
        v.resent_for(r).len() == 2,
        carries(v.resent_for(r)[0], seq_of(r)),
        carries(v.resent_for(r)[1], seq_of(r)),
{
    resent_carries_the_number(v, seq_of(r));
}

/// A numbered packet that the radio did not get is sent again as it was, twice, when the radio asks
/// for it, as long as fewer than 256 packets have followed it.
pub proof fn a_lost_packet_is_sent_again(
    v: StreamView,
    packet: Seq<u8>,
    now: u64,
    later: Seq<(Seq<u8>, u64)>,
    w: StreamView,
    r: Seq<u8>,
)
    requires
        v.wf(),
        packet.len() >= 8,
        forall|i: int| 0 <= i < later.len() ==> (#[trigger] later[i]).0.len() >= 8,
        later.len() < TX_BUF_MAX,
        w.pkt0 == v.numbered(packet, now).pkt0.numbered_all(later),
        asks_for_one(r),
        seq_of(r) == v.pkt0.send_seq,
    ensures
        w.resent_for(r) == seq![v.stamp(packet), v.stamp(packet)],
{
    pkt0::a_sent_packet_can_be_sent_again(v.pkt0, packet, now, later);
}

proof fn resent_run_carries_the_numbers(v: StreamView, start: u16, n: nat)
    requires
        v.wf(),
    ensures
        v.resent_run(start, n).len() == 2 * n,
        forall|k: int|
            #![trigger wire::after(start, k)]
            0 <= k < n ==> carries(v.resent_run(start, n)[2 * k], wire::after(start, k))
                && carries(v.resent_run(start, n)[2 * k + 1], wire::after(start, k)),
    decreases n,
{
    if n > 0 {
        let m = (n - 1) as nat;
        resent_run_carries_the_numbers(v, start, m);
        resent_carries_the_number(v, wire::after(start, n - 1));
        assert forall|k: int|
            #![trigger wire::after(start, k)]
            0 <= k < n implies carries(v.resent_run(start, n)[2 * k], wire::after(start, k))
            && carries(v.resent_run(start, n)[2 * k + 1], wire::after(start, k)) by {
            if k < m {
                assert(v.resent_run(start, n)[2 * k] == v.resent_run(start, m)[2 * k]);
                assert(v.resent_run(start, n)[2 * k + 1] == v.resent_run(start, m)[2 * k + 1]);
            }
        }
    }
}

/// Every number of a range no longer than the history is answered in turn, with two datagrams that
/// carry it; a longer range is answered by nothing.
pub proof fn a_range_asked_for_is_answered(v: StreamView, start: u16, end: u16)
    requires
        v.wf(),
    ensures
        wire::ahead(start, end) >= TX_BUF_MAX ==> v.resent_range(start, end).len() == 0,
        wire::ahead(start, end) < TX_BUF_MAX ==> {
            &&& v.resent_range(start, end).len() == 2 * (wire::ahead(start, end) + 1)
            &&& forall|k: int|
                #![trigger wire::after(start, k)]
                0 <= k <= wire::ahead(start, end) ==> carries(
                    v.resent_range(start, end)[2 * k],
                    wire::after(start, k),
                ) && carries(v.resent_range(start, end)[2 * k + 1], wire::after(start, k))
        },
{
    if wire::ahead(start, end) < TX_BUF_MAX {
        resent_run_carries_the_numbers(v, start, (wire::ahead(start, end) + 1) as nat);
    }
}

/// A request never sets off a storm: at most 512 datagrams answer each range that it holds.
pub proof fn answers_to_ranges_are_bounded(v: StreamView, body: Seq<u8>)
    requires
        v.wf(),
    ensures
        v.resent_ranges(body).len() <= 512 * (body.len() / 4),
    decreases body.len(),
{
    if body.len() >= 4 {
        let start = wire::join16(body[0], body[1]);
        let end = wire::join16(body[2], body[3]);
        assert(v.resent_range(start, end).len() <= 512) by {
            a_range_asked_for_is_answered(v, start, end);
        }
        answers_to_ranges_are_bounded(v, body.skip(4));
        assert(body.skip(4).len() / 4 == body.len() / 4 - 1);
    }
}

/// Pings have counters of their own: they leave the numbering of the other packets, and the
/// history, as they are.
pub proof fn pings_leave_the_numbering_alone(v: StreamView)
    ensures
        v.pinged().pkt0 == v.pkt0,
        v.pinged().rx == v.rx,
        v.pinged().pkt7.send_seq == wire::after(v.pkt7.send_seq, 1),
{
}

/// A ping of the radio is answered with its own identifier and number.
pub proof fn a_ping_is_answered_in_kind(v: StreamView, r: Seq<u8>)
    requires
        is_ping(r),
        r[16] == 0,
    ensures
        v.pongs(r).len() == 1,
        is_ping(v.pongs(r)[0]),
        seq_of(v.pongs(r)[0]) == seq_of(r),
        v.pongs(r)[0][16] == 1,
        v.pongs(r)[0].subrange(17, 21) == r.subrange(17, 21),
{
    let p = v.pong(seq_of(r), r.subrange(17, 21));
    wire::joining_undoes_splitting(seq_of(r), 0);
    assert(p[6] == wire::le16(seq_of(r))[0]);
    assert(p[7] == wire::le16(seq_of(r))[1]);
    assert(p.subrange(17, 21) =~= r.subrange(17, 21));
}

/// The header, byte by byte: the length, low byte first; the type and a zero; the number, low byte
/// first; our identifier and that of the radio, high byte first.
pub proof fn layout_of_the_header(v: StreamView, len: u32, typ: u8, seq: u16)
    ensures
        ({
            let h = v.header(len, typ, seq);
            &&& h.len() == 16
            &&& h[0] + 0x100 * h[1] + 0x1_0000 * h[2] + 0x100_0000 * h[3] == len
            &&& h[4] == typ
            &&& h[5] == 0
            &&& h[6] + 0x100 * h[7] == seq
            &&& 0x100_0000 * h[8] + 0x1_0000 * h[9] + 0x100 * h[10] + h[11] == v.local_sid
            &&& 0x100_0000 * h[12] + 0x1_0000 * h[13] + 0x100 * h[14] + h[15] == v.remote_sid
        }),
{
    let h = v.header(len, typ, seq);
    wire::bytes_have_their_weight(seq, len);
    wire::bytes_have_their_weight(seq, v.local_sid);
    wire::bytes_have_their_weight(seq, v.remote_sid);
    let (l, a, b) = (wire::le32(len), wire::be32(v.local_sid), wire::be32(v.remote_sid));
    assert(h[0] == l[0] && h[1] == l[1] && h[2] == l[2] && h[3] == l[3]);
    assert(h[6] == wire::le16(seq)[0] && h[7] == wire::le16(seq)[1]);
    assert(h[8] == a[0] && h[9] == a[1] && h[10] == a[2] && h[11] == a[3]);
    assert(h[12] == b[0] && h[13] == b[1] && h[14] == b[2] && h[15] == b[3]);
}

/// Our identifier is made of the last two bytes of the address and of the port.
pub proof fn the_identifier_tells_address_and_port(v4: [u8; 4], v6: [u8; 16], port: u16)
    ensures
        local_sid(LocalAddr::V4(v4, port)) == 0x100_0000 * v4@[2] + 0x1_0000 * v4@[3] + port,
        local_sid(LocalAddr::V6(v6, port)) == 0x100_0000 * v6@[14] + 0x1_0000 * v6@[15] + port,
{
}

/// A new stream does not know the radio, numbers its packets from 1 and its pings from 0 and
/// 0x8304, has received nothing, and counts its silence from now.
pub proof fn a_new_stream_starts_from_nothing(name: Seq<char>, sid: u32, now: u64)
    ensures
        ({
            let v = StreamView::created(name, sid, now);
            &&& v.name == name
            &&& v.local_sid == sid
            &&& v.remote_sid == 0
            &&& !v.got_remote_sid
            &&& v.pkt0.send_seq == 1
            &&& v.pkt0.sent.len() == 0
            &&& v.pkt0.last_send_at == now
            &&& v.pkt0.last_tracked_at == now
            &&& v.pkt7.send_seq == 0
            &&& v.pkt7.inner_seq == 0x8304
            &&& v.rx == RxView::fresh()
            &&& v.last_rx_at == now
        }),
{
}

/// Sending a numbered packet touches the numbering and the history only.
pub proof fn sending_leaves_the_rest_alone(v: StreamView, packet: Seq<u8>, now: u64)
    ensures
        ({
            let w = v.numbered(packet, now);
            &&& w.pkt0 == v.pkt0.numbered(packet, now)
            &&& w.name == v.name
            &&& w.local_sid == v.local_sid
            &&& w.remote_sid == v.remote_sid
            &&& w.got_remote_sid == v.got_remote_sid
            &&& w.pkt7 == v.pkt7
            &&& w.rx == v.rx
            &&& w.last_rx_at == v.last_rx_at
        }),
{
}

/// A ping of ours: 21 bytes of type 7, a zero, the random byte, the inner counter, low byte first,
/// and a 6. Both counters advance by one; nothing else changes.
pub proof fn layout_of_a_ping(v: StreamView, seq: u16, random: u8)
    ensures
        ({
            let p = v.ping(seq, random);
            &&& p.len() == 21
            &&& p.take(16) == v.header(21, 7, seq)
            &&& p[16] == 0
            &&& p[17] == random
            &&& p[18] + 256 * p[19] == v.pkt7.inner_seq
            &&& p[20] == 6
        }),
        v.pinged().pkt7.send_seq == (v.pkt7.send_seq + 1) % 65536,
        v.pinged().pkt7.inner_seq == (v.pkt7.inner_seq + 1) % 65536,
        v.pinged() == (StreamView { pkt7: v.pinged().pkt7, ..v }),
{
    let p = v.ping(seq, random);
    layout_of_the_header(v, 21, 7, seq);
    assert(p.take(16) =~= v.header(21, 7, seq));
}

/// The answer to a ping: 21 bytes of type 7 with its number, a 1, and its four last bytes. The
/// radio's answers to our pings get none.
pub proof fn layout_of_the_answer_to_a_ping(v: StreamView, r: Seq<u8>)
    requires
        r.len() == 21,
    ensures
        r[16] != 0 ==> v.pongs(r).len() == 0,
        r[16] == 0 ==> {
            let p = v.pongs(r)[0];
            &&& v.pongs(r).len() == 1
            &&& p.len() == 21
            &&& p.take(16) == v.header(21, 7, (r[6] + 256 * r[7]) as u16)
            &&& p[16] == 1
            &&& forall|i: int| 17 <= i < 21 ==> p[i] == r[i]
        },
{
    if r[16] == 0 {
        let p = v.pongs(r)[0];
        layout_of_the_header(v, 21, 7, seq_of(r));
        assert(p.take(16) =~= v.header(21, 7, seq_of(r)));
    }
}

/// The packets that ask the radio again: one for each number, in order, of 16 bytes and type 1.
pub proof fn layout_of_the_requests(v: StreamView, due: Seq<u16>, i: int)
    requires
        0 <= i < due.len(),
    ensures
        v.requests(due).len() == due.len(),
        v.requests(due)[i] == v.header(16, 1, due[i]),
{
}

/// A number that the radio asks for and that the history does not hold is filled in: twice an idle
/// packet, of 16 bytes and type 0, with that number.
pub proof fn an_unknown_number_is_filled_in(v: StreamView, seq: u16)
    requires
        v.wf(),
        !(1 <= (v.pkt0.send_seq - seq) % 65536 <= v.pkt0.sent.len()),
    ensures
        v.resent(seq) == seq![v.header(16, 0, seq), v.header(16, 0, seq)],
{
    pkt0::history_holds_the_last_packets(v.pkt0, seq);
}

/// Ranges are answered one after the other, each number of a range in turn.
pub proof fn ranges_are_answered_in_turn(v: StreamView, body: Seq<u8>, start: u16, n: nat)
    ensures
        body.len() < 4 ==> v.resent_ranges(body).len() == 0,
        body.len() >= 4 ==> v.resent_ranges(body) == v.resent_range(
            (body[0] + 256 * body[1]) as u16,
            (body[2] + 256 * body[3]) as u16,
        ) + v.resent_ranges(body.skip(4)),
        v.resent_run(start, n + 1) == v.resent_run(start, n) + v.resent(
            ((start + n) % 65536) as u16,
        ),
        v.resent_run(start, 0).len() == 0,
{
}

/// A range of numbers is answered whole if it holds up to 256 of them, counted around the circle,
/// and not at all otherwise.
pub proof fn a_range_is_answered_whole_or_not_at_all(v: StreamView, start: u16, k: int)
    requires
        0 <= k <= 65535,
    ensures
        ({
            let end = ((start + k) % 65536) as u16;
            &&& k <= 255 ==> v.resent_range(start, end) == v.resent_run(start, (k + 1) as nat)
            &&& k >= 256 ==> v.resent_range(start, end).len() == 0
        }),
{
    let end = ((start + k) % 65536) as u16;
    wire::after_is_ahead(start, end, k);
}

/// The two packets that close a stream: 16 bytes, type 5, number 0.
pub proof fn layout_of_the_farewell(v: StreamView)
    ensures
        v.farewell().len() == 2,
        v.farewell()[0] == v.header(16, 5, 0),
        v.farewell()[1] == v.header(16, 5, 0),
{
}

/// Whether `r` begins with the six bytes `a`, 0, 0, 0, `b`, 0.
pub open spec fn begins_with_kind(r: Seq<u8>, a: u8, b: u8) -> bool {
    r[0] == a && r[1] == 0 && r[2] == 0 && r[3] == 0 && r[4] == b && r[5] == 0
}

/// What each datagram is taken for, by its bytes. A ping has 21 bytes and type 7; a request for one
/// packet or for ranges has at least 16 bytes and begins with `10 00 00 00 01 00` or
/// `18 00 00 00 01 00`; any packet of type 0 with at least 16 bytes and a number other than 0 is
/// numbered, data packets included.
pub proof fn datagrams_are_told_apart_by_their_bytes(r: Seq<u8>)
    ensures
        is_ping(r) <==> r.len() == 21 && r[4] == 7 && r[5] == 0,
        asks_for_one(r) <==> r.len() >= 16 && begins_with_kind(r, 0x10, 1),
        asks_for_ranges(r) <==> r.len() >= 16 && begins_with_kind(r, 0x18, 1),
        is_numbered(r) <==> r.len() >= 16 && r[4] == 0 && r[5] == 0 && (r[6] != 0 || r[7] != 0),
        r.len() >= 8 ==> seq_of(r) == r[6] + 256 * r[7],
{
    let one = seq![0x10u8, 0, 0, 0, 0x01, 0];
    let many = seq![0x18u8, 0, 0, 0, 0x01, 0];
    if r.len() >= 16 {
        prefix_of_six(one, r);
        prefix_of_six(many, r);
    }
}

proof fn prefix_of_six(p: Seq<u8>, r: Seq<u8>)
    requires
        p.len() == 6,
        r.len() >= 6,
    ensures
        p.is_prefix_of(r) <==> r[0] == p[0] && r[1] == p[1] && r[2] == p[2] && r[3] == p[3] && r[4]
            == p[4] && r[5] == p[5],
{
    let t = r.take(6);
    assert(r[0] == t[0] && r[1] == t[1] && r[2] == t[2] && r[3] == t[3] && r[4] == t[4] && r[5]
        == t[5]);
    if r[0] == p[0] && r[1] == p[1] && r[2] == p[2] && r[3] == p[3] && r[4] == p[4] && r[5]
        == p[5] {
        assert(t =~= p);
    }
}

/// A numbered packet of the radio, idle or data, is delivered once: heard twice in a row, it is
/// dropped the second time, whatever has been received before.
pub proof fn a_numbered_packet_heard_twice_is_dropped(
    v: StreamView,
    r: Seq<u8>,
    t: u64,
    again: Incoming,
)
    requires
        r.len() >= 16,
        r[4] == 0,
        r[5] == 0,
        r[6] != 0 || r[7] != 0,
        is_reaction(v.heard(r, t), r, again),
    ensures
        again is Drop,
{
    datagrams_are_told_apart_by_their_bytes(r);
    crate::rsba1::rx::a_packet_heard_twice_is_dropped(v.rx, seq_of(r));
}

/// A numbered packet of the radio, idle or data, is tracked: it is delivered or dropped as its
/// number commands, its number is recorded, and nothing else changes but the time of the last
/// packet.
pub proof fn numbered_packets_are_tracked(v: StreamView, r: Seq<u8>, t: u64, a: Incoming)
    requires
        r.len() >= 16,
        r[4] == 0,
        r[5] == 0,
        r[6] != 0 || r[7] != 0,
        is_reaction(v, r, a),
    ensures
        v.rx.delivers((r[6] + 256 * r[7]) as u16) ==> a is Deliver,
        !v.rx.delivers((r[6] + 256 * r[7]) as u16) ==> a is Drop,
        v.heard(r, t) == (StreamView {
            last_rx_at: t,
            rx: v.rx.received((r[6] + 256 * r[7]) as u16),
            ..v
        }),
{
    datagrams_are_told_apart_by_their_bytes(r);
}

/// A packet that carries no number, or that is neither numbered nor for the stream itself, is
/// delivered each time it comes; nothing is tracked on its account.
pub proof fn other_packets_are_delivered(v: StreamView, r: Seq<u8>, t: u64, a: Incoming)
    requires
        r.len() < 16 || !(r[4] == 0 && r[5] == 0) || (r[6] == 0 && r[7] == 0),
        !(r.len() == 21 && r[4] == 7 && r[5] == 0),
        !(r.len() >= 16 && (begins_with_kind(r, 0x10, 1) || begins_with_kind(r, 0x18, 1))),
        is_reaction(v, r, a),
    ensures
        a is Deliver,
        v.heard(r, t) == (StreamView { last_rx_at: t, ..v }),
{
    datagrams_are_told_apart_by_their_bytes(r);
}

/// Pings and requests of the radio are answered by the stream itself: they are never delivered, and
/// nothing is tracked on their account.
pub proof fn the_stream_answers_for_itself(v: StreamView, r: Seq<u8>, t: u64, a: Incoming)
    requires
        (r.len() == 21 && r[4] == 7 && r[5] == 0) || (r.len() >= 16 && (begins_with_kind(
            r,
            0x10,
            1,
        ) || begins_with_kind(r, 0x18, 1))),
        is_reaction(v, r, a),
    ensures
        a matches Incoming::Answer(list) && wire::contents(list@) == (if r[4] == 7 {
            v.pongs(r)
        } else if r[0] == 0x10 {
            v.resent((r[6] + 256 * r[7]) as u16)
        } else {
            v.resent_ranges(r.skip(16))
        }),
        v.heard(r, t) == (StreamView { last_rx_at: t, ..v }),
{
    datagrams_are_told_apart_by_their_bytes(r);
}

/// The pace of a stream: a ping every three seconds, requests for missing packets every tenth of a
/// second, two seconds for an answer of the handshake.
pub proof fn the_pace_of_a_stream()
    ensures
        PKT7_INTERVAL == 3 * 1_000_000_000,
        RX_RETRANSMIT_INTERVAL == 100 * 1_000_000,
        EXPECT_TIMEOUT == 2 * 1_000_000_000,
{
}

/// A datagram is the one expected if it is long enough and its first bytes are those expected.
pub proof fn expected_datagrams_begin_as_they_should(
    min_len: int,
    prefix: Seq<u8>,
    rest: Seq<u8>,
    r: Seq<u8>,
)
    ensures
        is_expected(min_len, prefix, prefix + rest) <==> prefix.len() + rest.len() >= min_len,
        is_expected(min_len, prefix, r) ==> r.len() >= min_len && r.len() >= prefix.len()
            && forall|i: int| 0 <= i < prefix.len() ==> r[i] == #[trigger] prefix[i],
{
    assert((prefix + rest).take(prefix.len() as int) =~= prefix);
    if is_expected(min_len, prefix, r) {
        let t = r.take(prefix.len() as int);
        assert forall|i: int| 0 <= i < prefix.len() implies r[i] == #[trigger] prefix[i] by {
            assert(t[i] == r[i]);
        }
    }
}

/// Whether `d` asks for a number that is missing and has been asked for less than four times.
pub open spec fn asks_for_a_missing_number(v: StreamView, d: Seq<u8>) -> bool {
    exists|t: u16|
        v.rx.missing.contains_key(t) && v.rx.missing[t] < 4 && d == #[trigger] v.header(16, 1, t)
}

/// A round asks for every number that is missing and has been asked for less than four times, with
/// a packet of 16 bytes and type 1; it asks for nothing else, and for nothing twice.
pub proof fn a_round_asks_for_every_missing_number(v: StreamView, list: Seq<Seq<u8>>, s: u16)
    requires
        is_round(v, list),
    ensures
        v.rx.missing.contains_key(s) && v.rx.missing[s] < 4 ==> list.contains(v.header(16, 1, s)),
        forall|i: int| 0 <= i < list.len() ==> asks_for_a_missing_number(v, #[trigger] list[i]),
        list.no_duplicates(),
{
    let due = choose|due: Seq<u16>|
        list == #[trigger] v.requests(due) && due.no_duplicates() && due.to_set() == v.rx.due();
    if v.rx.missing.contains_key(s) && v.rx.missing[s] < 4 {
        assert(v.rx.due().contains(s));
        assert(due.to_set().contains(s));
        let i = due.index_of(s);
        assert(list[i] == v.header(16, 1, s));
    }
    assert forall|i: int| 0 <= i < list.len() implies asks_for_a_missing_number(
        v,
        #[trigger] list[i],
    ) by {
        let t = due[i];
        assert(due.to_set().contains(t));
        assert(v.rx.due().contains(t));
        assert(list[i] == v.header(16, 1, t));
    }
    assert forall|i: int, j: int| 0 <= i < list.len() && 0 <= j < list.len() && i != j implies list[i]
        != list[j] by {
        layout_of_the_header(v, 16, 1, due[i]);
        layout_of_the_header(v, 16, 1, due[j]);
        assert(due[i] != due[j]);
    }
}

} // verus!
