//! Tracked packets: numbering, history for retransmission, and idle keepalives.
//!
//! Times are nanoseconds on the caller's monotonic clock.

use std::collections::VecDeque;

use vstd::prelude::*;

use crate::rsba1::wire;

verus! {

/// Length of the history kept for retransmission.
pub const TX_BUF_MAX: usize = 256;

/// Interval between idle packets after recent activity: 100 ms.
pub const PKT0_ACTIVE_INTERVAL: u64 = 100_000_000;

/// Interval between idle packets at rest: 1 s.
pub const PKT0_IDLE_INTERVAL: u64 = 1_000_000_000;

/// Without other tracked packets for this long, the pace is that of rest: 1 s.
pub const PKT0_IDLE_AFTER: u64 = 1_000_000_000;

/// State of the tracked packets.
pub struct Pkt0State {
    /// Number of the next tracked packet.
    pub send_seq: u16,
    /// The last tracked packets sent, oldest first, each with its number.
    pub tx_buf: VecDeque<(u16, Vec<u8>)>,
    /// When the last tracked packet other than an idle was sent.
    pub last_tracked_at: u64,
    /// When the last tracked packet was sent.
    pub last_send_at: u64,
}

/// What a `Pkt0State` stands for.
#[verifier::ext_equal]
pub struct Pkt0View {
    pub send_seq: u16,
    pub sent: Seq<(u16, Seq<u8>)>,
    pub last_tracked_at: u64,
    pub last_send_at: u64,
}

impl View for Pkt0State {
    type V = Pkt0View;

    open spec fn view(&self) -> Pkt0View {
        Pkt0View {
            send_seq: self.send_seq,
            sent: Seq::new(
                self.tx_buf@.len(),
                |i: int| (self.tx_buf@[i].0, self.tx_buf@[i].1@),
            ),
            last_tracked_at: self.last_tracked_at,
            last_send_at: self.last_send_at,
        }
    }
}

/// The packet `p` with the sequence number `seq` in its header.
pub open spec fn stamped(p: Seq<u8>, seq: u16) -> Seq<u8> {
    p.update(6, wire::le16(seq)[0]).update(7, wire::le16(seq)[1])
}

/// Whether `p` is an idle packet.
pub open spec fn is_idle(p: Seq<u8>) -> bool {
    p.len() == 16 && p[4] == 0 && p[5] == 0
}

/// The first packet of a history that has the number `seq`.
pub open spec fn buffered(sent: Seq<(u16, Seq<u8>)>, seq: u16) -> Option<Seq<u8>>
    decreases sent.len(),
{
    if sent.len() == 0 {
        None
    } else if sent[0].0 == seq {
        Some(sent[0].1)
    } else {
        buffered(sent.drop_first(), seq)
    }
}

impl Pkt0View {
    /// The state in which a stream starts.
    pub open spec fn initial(now: u64) -> Pkt0View {
        Pkt0View { send_seq: 1, sent: Seq::empty(), last_tracked_at: now, last_send_at: now }
    }

    /// The history is bounded, its numbers follow one another up to the next one to be given, and
    /// each packet carries its number.
    pub open spec fn wf(self) -> bool {
        &&& self.sent.len() <= TX_BUF_MAX
        &&& forall|i: int|
            0 <= i < self.sent.len() ==> {
                let (seq, p) = #[trigger] self.sent[i];
                &&& wire::ahead(seq, self.send_seq) == self.sent.len() - i
                &&& p.len() >= 8
                &&& p[6] == wire::le16(seq)[0]
                &&& p[7] == wire::le16(seq)[1]
            }
    }

    /// The state once `packet` has been sent at time `now`, as a tracked packet.
    pub open spec fn numbered(self, packet: Seq<u8>, now: u64) -> Pkt0View {
        let all = self.sent.push((self.send_seq, stamped(packet, self.send_seq)));
        Pkt0View {
            send_seq: wire::after(self.send_seq, 1),
            sent: if all.len() > TX_BUF_MAX {
                all.drop_first()
            } else {
                all
            },
            last_tracked_at: if is_idle(packet) {
                self.last_tracked_at
            } else {
                now
            },
            last_send_at: now,
        }
    }

    /// The interval between two idle packets at time `now`.
    pub open spec fn idle_interval(self, now: u64) -> u64 {
        if now - self.last_tracked_at < PKT0_IDLE_AFTER {
            PKT0_ACTIVE_INTERVAL
        } else {
            PKT0_IDLE_INTERVAL
        }
    }

    /// How long remains at time `now` before an idle packet is due; 0 if it is due.
    pub open spec fn idle_wait(self, now: u64) -> int {
        if now - self.last_send_at >= self.idle_interval(now) {
            0
        } else {
            self.last_send_at + self.idle_interval(now) - now
        }
    }
}

impl Pkt0State {
    /// The state in which a stream starts.
    pub fn new(now: u64) -> (st: Pkt0State)
        ensures
            st@ == Pkt0View::initial(now),
            st@.wf(),
    {
        let st = Pkt0State {
            send_seq: 1,
            tx_buf: VecDeque::new(),
            last_tracked_at: now,
            last_send_at: now,
        };
        assert(st@ =~= Pkt0View::initial(now));
        st
    }

    /// Gives `packet` the next number, keeps it for retransmission, and returns it as it is to be
    /// sent.
    pub fn send_tracked(&mut self, packet: Vec<u8>, now: u64) -> (out: Vec<u8>)
        requires
            packet@.len() >= 8,
        ensures
            out@ == stamped(packet@, old(self)@.send_seq),
            final(self)@ == old(self)@.numbered(packet@, now),
            old(self)@.wf() ==> final(self)@.wf(),
    {
        let ghost before = self@;
        proof {
            if before.wf() {
                numbering_keeps_order(before, packet@, now);
            }
        }
        let mut out = packet;
        let seq: u16 = self.send_seq;
        out[6] = wire::low(seq);
        out[7] = wire::high(seq);
        let kept = wire::copy(&out);
        self.tx_buf.push_back((seq, kept));
        assert(self@.sent =~= before.sent.push((seq, out@)));
        if self.tx_buf.len() > TX_BUF_MAX {
            let ghost all = self@.sent;
            self.tx_buf.pop_front();
            assert(self@.sent =~= all.drop_first());
        }
        self.send_seq = seq.wrapping_add(1);
        self.last_send_at = now;
        let idle = out.len() == 16 && out[4] == 0 && out[5] == 0;
        if !idle {
            self.last_tracked_at = now;
        }
        assert(self@ =~= before.numbered(packet@, now));
        out
    }

    /// The packet of the history that has the number `seq`.
    pub fn find(&self, seq: u16) -> (found: Option<Vec<u8>>)
        ensures
            match found {
                Some(p) => buffered(self@.sent, seq) == Some(p@),
                None => buffered(self@.sent, seq) is None,
            },
    {
        let mut i: usize = 0;
        assert(self@.sent.skip(0) =~= self@.sent);
        while i < self.tx_buf.len()
            invariant
                i <= self.tx_buf@.len(),
                buffered(self@.sent.skip(i as int), seq) == buffered(self@.sent, seq),
            decreases self.tx_buf@.len() - i,
        {
            assert(self@.sent.skip(i as int)[0] == self@.sent[i as int]);
            if self.tx_buf[i].0 == seq {
                return Some(wire::copy(&self.tx_buf[i].1));
            }
            assert(self@.sent.skip(i as int).drop_first() =~= self@.sent.skip(i + 1));
            i = i + 1;
        }
        None
    }

    /// How long to wait before an idle packet is due; 0 if it is due.
    pub fn idle_wait(&self, now: u64) -> (wait: u64)
        requires
            self.last_send_at <= now,
        ensures
            wait == self@.idle_wait(now),
    {
        let quiet: u64 = now.saturating_sub(self.last_tracked_at);
        let interval: u64 = if quiet < PKT0_IDLE_AFTER {
            PKT0_ACTIVE_INTERVAL
        } else {
            PKT0_IDLE_INTERVAL
        };
        let elapsed: u64 = now - self.last_send_at;
        if elapsed >= interval {
            0
        } else {
            interval - elapsed
        }
    }
}

proof fn numbering_keeps_order(v: Pkt0View, packet: Seq<u8>, now: u64)
    requires
        v.wf(),
        packet.len() >= 8,
    ensures
        v.numbered(packet, now).wf(),
{
    let w = v.numbered(packet, now);
    let all = v.sent.push((v.send_seq, stamped(packet, v.send_seq)));
    assert forall|i: int| 0 <= i < w.sent.len() implies {
        let (seq, p) = #[trigger] w.sent[i];
        &&& wire::ahead(seq, w.send_seq) == w.sent.len() - i
        &&& p.len() >= 8
        &&& p[6] == wire::le16(seq)[0]
        &&& p[7] == wire::le16(seq)[1]
    } by {
        let j = if all.len() > TX_BUF_MAX {
            i + 1
        } else {
            i
        };
        assert(w.sent[i] == all[j]);
        if j < v.sent.len() {
            assert(all[j] == v.sent[j]);
        }
    }
}

proof fn buffered_by_position(sent: Seq<(u16, Seq<u8>)>, seq: u16, at: int)
    requires
        0 <= at < sent.len(),
        sent[at].0 == seq,
        forall|i: int| 0 <= i < at ==> (#[trigger] sent[i]).0 != seq,
    ensures
        buffered(sent, seq) == Some(sent[at].1),
    decreases sent.len(),
{
    if at > 0 {
        let rest = sent.drop_first();
        assert forall|i: int| 0 <= i < at - 1 implies (#[trigger] rest[i]).0 != seq by {
            assert(rest[i] == sent[i + 1]);
        }
        assert(sent[0].0 != seq);
        buffered_by_position(rest, seq, at - 1);
    }
}

proof fn not_buffered(sent: Seq<(u16, Seq<u8>)>, seq: u16)
    requires
        forall|i: int| 0 <= i < sent.len() ==> (#[trigger] sent[i]).0 != seq,
    ensures
        buffered(sent, seq) is None,
    decreases sent.len(),
{
    if sent.len() > 0 {
        let rest = sent.drop_first();
        assert forall|i: int| 0 <= i < rest.len() implies (#[trigger] rest[i]).0 != seq by {
            assert(rest[i] == sent[i + 1]);
        }
        not_buffered(rest, seq);
    }
}

/// The history holds exactly the last packets: the one sent `k` packets ago is found under its
/// number, and a number further back, or not given yet, is not found.
pub proof fn history_holds_the_last_packets(v: Pkt0View, seq: u16)
    requires
        v.wf(),
    ensures
        ({
            let k = wire::ahead(seq, v.send_seq);
            if 1 <= k <= v.sent.len() {
                buffered(v.sent, seq) == Some(v.sent[v.sent.len() - k].1)
            } else {
                buffered(v.sent, seq) is None
            }
        }),
{
    let k = wire::ahead(seq, v.send_seq);
    if 1 <= k <= v.sent.len() {
        let at = v.sent.len() - k;
        assert(v.sent[at].0 == seq) by {
            let s = v.sent[at].0;
            assert(wire::ahead(s, v.send_seq) == k);
        }
        buffered_by_position(v.sent, seq, at);
    } else {
        not_buffered(v.sent, seq);
    }
}

impl Pkt0View {
    /// The state after the packets `later` have been sent in turn, each at its time.
    pub open spec fn numbered_all(self, later: Seq<(Seq<u8>, u64)>) -> Pkt0View
        decreases later.len(),
    {
        if later.len() == 0 {
            self
        } else {
            self.numbered_all(later.drop_last()).numbered(later.last().0, later.last().1)
        }
    }
}

proof fn numbering_shifts(v: Pkt0View, packet: Seq<u8>, now: u64, k: int)
    requires
        v.sent.len() <= TX_BUF_MAX,
    ensures
        ({
            let w = v.numbered(packet, now);
            &&& w.sent.len() >= 1
            &&& w.sent[w.sent.len() - 1] == (v.send_seq, stamped(packet, v.send_seq))
            &&& 0 <= k < v.sent.len() && k + 1 < TX_BUF_MAX ==> w.sent.len() >= k + 2
                && w.sent[w.sent.len() - k - 2] == v.sent[v.sent.len() - k - 1]
        }),
{
}

proof fn sent_packet_stays(v: Pkt0View, packet: Seq<u8>, now: u64, later: Seq<(Seq<u8>, u64)>)
    requires
        v.wf(),
        packet.len() >= 8,
        forall|i: int| 0 <= i < later.len() ==> (#[trigger] later[i]).0.len() >= 8,
        later.len() < TX_BUF_MAX,
    ensures
        ({
            let w = v.numbered(packet, now).numbered_all(later);
            &&& w.wf()
            &&& wire::ahead(v.send_seq, w.send_seq) == later.len() + 1
            &&& w.sent.len() >= later.len() + 1
            &&& w.sent[w.sent.len() - later.len() - 1] == (v.send_seq, stamped(packet, v.send_seq))
        }),
    decreases later.len(),
{
    let first = v.numbered(packet, now);
    numbering_keeps_order(v, packet, now);
    numbering_shifts(v, packet, now, 0);
    if later.len() > 0 {
        let front = later.drop_last();
        assert forall|i: int| 0 <= i < front.len() implies (#[trigger] front[i]).0.len() >= 8 by {
            assert(front[i] == later[i]);
        }
        sent_packet_stays(v, packet, now, front);
        let u = first.numbered_all(front);
        assert(later[later.len() - 1] == later.last());
        numbering_keeps_order(u, later.last().0, later.last().1);
        numbering_shifts(u, later.last().0, later.last().1, front.len() as int);
        assert(u.numbered(later.last().0, later.last().1) == first.numbered_all(later));
    }
}

/// What was sent can be sent again: a tracked packet is found in the history under its number,
/// as it was sent, until 256 more packets have been sent.
pub proof fn a_sent_packet_can_be_sent_again(
    v: Pkt0View,
    packet: Seq<u8>,
    now: u64,
    later: Seq<(Seq<u8>, u64)>,
)
    requires
        v.wf(),
        packet.len() >= 8,
        forall|i: int| 0 <= i < later.len() ==> (#[trigger] later[i]).0.len() >= 8,
        later.len() < TX_BUF_MAX,
    ensures
        buffered(v.numbered(packet, now).numbered_all(later).sent, v.send_seq) == Some(
            stamped(packet, v.send_seq),
        ),
{
    sent_packet_stays(v, packet, now, later);
    history_holds_the_last_packets(v.numbered(packet, now).numbered_all(later), v.send_seq);
}

/// An idle packet is due when nothing tracked has been sent for the current interval: 100 ms after
/// activity, 1 s at rest. Any tracked packet puts it off.
pub proof fn a_tracked_packet_puts_the_idle_off(v: Pkt0View, packet: Seq<u8>, now: u64, t: u64)
    requires
        now <= t,
    ensures
        v.numbered(packet, now).idle_wait(t) == 0 ==> t - now >= PKT0_ACTIVE_INTERVAL,
        !is_idle(packet) && t - now < PKT0_IDLE_AFTER ==> v.numbered(packet, now).idle_wait(t) == (
        if t - now >= PKT0_ACTIVE_INTERVAL {
            0
        } else {
            now + PKT0_ACTIVE_INTERVAL - t
        }),
        t - now >= PKT0_IDLE_INTERVAL ==> v.numbered(packet, now).idle_wait(t) == 0,
{
}

/// A stamped packet carries its number, low byte first, in its seventh and eighth bytes; all its
/// other bytes are as they were.
pub proof fn stamping_writes_the_number_only(p: Seq<u8>, seq: u16, i: int)
    requires
        p.len() >= 8,
        0 <= i < p.len(),
    ensures
        stamped(p, seq).len() == p.len(),
        stamped(p, seq)[6] + 256 * stamped(p, seq)[7] == seq,
        i != 6 && i != 7 ==> stamped(p, seq)[i] == p[i],
{
}

/// Numbers start at 1 and go up by one with each packet, idle or not; 0 follows 65535.
pub proof fn packets_are_numbered_in_turn(v: Pkt0View, packet: Seq<u8>, now: u64)
    ensures
        Pkt0View::initial(now).send_seq == 1,
        Pkt0View::initial(now).sent.len() == 0,
        v.send_seq < 65535 ==> v.numbered(packet, now).send_seq == v.send_seq + 1,
        v.send_seq == 65535 ==> v.numbered(packet, now).send_seq == 0,
{
}

/// Sending adds the stamped packet at the end of the history. The others stay as they are, but for
/// the oldest one, which leaves when there are 256 already.
pub proof fn the_history_keeps_the_newest(v: Pkt0View, packet: Seq<u8>, now: u64)
    requires
        v.sent.len() <= 256,
    ensures
        ({
            let w = v.numbered(packet, now);
            &&& w.sent.len() == (if v.sent.len() < 256 {
                v.sent.len() + 1
            } else {
                256
            })
            &&& w.sent.last() == (v.send_seq, stamped(packet, v.send_seq))
            &&& v.sent.len() < 256 ==> w.sent.drop_last() == v.sent
            &&& v.sent.len() == 256 ==> w.sent.drop_last() == v.sent.drop_first()
        }),
{
    let w = v.numbered(packet, now);
    if v.sent.len() < 256 {
        assert(w.sent.drop_last() =~= v.sent);
    } else {
        assert(w.sent.drop_last() =~= v.sent.drop_first());
    }
}

/// Every packet sent counts for the time of the next idle one; only packets that are not idle, that
/// is, longer than 16 bytes or of a type other than 0, count as activity.
pub proof fn idle_packets_are_no_activity(v: Pkt0View, packet: Seq<u8>, now: u64)
    ensures
        v.numbered(packet, now).last_send_at == now,
        packet.len() == 16 && packet[4] == 0 && packet[5] == 0 ==> v.numbered(
            packet,
            now,
        ).last_tracked_at == v.last_tracked_at,
        packet.len() != 16 || packet[4] != 0 || packet[5] != 0 ==> v.numbered(
            packet,
            now,
        ).last_tracked_at == now,
        Pkt0View::initial(now).last_send_at == now,
        Pkt0View::initial(now).last_tracked_at == now,
{
}

/// The pace of the idle packets: less than one second after activity, one is due 100 ms after the
/// last packet sent; later, one second after it.
pub proof fn the_pace_of_idle_packets(v: Pkt0View, now: u64)
    requires
        v.last_tracked_at <= v.last_send_at <= now,
    ensures
        ({
            let due = if now - v.last_tracked_at < 1_000_000_000 {
                v.last_send_at + 100_000_000
            } else {
                v.last_send_at + 1_000_000_000
            };
            &&& now >= due ==> v.idle_wait(now) == 0
            &&& now < due ==> v.idle_wait(now) == due - now
        }),
{
}

} // verus!
