//! Tracking of the sequence numbers received from the radio: duplicates are dropped, gaps are
//! noted so that the missing packets can be asked for again.

use std::collections::HashMap;

use vstd::prelude::*;

use crate::rsba1::wire;

verus! {

broadcast use vstd::std_specs::hash::group_hash_axioms;

/// How many times a missing packet is asked for before it is given up.
pub const RX_MAX_ATTEMPTS: u8 = 4;

/// Above this number of missing packets, all of them are given up.
pub const RX_MISSING_FLUSH: usize = 50;

/// Sequence numbers received, and those still missing.
pub struct RxState {
    /// The most advanced number received.
    pub last_seq: Option<u16>,
    /// Missing numbers, each with how many times it has been asked for.
    pub missing: HashMap<u16, u8>,
}

/// What an `RxState` stands for.
#[verifier::ext_equal]
pub struct RxView {
    pub last_seq: Option<u16>,
    pub missing: Map<u16, u8>,
}

impl View for RxState {
    type V = RxView;

    open spec fn view(&self) -> RxView {
        RxView { last_seq: self.last_seq, missing: self.missing@ }
    }
}

impl RxView {
    /// No packet received yet.
    pub open spec fn fresh() -> RxView {
        RxView { last_seq: None, missing: Map::empty() }
    }

    /// The bounds that every state keeps.
    pub open spec fn wf(self) -> bool {
        &&& self.missing.len() <= RX_MISSING_FLUSH
        &&& forall|s: u16| #[trigger]
            self.missing.contains_key(s) ==> self.missing[s] <= RX_MAX_ATTEMPTS
    }

    /// Whether `seq` lies ahead of the most advanced number, by less than half the circle.
    pub open spec fn is_forward(self, seq: u16) -> bool {
        self.last_seq matches Some(last) && 0 < wire::ahead(last, seq) < 0x8000
    }

    /// Whether a packet numbered `seq` is to be delivered: it is the first one, it lies ahead, or
    /// it was missing.
    pub open spec fn delivers(self, seq: u16) -> bool {
        match self.last_seq {
            None => true,
            Some(last) => self.is_forward(seq) || (last != seq && self.missing.contains_key(seq)),
        }
    }

    /// Whether the number `s` is skipped when `seq` arrives.
    pub open spec fn skips(self, seq: u16, s: u16) -> bool {
        &&& self.is_forward(seq)
        &&& self.last_seq matches Some(last)
        &&& 0 < wire::ahead(last, s) < wire::ahead(last, seq)
    }

    /// The missing numbers once those that `seq` skips have joined them.
    pub open spec fn with_skipped(self, seq: u16) -> Map<u16, u8> {
        Map::new(
            |s: u16| self.missing.contains_key(s) || self.skips(seq, s),
            |s: u16|
                if self.missing.contains_key(s) {
                    self.missing[s]
                } else {
                    0
                },
        )
    }

    /// Whether the arrival of `seq` leaves too many numbers missing: more than the limit skipped
    /// at once, or more than the limit in all.
    pub open spec fn flushes(self, seq: u16) -> bool {
        &&& self.last_seq matches Some(last)
        &&& self.is_forward(seq)
        &&& wire::ahead(last, seq) > 1
        &&& (wire::ahead(last, seq) - 1 > RX_MISSING_FLUSH || self.with_skipped(seq).len()
            > RX_MISSING_FLUSH)
    }

    /// The state after the arrival of `seq`.
    pub open spec fn received(self, seq: u16) -> RxView {
        if self.last_seq is None {
            RxView { last_seq: Some(seq), ..self }
        } else if self.is_forward(seq) {
            RxView {
                last_seq: Some(seq),
                missing: if self.flushes(seq) {
                    Map::empty()
                } else {
                    self.with_skipped(seq)
                },
            }
        } else if self.last_seq == Some(seq) {
            self
        } else {
            RxView { missing: self.missing.remove(seq), ..self }
        }
    }

    /// The missing numbers that the next round asks for.
    pub open spec fn due(self) -> Set<u16> {
        Set::new(|s: u16| self.missing.contains_key(s) && self.missing[s] < RX_MAX_ATTEMPTS)
    }

    /// The state after a round of requests: one more attempt for each number asked for, the others
    /// given up.
    pub open spec fn asked(self) -> RxView {
        RxView {
            missing: Map::new(
                |s: u16| self.missing.contains_key(s) && self.missing[s] < RX_MAX_ATTEMPTS,
                |s: u16| (self.missing[s] + 1) as u8,
            ),
            ..self
        }
    }
}

proof fn sets_of_numbers_are_finite(s: Set<u16>)
    ensures
        s.finite(),
{
    broadcast use vstd::set_lib::full_set_properties;

    vstd::set_lib::lemma_set_subset_finite(Set::<u16>::full(), s);
}

impl RxState {
    /// No packet received yet.
    pub fn new() -> (rx: RxState)
        ensures
            rx@ == RxView::fresh(),
            rx@.wf(),
    {
        let rx = RxState { last_seq: None, missing: HashMap::new() };
        assert(rx@ =~= RxView::fresh());
        rx
    }

    /// Records the arrival of `seq`. Returns `true` if the packet is to be delivered, `false` if it
    /// is a duplicate.
    pub fn on_seq(&mut self, seq: u16) -> (deliver: bool)
        requires
            old(self)@.wf(),
        ensures
            deliver == old(self)@.delivers(seq),
            final(self)@ == old(self)@.received(seq),
            final(self)@.wf(),
    {
        proof {
            received_keeps_bounds(self@, seq);
        }
        let ghost before = self@;
        let last = match self.last_seq {
            None => {
                self.last_seq = Some(seq);
                assert(self@ =~= before.received(seq));
                return true;
            },
            Some(last) => last,
        };
        let diff: u16 = seq.wrapping_sub(last);
        assert(diff == wire::ahead(last, seq));
        if diff == 0 {
            assert(self@ =~= before.received(seq));
            return false;
        }
        if diff < 0x8000 {
            if diff > 1 {
                if (diff - 1) as usize > RX_MISSING_FLUSH {
                    self.missing.clear();
                } else {
                    let mut k: u16 = 1;
                    while k < diff
                        invariant
                            1 <= k <= diff < 0x8000,
                            diff == wire::ahead(last, seq),
                            before.last_seq == Some(last),
                            self.last_seq == before.last_seq,
                            forall|s: u16| #[trigger]
                                self.missing@.contains_key(s) <==> before.missing.contains_key(s)
                                    || 0 < wire::ahead(last, s) < k,
                            forall|s: u16| #[trigger]
                                self.missing@.contains_key(s) ==> self.missing@[s] == (
                                if before.missing.contains_key(s) {
                                    before.missing[s]
                                } else {
                                    0
                                }),
                        decreases diff - k,
                    {
                        let s: u16 = last.wrapping_add(k);
                        proof {
                            assert(s == wire::after(last, k as int));
                            assert forall|t: u16| wire::ahead(last, t) == k implies t == s by {
                                wire::after_is_ahead(last, t, k as int);
                            }
                            wire::after_is_ahead(last, s, k as int);
                        }
                        if !self.missing.contains_key(&s) {
                            self.missing.insert(s, 0);
                        }
                        k = k + 1;
                    }
                    assert(self.missing@ =~= before.with_skipped(seq));
                    if self.missing.len() > RX_MISSING_FLUSH {
                        self.missing.clear();
                    }
                }
            } else {
                assert(self.missing@ =~= before.with_skipped(seq));
            }
            self.last_seq = Some(seq);
            assert(self@ =~= before.received(seq));
            true
        } else {
            let found = self.missing.remove(&seq);
            assert(self@ =~= before.received(seq));
            found.is_some()
        }
    }

    /// A round of requests: the missing numbers to ask for again, in no particular order. A number
    /// that has been asked for often enough is given up.
    pub fn take_due(&mut self) -> (due: Vec<u16>)
        requires
            old(self)@.wf(),
        ensures
            due@.to_set() == old(self)@.due(),
            due@.no_duplicates(),
            final(self)@ == old(self)@.asked(),
            final(self)@.wf(),
    {
        let ghost before = self@;
        let mut keys: Vec<u16> = Vec::new();
        let ghost all = vstd::std_specs::iter::IteratorSpec::remaining(
            &vstd::std_specs::hash::spec_keys_iter(&self.missing),
        ).unref();
        for k in it: self.missing.keys()
            invariant
                it.seq().unref() == all,
                keys@ == all.take(it.index() as int),
        {
            keys.push(*k);
        }
        proof {
            assert(keys@ =~= all);
            assert(all.to_set() == before.missing.dom());
            assert forall|s: u16| #[trigger] before.missing.contains_key(s) implies exists|j: int|
                0 <= j < keys@.len() && #[trigger] keys@[j] == s by {
                assert(all.to_set().contains(s));
            }
        }
        let mut due: Vec<u16> = Vec::new();
        let mut i: usize = 0;
        while i < keys.len()
            invariant
                i <= keys.len(),
                before.wf(),
                keys@.no_duplicates(),
                forall|s: u16| #[trigger]
                    before.missing.contains_key(s) ==> exists|j: int|
                        0 <= j < keys@.len() && #[trigger] keys@[j] == s,
                forall|j: int|
                    0 <= j < keys@.len() ==> before.missing.contains_key(#[trigger] keys@[j]),
                self.last_seq == before.last_seq,
                due@.no_duplicates(),
                forall|s: u16| #[trigger]
                    due@.contains(s) <==> before.due().contains(s) && keys@.take(
                        i as int,
                    ).contains(s),
                forall|s: u16| #[trigger]
                    self.missing@.contains_key(s) <==> before.missing.contains_key(s) && (
                    keys@.take(i as int).contains(s) ==> before.missing[s] < RX_MAX_ATTEMPTS),
                forall|s: u16| #[trigger]
                    self.missing@.contains_key(s) ==> self.missing@[s] == (if keys@.take(
                        i as int,
                    ).contains(s) {
                        before.missing[s] + 1
                    } else {
                        before.missing[s] as int
                    }),
            decreases keys.len() - i,
        {
            let seq: u16 = keys[i];
            proof {
                assert(!keys@.take(i as int).contains(seq));
                assert(keys@.take(i + 1) =~= keys@.take(i as int).push(seq));
                assert forall|s: u16| #[trigger]
                    keys@.take(i + 1).contains(s) <==> keys@.take(i as int).contains(s) || s
                        == seq by {
                    if keys@.take(i as int).contains(s) {
                        let j = keys@.take(i as int).index_of(s);
                        assert(keys@.take(i + 1)[j] == s);
                    }
                    assert(keys@.take(i + 1)[i as int] == seq);
                }
            }
            let attempts: u8 = match self.missing.get(&seq) {
                Some(n) => *n,
                None => 0,
            };
            if attempts + 1 > RX_MAX_ATTEMPTS {
                self.missing.remove(&seq);
            } else {
                let ghost earlier = due@;
                assert(!earlier.contains(seq));
                self.missing.insert(seq, attempts + 1);
                due.push(seq);
                proof {
                    assert forall|s: u16| #[trigger]
                        due@.contains(s) <==> earlier.contains(s) || s == seq by {
                        if earlier.contains(s) {
                            assert(due@[earlier.index_of(s)] == s);
                        }
                        assert(due@[earlier.len() as int] == seq);
                    }
                }
            }
            i = i + 1;
        }
        proof {
            assert(keys@.take(i as int) =~= keys@);
            assert(due@.to_set() =~= before.due());
            assert(self@ =~= before.asked());
            asked_keeps_bounds(before);
        }
        due
    }
}

proof fn received_keeps_bounds(rx: RxView, seq: u16)
    requires
        rx.wf(),
    ensures
        rx.received(seq).wf(),
{
    sets_of_numbers_are_finite(rx.missing.dom());
    vstd::set_lib::lemma_len_subset(rx.missing.remove(seq).dom(), rx.missing.dom());
    if rx.last_seq is Some && wire::ahead(rx.last_seq->0, seq) == 1 {
        assert(rx.with_skipped(seq) =~= rx.missing);
    }
}

proof fn asked_keeps_bounds(rx: RxView)
    requires
        rx.wf(),
    ensures
        rx.asked().wf(),
{
    sets_of_numbers_are_finite(rx.missing.dom());
    vstd::set_lib::lemma_len_subset(rx.asked().missing.dom(), rx.missing.dom());
}

impl RxView {
    /// Whether the most advanced number is `s`, or lies ahead of it by at most half the circle.
    pub open spec fn has_passed(self, s: u16) -> bool {
        self.last_seq matches Some(last) && wire::ahead(s, last) <= 0x8000
    }

    /// Whether `s` has been passed and is not waited for.
    pub open spec fn settled(self, s: u16) -> bool {
        self.has_passed(s) && !self.missing.contains_key(s)
    }
}

/// What can happen to the tracking of sequence numbers.
pub enum RxEvent {
    /// A packet with this number arrives.
    Arrival(u16),
    /// A round of requests is made.
    Round,
}

impl RxView {
    /// The state after one event.
    pub open spec fn stepped(self, e: RxEvent) -> RxView {
        match e {
            RxEvent::Arrival(seq) => self.received(seq),
            RxEvent::Round => self.asked(),
        }
    }

    /// The state after the events `events`.
    pub open spec fn ran(self, events: Seq<RxEvent>) -> RxView
        decreases events.len(),
    {
        if events.len() == 0 {
            self
        } else {
            self.ran(events.drop_last()).stepped(events.last())
        }
    }

    /// The state after `n` rounds of requests.
    pub open spec fn after_rounds(self, n: nat) -> RxView
        decreases n,
    {
        if n == 0 {
            self
        } else {
            self.after_rounds((n - 1) as nat).asked()
        }
    }
}

/// Whatever arrives and whenever requests are made, the bounds hold: never more than the limit of
/// numbers are missing, and none has been asked for more than the limit of times.
pub proof fn bounds_always_hold(rx: RxView, events: Seq<RxEvent>)
    requires
        rx.wf(),
    ensures
        rx.ran(events).wf(),
    decreases events.len(),
{
    if events.len() > 0 {
        bounds_always_hold(rx, events.drop_last());
        match events.last() {
            RxEvent::Arrival(seq) => received_keeps_bounds(rx.ran(events.drop_last()), seq),
            RxEvent::Round => asked_keeps_bounds(rx.ran(events.drop_last())),
        }
    }
}

proof fn settled_is_not_delivered(rx: RxView, s: u16)
    requires
        rx.settled(s),
    ensures
        !rx.delivers(s),
{
}

proof fn delivered_is_settled(rx: RxView, s: u16)
    requires
        rx.delivers(s),
        rx.is_forward(s) || rx.last_seq is None ==> !rx.missing.contains_key(s),
    ensures
        rx.received(s).settled(s),
{
}

proof fn settled_stays(rx: RxView, s: u16, e: RxEvent)
    requires
        rx.settled(s),
        rx.stepped(e).has_passed(s),
    ensures
        rx.stepped(e).settled(s),
{
}

/// A packet is delivered once: after the number `s` has been delivered, no later packet with that
/// number is delivered, whatever happens meanwhile, as long as the radio has not advanced by more
/// than half the circle of numbers. (A number still waited for from an earlier turn of the circle
/// when it comes up again as a new one is the exception.)
pub proof fn a_packet_is_delivered_once(rx: RxView, s: u16, events: Seq<RxEvent>)
    requires
        rx.delivers(s),
        rx.is_forward(s) || rx.last_seq is None ==> !rx.missing.contains_key(s),
        forall|i: int|
            0 <= i <= events.len() ==> #[trigger] rx.received(s).ran(events.take(i)).has_passed(s),
    ensures
        !rx.received(s).ran(events).delivers(s),
        rx.received(s).ran(events).settled(s),
    decreases events.len(),
{
    let after = rx.received(s);
    assert(events.take(events.len() as int) =~= events);
    if events.len() == 0 {
        delivered_is_settled(rx, s);
    } else {
        let front = events.drop_last();
        assert forall|i: int| 0 <= i <= front.len() implies #[trigger] after.ran(
            front.take(i),
        ).has_passed(s) by {
            assert(front.take(i) =~= events.take(i));
        }
        a_packet_is_delivered_once(rx, s, front);
        assert(after.ran(events.take(events.len() as int)).has_passed(s));
        settled_stays(after.ran(front), s, events.last());
    }
    settled_is_not_delivered(after.ran(events), s);
}

/// Packets that come in order are all delivered, and leave nothing new to wait for.
pub proof fn packets_in_order_are_delivered(rx: RxView, last: u16)
    requires
        rx.last_seq == Some(last),
    ensures
        rx.delivers(wire::after(last, 1)),
        rx.received(wire::after(last, 1)) == (RxView {
            last_seq: Some(wire::after(last, 1)),
            ..rx
        }),
{
    assert(rx.with_skipped(wire::after(last, 1)) =~= rx.missing);
}

/// Numbers skipped by an arrival are noted as missing, unless there are too many of them; in that
/// case nothing is waited for any more.
pub proof fn skipped_numbers_are_missing(rx: RxView, seq: u16, s: u16)
    requires
        rx.skips(seq, s),
    ensures
        rx.received(seq).last_seq == Some(seq),
        rx.flushes(seq) ==> rx.received(seq).missing.len() == 0,
        !rx.flushes(seq) ==> rx.received(seq).missing.contains_key(s),
{
}

/// A missing packet that arrives late is delivered, and its number is waited for no longer.
pub proof fn a_late_packet_is_delivered(rx: RxView, s: u16)
    requires
        rx.missing.contains_key(s),
        rx.last_seq is Some && rx.last_seq != Some(s),
    ensures
        rx.delivers(s),
        !rx.is_forward(s) ==> !rx.received(s).missing.contains_key(s) && rx.received(s).last_seq
            == rx.last_seq && !rx.received(s).delivers(s),
{
}

/// A missing number is asked for in each of the next rounds until it has been asked for four times
/// in all; then it is given up.
pub proof fn a_missing_number_is_asked_for_four_times(rx: RxView, s: u16, n: nat)
    requires
        rx.wf(),
        rx.missing.contains_key(s),
    ensures
        rx.missing[s] + n < RX_MAX_ATTEMPTS ==> rx.after_rounds(n).due().contains(s),
        rx.missing[s] + n >= RX_MAX_ATTEMPTS ==> !rx.after_rounds(n).due().contains(s),
        rx.missing[s] + n <= RX_MAX_ATTEMPTS ==> rx.after_rounds(n).missing.contains_key(s)
            && rx.after_rounds(n).missing[s] == rx.missing[s] + n,
        rx.missing[s] + n > RX_MAX_ATTEMPTS ==> !rx.after_rounds(n).missing.contains_key(s),
    decreases n,
{
    if n > 0 {
        a_missing_number_is_asked_for_four_times(rx, s, (n - 1) as nat);
    }
}

/// The first packet is delivered whatever its number is, and nothing is missing on its account.
pub proof fn the_first_packet_is_delivered(rx: RxView, seq: u16)
    requires
        rx.last_seq is None,
    ensures
        rx.delivers(seq),
        rx.received(seq).last_seq == Some(seq),
        rx.received(seq).missing == rx.missing,
{
}

/// A packet that lies ahead, by up to 32767 numbers, is delivered and becomes the most advanced one.
/// Unless too many numbers are missing then, every number that was missing still is, asked for as
/// often as before, and the numbers between the two join them, never asked for; no other does.
pub proof fn a_gap_adds_to_what_is_missing(rx: RxView, last: u16, k: int, s: u16)
    requires
        rx.last_seq == Some(last),
        1 <= k <= 32767,
        ({
            let seq = ((last + k) % 65536) as u16;
            k - 1 <= 50 && (k == 1 || rx.with_skipped(seq).len() <= 50)
        }),
    ensures
        ({
            let seq = ((last + k) % 65536) as u16;
            let between = exists|j: int| 1 <= j < k && s == #[trigger] ((last + j) % 65536);
            &&& rx.delivers(seq)
            &&& rx.received(seq).last_seq == Some(seq)
            &&& rx.received(seq).missing.contains_key(s) <==> rx.missing.contains_key(s) || between
            &&& rx.missing.contains_key(s) ==> rx.received(seq).missing[s] == rx.missing[s]
            &&& between && !rx.missing.contains_key(s) ==> rx.received(seq).missing[s] == 0
        }),
{
    let seq = ((last + k) % 65536) as u16;
    assert(wire::ahead(last, seq) == k);
    assert(rx.is_forward(seq));
    assert(!rx.flushes(seq));
    let j = wire::ahead(last, s);
    assert(s == (last + j) % 65536);
    if exists|j: int| 1 <= j < k && s == #[trigger] ((last + j) % 65536) {
        let i = choose|j: int| 1 <= j < k && s == #[trigger] ((last + j) % 65536);
        assert(wire::ahead(last, s) == i);
    }
}

/// The numbers that are missing once those skipped by `seq` have joined them.
pub proof fn the_skipped_numbers_join_the_missing_ones(rx: RxView, last: u16, k: int, s: u16)
    requires
        rx.last_seq == Some(last),
        1 <= k <= 32767,
    ensures
        rx.with_skipped(((last + k) % 65536) as u16).contains_key(s) <==> rx.missing.contains_key(s)
            || 1 <= (s - last) % 65536 < k,
{
    let seq = ((last + k) % 65536) as u16;
    assert(wire::ahead(last, seq) == k);
}

/// Too large a gap makes the stream start over: when more than 50 numbers are skipped at once, or
/// more than 50 are missing in all, nothing is waited for any more; the packet is delivered.
pub proof fn too_large_a_gap_is_given_up(rx: RxView, last: u16, k: int)
    requires
        rx.last_seq == Some(last),
        2 <= k <= 32767,
        k - 1 > 50 || rx.with_skipped(((last + k) % 65536) as u16).len() > 50,
    ensures
        ({
            let seq = ((last + k) % 65536) as u16;
            &&& rx.delivers(seq)
            &&& rx.received(seq).last_seq == Some(seq)
            &&& forall|s: u16| !#[trigger] rx.received(seq).missing.contains_key(s)
        }),
{
    let seq = ((last + k) % 65536) as u16;
    assert(wire::ahead(last, seq) == k);
}

/// A packet that lies behind, by up to 32768 numbers, or that repeats the most advanced one, is
/// delivered exactly when it was missing. It is waited for no longer; what else is missing stays
/// so, and so does the most advanced number.
pub proof fn a_packet_behind_is_delivered_if_it_was_missing(rx: RxView, last: u16, k: int, s: u16)
    requires
        rx.last_seq == Some(last),
        0 <= k <= 32768,
    ensures
        ({
            let seq = ((last - k) % 65536) as u16;
            &&& rx.delivers(seq) <==> k > 0 && rx.missing.contains_key(seq)
            &&& rx.received(seq).last_seq == Some(last)
            &&& k > 0 ==> !rx.received(seq).missing.contains_key(seq)
            &&& s != seq || k == 0 ==> (rx.received(seq).missing.contains_key(s)
                <==> rx.missing.contains_key(s)) && (rx.missing.contains_key(s) ==> rx.received(
                seq,
            ).missing[s] == rx.missing[s])
        }),
{
    let seq = ((last - k) % 65536) as u16;
    assert(wire::ahead(last, seq) == (65536 - k) % 65536);
}

/// A packet heard twice in a row is delivered at most once: the second time it is a duplicate, and
/// changes nothing, even if requests were made in between.
pub proof fn a_packet_heard_twice_is_dropped(rx: RxView, seq: u16)
    ensures
        !rx.received(seq).delivers(seq),
        !rx.received(seq).asked().delivers(seq),
        rx.received(seq).received(seq) == rx.received(seq),
{
    assert(rx.received(seq).received(seq) =~= rx.received(seq));
}

/// A round of requests asks for every missing number that has been asked for less than four times,
/// and for no other. Those count one request more; the others are given up.
pub proof fn a_round_asks_for_what_is_missing(rx: RxView, s: u16)
    ensures
        rx.due().contains(s) <==> rx.missing.contains_key(s) && rx.missing[s] < 4,
        rx.asked().missing.contains_key(s) <==> rx.missing.contains_key(s) && rx.missing[s] < 4,
        rx.asked().missing.contains_key(s) ==> rx.asked().missing[s] == rx.missing[s] + 1,
        rx.asked().last_seq == rx.last_seq,
        !RxView::fresh().missing.contains_key(s),
        RxView::fresh().last_seq is None,
{
}

/// Nothing is lost between two gaps: what the first one left missing is asked for after the second
/// one, together with what the second one skipped.
pub proof fn two_gaps_are_both_asked_for(rx: RxView, last: u16, j: int, k: int, s: u16)
    requires
        rx.wf(),
        rx.last_seq == Some(last),
        rx.missing.len() == 0,
        2 <= j,
        2 <= k,
        j + k <= 30,
        1 <= (s - last) % 65536 < j || j < (s - last) % 65536 < j + k,
    ensures
        ({
            let a = ((last + j) % 65536) as u16;
            let b = ((last + j + k) % 65536) as u16;
            rx.received(a).received(b).due().contains(s)
        }),
{
    let a = ((last + j) % 65536) as u16;
    let b = ((last + j + k) % 65536) as u16;
    sets_of_numbers_are_finite(rx.missing.dom());
    assert forall|t: u16| #[trigger] rx.missing.contains_key(t) implies 1 <= wire::ahead(last, t)
        < 1 by {
        assert(rx.missing.dom().contains(t));
    }
    assert(wire::ahead(last, last) == 0);
    small_gap(rx, last, last, 0, j, s);
    small_gap(rx.received(a), last, a, j, k, s);
}

/// A gap that leaves few numbers missing after `base` is noted whole.
proof fn small_gap(rx: RxView, base: u16, last: u16, j: int, k: int, s: u16)
    requires
        rx.last_seq == Some(last),
        wire::ahead(base, last) == j,
        2 <= k,
        j + k <= 30,
        forall|t: u16| #[trigger]
            rx.missing.contains_key(t) ==> 1 <= wire::ahead(base, t) < j + 1 && rx.missing[t] == 0,
    ensures
        ({
            let w = rx.received(wire::after(base, j + k));
            &&& w.last_seq == Some(wire::after(base, j + k))
            &&& wire::ahead(base, wire::after(base, j + k)) == j + k
            &&& forall|t: u16| #[trigger]
                w.missing.contains_key(t) ==> 1 <= wire::ahead(base, t) < j + k + 1 && w.missing[t]
                    == 0
            &&& j < wire::ahead(base, s) < j + k || rx.missing.contains_key(s)
                ==> w.missing.contains_key(s)
        }),
{
    let b = wire::after(base, j + k);
    assert(wire::ahead(last, b) == k);
    assert forall|t: u16| #[trigger] rx.with_skipped(b).contains_key(t) implies 1 <= wire::ahead(
        base,
        t,
    ) < j + k by {
        if !rx.missing.contains_key(t) {
            numbers_further_on(base, last, t, j, k);
        }
    }
    few_numbers_after(rx.with_skipped(b).dom(), base, j + k);
    assert(!rx.flushes(b));
    numbers_further_on(base, last, s, j, k);
}

/// What lies `i` ahead of a number that is itself `j` ahead lies `j + i` ahead, for small distances.
proof fn numbers_further_on(base: u16, last: u16, t: u16, j: int, k: int)
    requires
        wire::ahead(base, last) == j,
        0 <= j,
        2 <= k,
        j + k <= 30,
    ensures
        0 < wire::ahead(last, t) < k <==> j < wire::ahead(base, t) < j + k,
{
}

/// A set of numbers that lie less than `k` ahead of `last` holds less than `k` numbers.
proof fn few_numbers_after(set: Set<u16>, last: u16, k: int)
    requires
        1 <= k <= 65536,
        forall|t: u16| #[trigger] set.contains(t) ==> 1 <= wire::ahead(last, t) < k,
    ensures
        set.len() < k,
    decreases k,
{
    sets_of_numbers_are_finite(set);
    if k == 1 {
        assert(set =~= Set::empty());
    } else {
        let t = ((last + k - 1) % 65536) as u16;
        let rest = set.remove(t);
        assert forall|u: u16| #[trigger] rest.contains(u) implies 1 <= wire::ahead(last, u) < k
            - 1 by {
            assert(set.contains(u) && u != t);
            wire::after_is_ahead(last, u, k - 1);
        }
        few_numbers_after(rest, last, k - 1);
    }
}

} // verus!
