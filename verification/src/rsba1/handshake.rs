//! The handshake that opens a stream: are you there, I am here, are you ready, ready.

use vstd::prelude::*;

use crate::error::BridgeError;
use crate::rsba1::stream;
use crate::rsba1::stream::StreamCommon;
use crate::rsba1::stream::StreamView;
use crate::rsba1::wire;

verus! {

/// A step of the opening handshake.
#[derive(Clone, Copy, PartialEq, Eq, Structural, Debug)]
pub enum HandshakePhase {
    /// Waiting for the radio to say that it is there.
    Pkt4,
    /// Waiting for the radio to say that it is ready.
    Pkt6Answer,
    /// The stream is open.
    Open,
    /// The radio did not answer.
    Failed,
}

/// What came of waiting for a datagram.
pub enum Heard {
    Datagram(Vec<u8>),
    /// The time is over, or the socket failed.
    Nothing,
}

impl Heard {
    /// The bytes of the datagram, if one came.
    pub open spec fn bytes(self) -> Option<Seq<u8>> {
        match self {
            Heard::Datagram(r) => Some(r@),
            Heard::Nothing => None,
        }
    }
}

/// Where the handshake stands, what is to be sent now, and why it failed if it did.
pub struct HandshakeStep {
    pub phase: HandshakePhase,
    pub send: Vec<Vec<u8>>,
    pub error: Option<BridgeError>,
}

/// Whether `r` is the packet by which the radio says that it is there.
pub open spec fn is_pkt4(r: Seq<u8>) -> bool {
    stream::is_expected(16, seq![0x10u8, 0, 0, 0, 0x04, 0, 0, 0], r)
}

/// Whether `r` is the packet by which the radio says that it is ready.
pub open spec fn is_pkt6_answer(r: Seq<u8>) -> bool {
    stream::is_expected(16, seq![0x10u8, 0, 0, 0, 0x06, 0, 0x01, 0], r)
}

/// The phase that follows `phase` once `heard` has come, or nothing has.
pub open spec fn next_phase(phase: HandshakePhase, heard: Option<Seq<u8>>) -> HandshakePhase {
    match (phase, heard) {
        (HandshakePhase::Pkt4, Some(r)) => if is_pkt4(r) {
            HandshakePhase::Pkt6Answer
        } else {
            phase
        },
        (HandshakePhase::Pkt6Answer, Some(r)) => if is_pkt6_answer(r) {
            HandshakePhase::Open
        } else {
            phase
        },
        (HandshakePhase::Pkt4, None) => HandshakePhase::Failed,
        (HandshakePhase::Pkt6Answer, None) => HandshakePhase::Failed,
        _ => phase,
    }
}

impl StreamView {
    /// The packets that ask whether the radio is there.
    pub open spec fn are_you_there(self) -> Seq<Seq<u8>> {
        seq![self.header(16, 0x03, 0), self.header(16, 0x03, 0)]
    }

    /// The packets that ask whether the radio is ready.
    pub open spec fn are_you_ready(self) -> Seq<Seq<u8>> {
        seq![self.header(16, 0x06, 1), self.header(16, 0x06, 1)]
    }

    /// The state after `heard` in phase `phase`: the radio's identifier is learnt from the packet
    /// by which it says that it is there.
    pub open spec fn shaken(self, phase: HandshakePhase, heard: Option<Seq<u8>>) -> StreamView {
        match (phase, heard) {
            (HandshakePhase::Pkt4, Some(r)) => if is_pkt4(r) {
                StreamView {
                    remote_sid: wire::join32(r[8], r[9], r[10], r[11]),
                    got_remote_sid: true,
                    ..self
                }
            } else {
                self
            },
            _ => self,
        }
    }

    /// Why the handshake fails when nothing more comes in phase `phase`.
    pub open spec fn handshake_failure(
        self,
        phase: HandshakePhase,
        heard: Option<Seq<u8>>,
    ) -> Option<Seq<char>> {
        match (phase, heard) {
            (HandshakePhase::Pkt4, None) => Some(
                self.name
                    + "/pkt4 : la radio ne répond pas (vérifier IP / RS-BA1 activé)"@,
            ),
            (HandshakePhase::Pkt6Answer, None) => Some(self.name + "/pkt6 answer"@),
            _ => None,
        }
    }
}

/// Whether `e` is the timeout error with the text `why`, or no error if there is no text.
pub open spec fn is_timeout(e: Option<BridgeError>, why: Option<Seq<char>>) -> bool {
    match e {
        None => why is None,
        Some(BridgeError::Timeout(s)) => why == Some(s@),
        Some(_) => false,
    }
}

impl StreamCommon {
    /// Begins the handshake.
    pub fn handshake(&self) -> (step: HandshakeStep)
        ensures
            step.phase == HandshakePhase::Pkt4,
            wire::contents(step.send@) == self@.are_you_there(),
            step.error is None,
    {
        let p = self.begin(16, 0x03, 0);
        HandshakeStep { phase: HandshakePhase::Pkt4, send: wire::twice(p), error: None }
    }

    /// Goes on with the handshake. Datagrams other than the one waited for are ignored.
    pub fn handshake_next(&mut self, phase: HandshakePhase, heard: &Heard) -> (step: HandshakeStep)
        ensures
            step.phase == next_phase(phase, heard.bytes()),
            wire::contents(step.send@) == (if phase == HandshakePhase::Pkt4 && step.phase
                == HandshakePhase::Pkt6Answer {
                final(self)@.are_you_ready()
            } else {
                Seq::empty()
            }),
            is_timeout(step.error, old(self)@.handshake_failure(phase, heard.bytes())),
            final(self)@ == old(self)@.shaken(phase, heard.bytes()),
            old(self)@.wf() ==> final(self)@.wf(),
    {
        let none: Vec<Vec<u8>> = Vec::new();
        assert(wire::contents(none@) =~= Seq::<Seq<u8>>::empty());
        match (phase, heard) {
            (HandshakePhase::Pkt4, Heard::Datagram(r)) => {
                if Self::pkt4(r.as_slice()) {
                    self.remote_sid = wire::u32_from_be(r[8], r[9], r[10], r[11]);
                    self.got_remote_sid = true;
                    let p = self.begin(16, 0x06, 1);
                    HandshakeStep {
                        phase: HandshakePhase::Pkt6Answer,
                        send: wire::twice(p),
                        error: None,
                    }
                } else {
                    HandshakeStep { phase, send: none, error: None }
                }
            },
            (HandshakePhase::Pkt6Answer, Heard::Datagram(r)) => {
                let next = if Self::pkt6_answer(r.as_slice()) {
                    HandshakePhase::Open
                } else {
                    phase
                };
                HandshakeStep { phase: next, send: none, error: None }
            },
            (HandshakePhase::Pkt4, Heard::Nothing) => {
                let why = self.name.to_owned().concat(
                    "/pkt4 : la radio ne répond pas (vérifier IP / RS-BA1 activé)",
                );
                HandshakeStep {
                    phase: HandshakePhase::Failed,
                    send: none,
                    error: Some(BridgeError::Timeout(why)),
                }
            },
            (HandshakePhase::Pkt6Answer, Heard::Nothing) => {
                let why = self.name.to_owned().concat("/pkt6 answer");
                HandshakeStep {
                    phase: HandshakePhase::Failed,
                    send: none,
                    error: Some(BridgeError::Timeout(why)),
                }
            },
            _ => HandshakeStep { phase, send: none, error: None },
        }
    }

    fn pkt4(r: &[u8]) -> (b: bool)
        ensures
            b == is_pkt4(r@),
    {
        let prefix: [u8; 8] = [0x10, 0x00, 0x00, 0x00, 0x04, 0x00, 0x00, 0x00];
        assert(prefix@ =~= seq![0x10u8, 0, 0, 0, 0x04, 0, 0, 0]);
        Self::expect(16, prefix.as_slice(), r)
    }

    fn pkt6_answer(r: &[u8]) -> (b: bool)
        ensures
            b == is_pkt6_answer(r@),
    {
        let prefix: [u8; 8] = [0x10, 0x00, 0x00, 0x00, 0x06, 0x00, 0x01, 0x00];
        assert(prefix@ =~= seq![0x10u8, 0, 0, 0, 0x06, 0, 0x01, 0]);
        Self::expect(16, prefix.as_slice(), r)
    }
}

/// The phase after the datagrams `heard`, from the beginning of the handshake.
pub open spec fn phase_after(heard: Seq<Seq<u8>>) -> HandshakePhase
    decreases heard.len(),
{
    if heard.len() == 0 {
        HandshakePhase::Pkt4
    } else {
        next_phase(phase_after(heard.drop_last()), Some(heard.last()))
    }
}

/// The handshake opens the stream exactly when the radio has said that it is there and, later, that
/// it is ready, whatever else came in between.
pub proof fn the_handshake_opens_after_both_answers(heard: Seq<Seq<u8>>)
    ensures
        phase_after(heard) == HandshakePhase::Open <==> exists|i: int, j: int|
            0 <= i < j < heard.len() && is_pkt4(#[trigger] heard[i]) && is_pkt6_answer(
                #[trigger] heard[j],
            ),
        phase_after(heard) == HandshakePhase::Pkt4 <==> forall|i: int|
            0 <= i < heard.len() ==> !is_pkt4(#[trigger] heard[i]),
        phase_after(heard) != HandshakePhase::Failed,
    decreases heard.len(),
{
    if heard.len() > 0 {
        let front = heard.drop_last();
        let n = front.len() as int;
        the_handshake_opens_after_both_answers(front);
        assert forall|i: int| 0 <= i < n implies front[i] == #[trigger] heard[i] by {}
        if phase_after(front) == HandshakePhase::Pkt4 {
            assert forall|i: int, j: int| 0 <= i < j < heard.len() implies !(is_pkt4(
                #[trigger] heard[i],
            ) && is_pkt6_answer(#[trigger] heard[j])) by {
                assert(front[i] == heard[i]);
            }
            if !is_pkt4(heard[n]) {
                assert forall|i: int| 0 <= i < heard.len() implies !is_pkt4(
                    #[trigger] heard[i],
                ) by {
                    if i < n {
                        assert(front[i] == heard[i]);
                    }
                }
            }
        } else {
            let k = choose|k: int| 0 <= k < n && is_pkt4(#[trigger] front[k]);
            assert(is_pkt4(heard[k]));
            if phase_after(front) == HandshakePhase::Open {
                let (i, j) = choose|i: int, j: int|
                    0 <= i < j < n && is_pkt4(#[trigger] front[i]) && is_pkt6_answer(
                        #[trigger] front[j],
                    );
                assert(is_pkt4(heard[i]) && is_pkt6_answer(heard[j]));
            } else if is_pkt6_answer(heard[n]) {
                assert(is_pkt4(heard[k]) && is_pkt6_answer(heard[n]));
            } else {
                assert forall|i: int, j: int| 0 <= i < j < heard.len() implies !(is_pkt4(
                    #[trigger] heard[i],
                ) && is_pkt6_answer(#[trigger] heard[j])) by {
                    if j < n {
                        assert(front[i] == heard[i] && front[j] == heard[j]);
                    }
                }
            }
        }
    }
}

proof fn prefix_of_eight(p: Seq<u8>, r: Seq<u8>)
    requires
        p.len() == 8,
        r.len() >= 8,
    ensures
        p.is_prefix_of(r) <==> forall|i: int| 0 <= i < 8 ==> r[i] == #[trigger] p[i],
{
    assert forall|i: int| 0 <= i < 8 implies r[i] == r.take(8)[i] by {}
    if forall|i: int| 0 <= i < 8 ==> r[i] == #[trigger] p[i] {
        assert(r.take(8) =~= p);
    }
}

/// The answers of the radio, byte by byte: at least 16 bytes that begin with
/// `10 00 00 00 04 00 00 00` when it is there, with `10 00 00 00 06 00 01 00` when it is ready.
pub proof fn answers_are_told_apart_by_their_bytes(r: Seq<u8>)
    ensures
        is_pkt4(r) <==> r.len() >= 16 && r[0] == 0x10 && r[1] == 0 && r[2] == 0 && r[3] == 0 && r[4]
            == 4 && r[5] == 0 && r[6] == 0 && r[7] == 0,
        is_pkt6_answer(r) <==> r.len() >= 16 && r[0] == 0x10 && r[1] == 0 && r[2] == 0 && r[3] == 0
            && r[4] == 6 && r[5] == 0 && r[6] == 1 && r[7] == 0,
{
    let here = seq![0x10u8, 0, 0, 0, 0x04, 0, 0, 0];
    let ready = seq![0x10u8, 0, 0, 0, 0x06, 0, 0x01, 0];
    if r.len() >= 16 {
        prefix_of_eight(here, r);
        prefix_of_eight(ready, r);
        if r[0] == 0x10 && r[1] == 0 && r[2] == 0 && r[3] == 0 && r[5] == 0 && r[7] == 0 {
            if r[4] == 4 && r[6] == 0 {
                assert(forall|i: int| 0 <= i < 8 ==> r[i] == #[trigger] here[i]);
            }
            if r[4] == 6 && r[6] == 1 {
                assert(forall|i: int| 0 <= i < 8 ==> r[i] == #[trigger] ready[i]);
            }
        }
        assert(here[0] == 0x10 && here[1] == 0 && here[2] == 0 && here[3] == 0 && here[4] == 4
            && here[5] == 0 && here[6] == 0 && here[7] == 0);
        assert(ready[0] == 0x10 && ready[1] == 0 && ready[2] == 0 && ready[3] == 0 && ready[4] == 6
            && ready[5] == 0 && ready[6] == 1 && ready[7] == 0);
    }
}

/// What goes out: twice a packet of 16 bytes, type 3 and number 0, to ask whether the radio is
/// there; twice one of type 6 and number 1, to ask whether it is ready.
pub proof fn layout_of_the_questions(v: StreamView)
    ensures
        v.are_you_there() == seq![v.header(16, 3, 0), v.header(16, 3, 0)],
        v.are_you_ready() == seq![v.header(16, 6, 1), v.header(16, 6, 1)],
{
}

/// The identifier of the radio is taken from the ninth to the twelfth byte of the packet by which
/// it says that it is there, high byte first; nothing else changes the stream.
pub proof fn the_radio_tells_its_identifier(
    v: StreamView,
    phase: HandshakePhase,
    heard: Option<Seq<u8>>,
)
    ensures
        phase == HandshakePhase::Pkt4 && heard is Some && is_pkt4(heard->0) ==> {
            let r = heard->0;
            let w = v.shaken(phase, heard);
            &&& w.remote_sid == 0x100_0000 * r[8] + 0x1_0000 * r[9] + 0x100 * r[10] + r[11]
            &&& w == (StreamView { remote_sid: w.remote_sid, got_remote_sid: true, ..v })
        },
        !(phase == HandshakePhase::Pkt4 && heard is Some && is_pkt4(heard->0)) ==> v.shaken(
            phase,
            heard,
        ) == v,
{
}

/// The handshake gives up exactly when nothing comes while an answer is waited for, and says which.
pub proof fn silence_ends_the_handshake(v: StreamView, phase: HandshakePhase)
    ensures
        phase == HandshakePhase::Pkt4 || phase == HandshakePhase::Pkt6Answer ==> next_phase(
            phase,
            None,
        ) == HandshakePhase::Failed,
        v.handshake_failure(HandshakePhase::Pkt4, None) == Some(
            v.name + "/pkt4 : la radio ne répond pas (vérifier IP / RS-BA1 activé)"@,
        ),
        v.handshake_failure(HandshakePhase::Pkt6Answer, None) == Some(v.name + "/pkt6 answer"@),
        forall|r: Seq<u8>| #[trigger] v.handshake_failure(phase, Some(r)) is None,
        forall|r: Seq<u8>| #[trigger]
            next_phase(phase, Some(r)) == HandshakePhase::Failed ==> phase
                == HandshakePhase::Failed,
{
}

} // verus!
