//! Setting up the control stream: handshake, login, authentication, and the wait for the serial
//! stream.
//!
//! `connect_control` begins; then each event of the network leads to a step, which says what is to
//! be sent, what is waited for next, and how it ended if it did.

use vstd::prelude::*;

use crate::error::BridgeError;
use crate::rsba1::control;
use crate::rsba1::control::ControlStream;
use crate::rsba1::control::ControlView;
use crate::rsba1::control::AUTH_FIRST;
use crate::rsba1::control::AUTH_RENEW;
use crate::rsba1::control::CONTROL_FIRST_PING;
use crate::rsba1::control::READY_TIMEOUT;
use crate::rsba1::handshake;
use crate::rsba1::handshake::HandshakePhase;
use crate::rsba1::handshake::Heard;
use crate::rsba1::owner::token_of;
use crate::rsba1::random::random_byte;
use crate::rsba1::stream;
use crate::rsba1::stream::StreamCommon;
use crate::rsba1::stream::EXPECT_TIMEOUT;
use crate::rsba1::wire;

verus! {

/// How long the answer to the login is waited for: 2 s.
pub const LOGIN_TIMEOUT: u64 = 2_000_000_000;

/// What the setup of the control stream waits for.
#[derive(Clone, Copy, PartialEq, Eq, Structural, Debug)]
pub enum SetupPhase {
    /// A datagram of the handshake.
    Handshake(HandshakePhase),
    /// The answer to the login.
    Login,
    /// The outcome told by the owner of the control stream.
    Ready,
    /// Nothing: it is over.
    Done,
}

/// What happens during the setup.
pub enum SetupEvent {
    /// What came of waiting for a datagram.
    Heard(Heard),
    /// The owner of the control stream tells the outcome.
    Signal(Result<(), BridgeError>),
    /// The owner is gone without telling it.
    SignalLost,
    /// It was not told in time.
    SignalTimeout,
}

/// A step of the setup.
pub struct SetupStep {
    pub phase: SetupPhase,
    /// Datagrams to send, in this order.
    pub send: Vec<Vec<u8>>,
    /// The background loops are to be started now, before anything is sent.
    pub start_loops: bool,
    /// How the setup ended, once it has.
    pub outcome: Option<Result<(), BridgeError>>,
}

/// Whether `r` answers the login.
pub open spec fn is_login_answer(r: Seq<u8>) -> bool {
    stream::is_expected(96, seq![0x60u8, 0, 0, 0, 0, 0], r)
}

/// Whether the answer `r` refuses the credentials.
pub open spec fn refuses_credentials(r: Seq<u8>) -> bool {
    r[48] == 0xff && r[49] == 0xff && r[50] == 0xff && r[51] == 0xfe
}

impl ControlView {
    /// The state once the handshake has heard `heard` in phase `phase`.
    pub open spec fn shaken(self, phase: HandshakePhase, heard: Option<Seq<u8>>) -> ControlView {
        ControlView { common: self.common.shaken(phase, heard), ..self }
    }

    /// The state with the token of the login answer `r`, about to send its first ping.
    pub open spec fn admitted(self, r: Seq<u8>) -> ControlView {
        ControlView {
            common: self.common.pinging_from(CONTROL_FIRST_PING),
            auth_id: r.subrange(26, 32),
            ..self
        }
    }
}

/// Whether a step changes nothing and sends nothing.
pub open spec fn is_idle_step(
    before: ControlView,
    after: ControlView,
    phase: SetupPhase,
    step: SetupStep,
) -> bool {
    &&& after == before
    &&& step.phase == phase
    &&& step.send@.len() == 0
    &&& !step.start_loops
    &&& step.outcome is None
}

/// Whether a step ends the setup with `step.outcome`, having sent the datagrams `sent`.
pub open spec fn is_last_step(step: SetupStep, sent: Seq<Seq<u8>>) -> bool {
    &&& step.phase == SetupPhase::Done
    &&& wire::contents(step.send@) == sent
    &&& !step.start_loops
}

/// Whether `outcome` is a timeout with the text `why`, or nothing if there is no text.
pub open spec fn is_failure(
    outcome: Option<Result<(), BridgeError>>,
    why: Option<Seq<char>>,
) -> bool {
    match outcome {
        None => why is None,
        Some(Ok(_)) => false,
        Some(Err(e)) => handshake::is_timeout(Some(e), why),
    }
}

/// Whether `step` is the step of the handshake in phase `phase` that follows `heard`. When the
/// handshake opens the stream, the login goes out.
pub open spec fn is_handshake_step(
    before: ControlView,
    after: ControlView,
    phase: HandshakePhase,
    heard: Option<Seq<u8>>,
    start_id: Seq<u8>,
    now: u64,
    step: SetupStep,
) -> bool {
    let next = handshake::next_phase(phase, heard);
    let shaken = before.shaken(phase, heard);
    if next == HandshakePhase::Open {
        &&& step.phase == SetupPhase::Login
        &&& wire::contents(step.send@) == seq![shaken.common.stamp(shaken.login(start_id))]
        &&& !step.start_loops
        &&& step.outcome is None
        &&& after == shaken.sent(shaken.login(start_id), now)
    } else if next == HandshakePhase::Failed {
        &&& is_last_step(step, Seq::empty())
        &&& is_failure(step.outcome, before.common.handshake_failure(phase, heard))
        &&& after == shaken
    } else {
        &&& step.phase == SetupPhase::Handshake(next)
        &&& wire::contents(step.send@) == (if phase == HandshakePhase::Pkt4 && next
            == HandshakePhase::Pkt6Answer {
            shaken.common.are_you_ready()
        } else {
            Seq::empty()
        })
        &&& !step.start_loops
        &&& step.outcome is None
        &&& after == shaken
    }
}

/// Whether `step` follows `heard` while the answer to the login is waited for.
///
/// Refused credentials give the session back to the radio: the stream is closed. Accepted ones lead
/// to the two authentication packets.
pub open spec fn is_login_step(
    before: ControlView,
    after: ControlView,
    heard: Option<Seq<u8>>,
    now: u64,
    step: SetupStep,
) -> bool {
    match heard {
        None => {
            &&& is_last_step(step, Seq::empty())
            &&& step.outcome matches Some(Err(BridgeError::Timeout(why)))
            &&& why@ == "réponse de login"@
            &&& after == before
        },
        Some(r) => if !is_login_answer(r) {
            is_idle_step(before, after, SetupPhase::Login, step)
        } else if refuses_credentials(r) {
            &&& is_last_step(step, before.common.farewell())
            &&& step.outcome matches Some(Err(BridgeError::InvalidCredentials))
            &&& after == before
        } else {
            let admitted = before.admitted(r);
            let first = admitted.sent(admitted.auth(AUTH_FIRST), now);
            &&& step.phase == SetupPhase::Ready
            &&& wire::contents(step.send@) == seq![
                admitted.common.stamp(admitted.auth(AUTH_FIRST)),
                first.common.stamp(first.auth(AUTH_RENEW)),
            ]
            &&& step.start_loops
            &&& step.outcome is None
            &&& after == first.sent(first.auth(AUTH_RENEW), now)
        },
    }
}

/// Whether `step` is the step of the setup in phase `phase` that follows `event`.
pub open spec fn is_setup_step(
    before: ControlView,
    after: ControlView,
    phase: SetupPhase,
    event: SetupEvent,
    start_id: Seq<u8>,
    now: u64,
    step: SetupStep,
) -> bool {
    match (phase, event) {
        (SetupPhase::Handshake(p), SetupEvent::Heard(h)) => is_handshake_step(
            before,
            after,
            p,
            h.bytes(),
            start_id,
            now,
            step,
        ),
        (SetupPhase::Login, SetupEvent::Heard(h)) => is_login_step(
            before,
            after,
            h.bytes(),
            now,
            step,
        ),
        (SetupPhase::Ready, SetupEvent::Signal(s)) => {
            is_last_step(step, Seq::empty()) && step.outcome == Some(s) && after == before
        },
        (SetupPhase::Ready, SetupEvent::SignalLost) => {
            &&& is_last_step(step, Seq::empty())
            &&& step.outcome matches Some(Err(BridgeError::Protocol(why)))
            &&& why@ == "canal de disponibilité fermé"@
            &&& after == before
        },
        (SetupPhase::Ready, SetupEvent::SignalTimeout) => {
            &&& is_last_step(step, Seq::empty())
            &&& step.outcome matches Some(Err(BridgeError::Timeout(why)))
            &&& why@ == "ouverture du stream serial+audio (la radio n'a pas confirmé)"@
            &&& after == before
        },
        _ => is_idle_step(before, after, phase, step),
    }
}

fn login_answer(r: &[u8]) -> (b: bool)
    ensures
        b == is_login_answer(r@),
{
    let prefix: [u8; 6] = [0x60, 0x00, 0x00, 0x00, 0x00, 0x00];
    assert(prefix@ =~= seq![0x60u8, 0, 0, 0, 0, 0]);
    StreamCommon::expect(96, prefix.as_slice(), r)
}

fn no_datagrams() -> (list: Vec<Vec<u8>>)
    ensures
        list@.len() == 0,
        wire::contents(list@) == Seq::<Seq<u8>>::empty(),
{
    let list: Vec<Vec<u8>> = Vec::new();
    assert(wire::contents(list@) =~= Seq::<Seq<u8>>::empty());
    list
}

fn idle_step(phase: SetupPhase) -> (step: SetupStep)
    ensures
        step.phase == phase,
        step.send@.len() == 0,
        wire::contents(step.send@) == Seq::<Seq<u8>>::empty(),
        !step.start_loops,
        step.outcome is None,
{
    SetupStep { phase, send: no_datagrams(), start_loops: false, outcome: None }
}

fn last_step(send: Vec<Vec<u8>>, outcome: Option<Result<(), BridgeError>>) -> (step: SetupStep)
    ensures
        is_last_step(step, wire::contents(send@)),
        step.outcome == outcome,
{
    SetupStep { phase: SetupPhase::Done, send, start_loops: false, outcome }
}

/// How long the next event is waited for in phase `phase`; 0 when nothing is waited for.
pub open spec fn patience_of(phase: SetupPhase) -> u64 {
    match phase {
        SetupPhase::Handshake(p) => if p == HandshakePhase::Pkt4 || p
            == HandshakePhase::Pkt6Answer {
            EXPECT_TIMEOUT
        } else {
            0
        },
        SetupPhase::Login => LOGIN_TIMEOUT,
        SetupPhase::Ready => READY_TIMEOUT,
        SetupPhase::Done => 0,
    }
}

/// How long the next event is waited for, counted from the beginning of the phase.
pub fn patience(phase: SetupPhase) -> (limit: u64)
    ensures
        limit == patience_of(phase),
{
    match phase {
        SetupPhase::Handshake(HandshakePhase::Pkt4) => EXPECT_TIMEOUT,
        SetupPhase::Handshake(HandshakePhase::Pkt6Answer) => EXPECT_TIMEOUT,
        SetupPhase::Handshake(_) => 0,
        SetupPhase::Login => LOGIN_TIMEOUT,
        SetupPhase::Ready => READY_TIMEOUT,
        SetupPhase::Done => 0,
    }
}

/// Begins the setup of a control stream on `common`: the credentials are kept and the handshake
/// goes out.
pub fn connect_control(common: StreamCommon, username: &str, password: &str) -> (r: (
    ControlStream,
    SetupStep,
))
    ensures
        r.0@ == ControlView::created(common@, username@, password@),
        r.1.phase == SetupPhase::Handshake(HandshakePhase::Pkt4),
        wire::contents(r.1.send@) == common@.are_you_there(),
        !r.1.start_loops,
        r.1.outcome is None,
{
    let first = common.handshake();
    let control = ControlStream::new(common, username, password);
    let step = SetupStep {
        phase: SetupPhase::Handshake(first.phase),
        send: first.send,
        start_loops: false,
        outcome: None,
    };
    (control, step)
}

impl ControlStream {
    /// The step of the handshake in phase `phase` that follows `heard`.
    fn setup_handshake(
        &mut self,
        phase: HandshakePhase,
        heard: &Heard,
        start_id: [u8; 2],
        now: u64,
    ) -> (step: SetupStep)
        ensures
            is_handshake_step(
                old(self)@,
                final(self)@,
                phase,
                heard.bytes(),
                start_id@,
                now,
                step,
            ),
            old(self)@.wf() ==> final(self)@.wf(),
    {
        let ghost before = self@;
        let hs = self.common.handshake_next(phase, heard);
        assert(self@ =~= before.shaken(phase, heard.bytes()));
        match hs.phase {
            HandshakePhase::Open => {
                let out = self.login_with(start_id, now);
                let mut send = no_datagrams();
                send.push(out);
                assert(wire::contents(send@) =~= seq![out@]);
                SetupStep { phase: SetupPhase::Login, send, start_loops: false, outcome: None }
            },
            HandshakePhase::Failed => {
                match hs.error {
                    Some(e) => last_step(no_datagrams(), Some(Err(e))),
                    None => last_step(no_datagrams(), None),
                }
            },
            next => SetupStep {
                phase: SetupPhase::Handshake(next),
                send: hs.send,
                start_loops: false,
                outcome: None,
            },
        }
    }

    /// The step that follows `heard` while the answer to the login is waited for.
    fn setup_login(&mut self, heard: &Heard, now: u64) -> (step: SetupStep)
        ensures
            is_login_step(old(self)@, final(self)@, heard.bytes(), now, step),
            old(self)@.wf() ==> final(self)@.wf(),
    {
        let ghost before = self@;
        let r = match heard {
            Heard::Nothing => {
                let why = BridgeError::Timeout("réponse de login".to_owned());
                return last_step(no_datagrams(), Some(Err(why)));
            },
            Heard::Datagram(r) => r,
        };
        if !login_answer(r.as_slice()) {
            return idle_step(SetupPhase::Login);
        }
        if r[48] == 0xff && r[49] == 0xff && r[50] == 0xff && r[51] == 0xfe {
            let send = self.common.send_disconnect();
            return last_step(send, Some(Err(BridgeError::InvalidCredentials)));
        }
        self.auth_id = token_of(r.as_slice());
        self.common.start_pkt7(CONTROL_FIRST_PING);
        assert(self@ =~= before.admitted(r@));
        let first = self.send_auth(AUTH_FIRST, now);
        let second = self.send_auth(AUTH_RENEW, now);
        let mut send = no_datagrams();
        send.push(first);
        send.push(second);
        assert(wire::contents(send@) =~= seq![first@, second@]);
        SetupStep { phase: SetupPhase::Ready, send, start_loops: true, outcome: None }
    }

    /// Goes on with the setup. `start_id` is the unpredictable identifier of the login packet.
    pub fn setup_with(
        &mut self,
        phase: SetupPhase,
        event: SetupEvent,
        start_id: [u8; 2],
        now: u64,
    ) -> (step: SetupStep)
        ensures
            is_setup_step(old(self)@, final(self)@, phase, event, start_id@, now, step),
            old(self)@.wf() ==> final(self)@.wf(),
    {
        match (phase, event) {
            (SetupPhase::Handshake(p), SetupEvent::Heard(h)) => self.setup_handshake(
                p,
                &h,
                start_id,
                now,
            ),
            (SetupPhase::Login, SetupEvent::Heard(h)) => self.setup_login(&h, now),
            (SetupPhase::Ready, SetupEvent::Signal(s)) => last_step(no_datagrams(), Some(s)),
            (SetupPhase::Ready, SetupEvent::SignalLost) => {
                let why = BridgeError::Protocol("canal de disponibilité fermé".to_owned());
                last_step(no_datagrams(), Some(Err(why)))
            },
            (SetupPhase::Ready, SetupEvent::SignalTimeout) => {
                let why = BridgeError::Timeout(
                    "ouverture du stream serial+audio (la radio n'a pas confirmé)".to_owned(),
                );
                last_step(no_datagrams(), Some(Err(why)))
            },
            _ => idle_step(phase),
        }
    }

    /// Goes on with the setup.
    pub fn setup_next(&mut self, phase: SetupPhase, event: SetupEvent, now: u64) -> (step: SetupStep)
        ensures
            exists|start_id: Seq<u8>| #[trigger]
                is_setup_step(old(self)@, final(self)@, phase, event, start_id, now, step)
                    && start_id.len() == 2,
            old(self)@.wf() ==> final(self)@.wf(),
    {
        let start_id: [u8; 2] = [random_byte(), random_byte()];
        self.setup_with(phase, event, start_id, now)
    }
}

/// Refused credentials give the session back to the radio: the setup ends with that error and with
/// the two packets that close the control stream, and no background loop is started.
pub proof fn refused_credentials_release_the_session(
    before: ControlView,
    after: ControlView,
    event: SetupEvent,
    start_id: Seq<u8>,
    now: u64,
    step: SetupStep,
)
    requires
        event matches SetupEvent::Heard(Heard::Datagram(r)) && is_login_answer(r@)
            && refuses_credentials(r@),
        is_setup_step(before, after, SetupPhase::Login, event, start_id, now, step),
    ensures
        step.outcome == Some(Err::<(), BridgeError>(BridgeError::InvalidCredentials)),
        wire::contents(step.send@).len() == 2,
        wire::contents(step.send@)[0] == before.common.header(16, 0x05, 0),
        wire::contents(step.send@)[1] == before.common.header(16, 0x05, 0),
        !step.start_loops,
{
}

/// The phase that follows `phase` once `event` has happened.
pub open spec fn phase_next(phase: SetupPhase, event: SetupEvent) -> SetupPhase {
    match (phase, event) {
        (SetupPhase::Handshake(p), SetupEvent::Heard(h)) => match handshake::next_phase(
            p,
            h.bytes(),
        ) {
            HandshakePhase::Open => SetupPhase::Login,
            HandshakePhase::Failed => SetupPhase::Done,
            next => SetupPhase::Handshake(next),
        },
        (SetupPhase::Login, SetupEvent::Heard(h)) => match h.bytes() {
            None => SetupPhase::Done,
            Some(r) => if !is_login_answer(r) {
                SetupPhase::Login
            } else if refuses_credentials(r) {
                SetupPhase::Done
            } else {
                SetupPhase::Ready
            },
        },
        (SetupPhase::Ready, SetupEvent::Heard(_)) => SetupPhase::Ready,
        (SetupPhase::Ready, _) => SetupPhase::Done,
        _ => phase,
    }
}

/// Each step of the setup leads to the phase that follows, and it says that the setup succeeded
/// only when the owner of the control stream has told so in the last phase.
pub proof fn success_is_told_by_the_owner(
    before: ControlView,
    after: ControlView,
    phase: SetupPhase,
    event: SetupEvent,
    start_id: Seq<u8>,
    now: u64,
    step: SetupStep,
)
    requires
        is_setup_step(before, after, phase, event, start_id, now, step),
    ensures
        step.phase == phase_next(phase, event),
        step.outcome matches Some(Ok(_)) ==> phase == SetupPhase::Ready && (
        event matches SetupEvent::Signal(Ok(_))),
        step.start_loops ==> phase == SetupPhase::Login && step.phase == SetupPhase::Ready,
{
}

/// The phase after the events `events`, from the beginning of the setup.
pub open spec fn phase_after(events: Seq<SetupEvent>) -> SetupPhase
    decreases events.len(),
{
    if events.len() == 0 {
        SetupPhase::Handshake(HandshakePhase::Pkt4)
    } else {
        phase_next(phase_after(events.drop_last()), events.last())
    }
}

/// Whether the event `e` is the datagram by which the radio says that it is there.
pub open spec fn tells_presence(e: SetupEvent) -> bool {
    e matches SetupEvent::Heard(Heard::Datagram(r)) && handshake::is_pkt4(r@)
}

/// Whether the event `e` is the datagram by which the radio says that it is ready.
pub open spec fn tells_readiness(e: SetupEvent) -> bool {
    e matches SetupEvent::Heard(Heard::Datagram(r)) && handshake::is_pkt6_answer(r@)
}

/// Whether the event `e` is the datagram by which the radio accepts the credentials.
pub open spec fn accepts_login(e: SetupEvent) -> bool {
    e matches SetupEvent::Heard(Heard::Datagram(r)) && is_login_answer(r@)
        && !refuses_credentials(r@)
}

/// The answers of the radio come in order: the setup waits for the login only after the radio has
/// said that it is there and, later, that it is ready; it waits for the serial stream only after
/// the radio has, later still, accepted the credentials.
pub proof fn the_setup_goes_through_every_answer(events: Seq<SetupEvent>)
    ensures
        phase_after(events) == SetupPhase::Handshake(HandshakePhase::Pkt6Answer) ==> exists|i: int|
            0 <= i < events.len() && tells_presence(#[trigger] events[i]),
        phase_after(events) == SetupPhase::Login ==> exists|i: int, j: int|
            0 <= i < j < events.len() && tells_presence(#[trigger] events[i]) && tells_readiness(
                #[trigger] events[j],
            ),
        phase_after(events) == SetupPhase::Ready ==> exists|i: int, j: int, k: int|
            0 <= i < j < k < events.len() && tells_presence(#[trigger] events[i])
                && tells_readiness(#[trigger] events[j]) && accepts_login(#[trigger] events[k]),
        phase_after(events) matches SetupPhase::Handshake(p) ==> p == HandshakePhase::Pkt4 || p
            == HandshakePhase::Pkt6Answer,
    decreases events.len(),
{
    if events.len() > 0 {
        let front = events.drop_last();
        let n = front.len() as int;
        the_setup_goes_through_every_answer(front);
        match phase_after(front) {
            SetupPhase::Handshake(HandshakePhase::Pkt4) => {
                if phase_after(events) == SetupPhase::Handshake(HandshakePhase::Pkt6Answer) {
                    assert(tells_presence(events[n]));
                }
            },
            SetupPhase::Handshake(HandshakePhase::Pkt6Answer) => {
                let i = choose|i: int| 0 <= i < n && tells_presence(#[trigger] front[i]);
                assert(tells_presence(events[i]));
                if phase_after(events) == SetupPhase::Login {
                    assert(tells_readiness(events[n]));
                }
            },
            SetupPhase::Login => {
                let (i, j) = choose|i: int, j: int|
                    0 <= i < j < n && tells_presence(#[trigger] front[i]) && tells_readiness(
                        #[trigger] front[j],
                    );
                assert(tells_presence(events[i]) && tells_readiness(events[j]));
                if phase_after(events) == SetupPhase::Ready {
                    assert(accepts_login(events[n]));
                }
            },
            SetupPhase::Ready => {
                let (i, j, k) = choose|i: int, j: int, k: int|
                    0 <= i < j < k < n && tells_presence(#[trigger] front[i]) && tells_readiness(
                        #[trigger] front[j],
                    ) && accepts_login(#[trigger] front[k]);
                assert(tells_presence(events[i]) && tells_readiness(events[j]) && accepts_login(
                    events[k],
                ));
            },
            _ => {},
        }
    }
}

/// The answer to the login, by its bytes: at least 96 of them, that begin with `60 00 00 00 00 00`;
/// it refuses the credentials with `FF FF FF FE` at offset 48.
pub proof fn login_answers_are_told_by_their_bytes(r: Seq<u8>)
    ensures
        is_login_answer(r) <==> r.len() >= 96 && r[0] == 0x60 && r[1] == 0 && r[2] == 0 && r[3] == 0
            && r[4] == 0 && r[5] == 0,
        refuses_credentials(r) <==> r[48] == 0xff && r[49] == 0xff && r[50] == 0xff && r[51]
            == 0xfe,
{
    let p = seq![0x60u8, 0, 0, 0, 0, 0];
    if r.len() >= 96 {
        let t = r.take(6);
        assert(r[0] == t[0] && r[1] == t[1] && r[2] == t[2] && r[3] == t[3] && r[4] == t[4] && r[5]
            == t[5]);
        if r[0] == 0x60 && r[1] == 0 && r[2] == 0 && r[3] == 0 && r[4] == 0 && r[5] == 0 {
            assert(t =~= p);
        }
    }
}

/// Whether `p` is the authentication packet with the number `seq` and the byte `magic`, the inner
/// counter `inner` and the token `token`, by its bytes.
pub open spec fn is_authentication(
    p: Seq<u8>,
    seq: int,
    magic: u8,
    inner: int,
    token: Seq<u8>,
) -> bool {
    &&& p.len() == 64
    &&& p[0] == 64 && p[1] == 0 && p[2] == 0 && p[3] == 0 && p[4] == 0 && p[5] == 0
    &&& p[6] + 256 * p[7] == seq
    &&& p[21] == magic
    &&& p[23] + 256 * p[24] == inner
    &&& p.subrange(26, 32) == token
}

proof fn stamped_authentication(v: ControlView, magic: u8)
    requires
        v.auth_id.len() == 6,
    ensures
        is_authentication(
            v.common.stamp(v.auth(magic)),
            v.common.pkt0.send_seq as int,
            magic,
            v.auth_inner_seq as int,
            v.auth_id,
        ),
{
    let p = v.auth(magic);
    control::bytes_of_the_authentication_packet(v, magic, 0);
    control::layout_of_the_authentication_packet(v, magic);
    stream::layout_of_the_header(v.common, 64, 0, 0);
    let h = p.take(16);
    assert(p[0] == h[0] && p[1] == h[1] && p[2] == h[2] && p[3] == h[3] && p[4] == h[4] && p[5]
        == h[5]);
    assert(h[0] + 0x100 * h[1] + 0x1_0000 * h[2] + 0x100_0000 * h[3] == 64);
    let q = v.common.stamp(p);
    assert(q.subrange(26, 32) =~= p.subrange(26, 32));
}

/// Once the radio has accepted the credentials, two authentication packets go out: the first asks
/// for a token (2 at offset 21), the second renews it (5). Both hold the token of the answer, and
/// take the next two numbers and the next two values of the inner counter.
pub proof fn accepted_credentials_are_authenticated(
    before: ControlView,
    after: ControlView,
    event: SetupEvent,
    start_id: Seq<u8>,
    now: u64,
    step: SetupStep,
)
    requires
        event matches SetupEvent::Heard(Heard::Datagram(r)) && r@.len() >= 96 && r@[0] == 0x60
            && r@[1] == 0 && r@[2] == 0 && r@[3] == 0 && r@[4] == 0 && r@[5] == 0 && !(r@[48]
            == 0xff && r@[49] == 0xff && r@[50] == 0xff && r@[51] == 0xfe),
        is_setup_step(before, after, SetupPhase::Login, event, start_id, now, step),
    ensures
        event matches SetupEvent::Heard(Heard::Datagram(r)) && {
            let token = r@.subrange(26, 32);
            let (n, k) = (before.common.pkt0.send_seq as int, before.auth_inner_seq as int);
            &&& step.send@.len() == 2
            &&& is_authentication(step.send@[0]@, n, 2, k, token)
            &&& is_authentication(step.send@[1]@, (n + 1) % 65536, 5, (k + 1) % 65536, token)
            &&& step.phase == SetupPhase::Ready
            &&& step.start_loops
            &&& step.outcome is None
            &&& after.auth_id == token
            &&& after.auth_inner_seq == (k + 2) % 65536
            &&& after.common.pkt0.send_seq == (n + 2) % 65536
            &&& after.common.pkt7.send_seq == 2
            &&& after.common.pkt7.inner_seq == before.common.pkt7.inner_seq
            &&& after.common.local_sid == before.common.local_sid
            &&& after.common.remote_sid == before.common.remote_sid
            &&& after.common.rx == before.common.rx
            &&& after.common.last_rx_at == before.common.last_rx_at
            &&& after.username == before.username
            &&& after.password == before.password
        },
{
    if let SetupEvent::Heard(Heard::Datagram(r)) = event {
        login_answers_are_told_by_their_bytes(r@);
        let admitted = before.admitted(r@);
        let first = admitted.sent(admitted.auth(2), now);
        stamped_authentication(admitted, 2);
        stamped_authentication(first, 5);
        assert(wire::contents(step.send@).len() == step.send@.len());
        assert(step.send@[0]@ == wire::contents(step.send@)[0]);
        assert(step.send@[1]@ == wire::contents(step.send@)[1]);
    }
}

/// When the handshake opens the stream, the login goes out, alone: 128 bytes under the next number,
/// with the identifier `start_id`, the user name and the password.
pub proof fn the_login_follows_the_handshake(
    before: ControlView,
    after: ControlView,
    event: SetupEvent,
    start_id: Seq<u8>,
    now: u64,
    step: SetupStep,
)
    requires
        start_id.len() == 2,
        event matches SetupEvent::Heard(Heard::Datagram(r)) && handshake::is_pkt6_answer(r@),
        is_setup_step(
            before,
            after,
            SetupPhase::Handshake(HandshakePhase::Pkt6Answer),
            event,
            start_id,
            now,
            step,
        ),
    ensures
        step.phase == SetupPhase::Login,
        step.send@.len() == 1,
        step.outcome is None,
        !step.start_loops,
        ({
            let p = step.send@[0]@;
            &&& p.len() == 128
            &&& p[0] == 128
            &&& p[6] + 256 * p[7] == before.common.pkt0.send_seq
            &&& p[19] == 0x70
            &&& p.subrange(26, 28) == start_id
            &&& p.subrange(64, 80) == control::passcode_of(before.username)
            &&& p.subrange(80, 96) == control::passcode_of(before.password)
        }),
        after.common.pkt0.send_seq == (before.common.pkt0.send_seq + 1) % 65536,
{
    control::bytes_of_the_login_packet(before, start_id, 0);
    control::layout_of_the_login_packet(before, start_id);
    stream::layout_of_the_header(before.common, 128, 0, 0);
    let p = before.login(start_id);
    let q = step.send@[0]@;
    assert(wire::contents(step.send@).len() == step.send@.len());
    assert(q == wire::contents(step.send@)[0]);
    assert(q == before.common.stamp(p));
    assert(p[0] == p.take(16)[0]);
    let h = before.common.header(128, 0, 0);
    assert(h[0] + 0x100 * h[1] + 0x1_0000 * h[2] + 0x100_0000 * h[3] == 128);
    assert(q.subrange(26, 28) =~= p.subrange(26, 28));
    assert(q.subrange(64, 80) =~= p.subrange(64, 80));
    assert(q.subrange(80, 96) =~= p.subrange(80, 96));
}

/// Once the radio has said that it is there, it is asked whether it is ready, with its identifier
/// in the header; no login goes out yet.
pub proof fn readiness_is_asked_for_first(
    before: ControlView,
    after: ControlView,
    event: SetupEvent,
    start_id: Seq<u8>,
    now: u64,
    step: SetupStep,
)
    requires
        event matches SetupEvent::Heard(Heard::Datagram(r)) && handshake::is_pkt4(r@),
        is_setup_step(
            before,
            after,
            SetupPhase::Handshake(HandshakePhase::Pkt4),
            event,
            start_id,
            now,
            step,
        ),
    ensures
        step.phase == SetupPhase::Handshake(HandshakePhase::Pkt6Answer),
        wire::contents(step.send@) == seq![
            after.common.header(16, 6, 1),
            after.common.header(16, 6, 1),
        ],
        event matches SetupEvent::Heard(Heard::Datagram(r)) && after.common.remote_sid
            == 0x100_0000 * r@[8] + 0x1_0000 * r@[9] + 0x100 * r@[10] + r@[11],
        after.common.local_sid == before.common.local_sid,
        after.common.pkt0 == before.common.pkt0,
        step.outcome is None,
{
}

/// A datagram that is not the answer waited for changes nothing: nothing is sent, and the same
/// answer is waited for.
pub proof fn other_datagrams_are_ignored(
    before: ControlView,
    after: ControlView,
    phase: SetupPhase,
    event: SetupEvent,
    start_id: Seq<u8>,
    now: u64,
    step: SetupStep,
)
    requires
        event matches SetupEvent::Heard(Heard::Datagram(r)) && match phase {
            SetupPhase::Handshake(HandshakePhase::Pkt4) => !handshake::is_pkt4(r@),
            SetupPhase::Handshake(HandshakePhase::Pkt6Answer) => !handshake::is_pkt6_answer(r@),
            SetupPhase::Handshake(_) => false,
            SetupPhase::Login => !is_login_answer(r@),
            SetupPhase::Ready => true,
            SetupPhase::Done => true,
        },
        is_setup_step(before, after, phase, event, start_id, now, step),
    ensures
        after == before,
        step.phase == phase,
        step.send@.len() == 0,
        !step.start_loops,
        step.outcome is None,
{
    assert(wire::contents(step.send@).len() == step.send@.len());
}

/// What the owner tells in the last phase is how the setup ends; silence, and the loss of the
/// owner, end it with an error. Nothing is sent, and nothing changes.
pub proof fn the_setup_ends_with_what_is_told(
    before: ControlView,
    after: ControlView,
    event: SetupEvent,
    start_id: Seq<u8>,
    now: u64,
    step: SetupStep,
)
    requires
        !(event is Heard),
        is_setup_step(before, after, SetupPhase::Ready, event, start_id, now, step),
    ensures
        step.phase == SetupPhase::Done,
        step.send@.len() == 0,
        after == before,
        event matches SetupEvent::Signal(s) ==> step.outcome == Some(s),
        event is SignalLost ==> (step.outcome matches Some(Err(BridgeError::Protocol(why))) && why@
            == "canal de disponibilité fermé"@),
        event is SignalTimeout ==> (step.outcome matches Some(Err(BridgeError::Timeout(why)))
            && why@ == "ouverture du stream serial+audio (la radio n'a pas confirmé)"@),
{
    assert(wire::contents(step.send@).len() == step.send@.len());
}

/// How long each answer is waited for: two seconds during the handshake and for the login, eight
/// for the serial stream.
pub proof fn patience_in_each_phase()
    ensures
        patience_of(SetupPhase::Handshake(HandshakePhase::Pkt4)) == 2_000_000_000,
        patience_of(SetupPhase::Handshake(HandshakePhase::Pkt6Answer)) == 2_000_000_000,
        patience_of(SetupPhase::Login) == 2_000_000_000,
        patience_of(SetupPhase::Ready) == 8_000_000_000,
        patience_of(SetupPhase::Done) == 0,
{
}

/// Silence while an answer is waited for ends the setup with a timeout that says which answer did
/// not come; nothing is sent, and nothing changes.
pub proof fn silence_ends_the_setup(
    before: ControlView,
    after: ControlView,
    phase: SetupPhase,
    start_id: Seq<u8>,
    now: u64,
    step: SetupStep,
)
    requires
        phase == SetupPhase::Handshake(HandshakePhase::Pkt4) || phase == SetupPhase::Handshake(
            HandshakePhase::Pkt6Answer,
        ) || phase == SetupPhase::Login,
        is_setup_step(
            before,
            after,
            phase,
            SetupEvent::Heard(Heard::Nothing),
            start_id,
            now,
            step,
        ),
    ensures
        after == before,
        step.phase == SetupPhase::Done,
        step.send@.len() == 0,
        !step.start_loops,
        step.outcome matches Some(Err(BridgeError::Timeout(why))) && why@ == (match phase {
            SetupPhase::Login => "réponse de login"@,
            SetupPhase::Handshake(HandshakePhase::Pkt4) => before.common.name
                + "/pkt4 : la radio ne répond pas (vérifier IP / RS-BA1 activé)"@,
            _ => before.common.name + "/pkt6 answer"@,
        }),
{
    assert(wire::contents(step.send@).len() == step.send@.len());
}

} // verus!
