//! A session with the radio: the control stream and the serial stream together, CI-V requests with
//! their responses, the watch over the link, and the end of the session.
//!
//! Times are nanoseconds on the caller's monotonic clock.

use vstd::prelude::*;

use crate::error::BridgeError;
use crate::rsba1::control;
use crate::rsba1::control::ControlStream;
use crate::rsba1::control::ControlView;
use crate::rsba1::control::AUTH_END;
use crate::rsba1::serial;
use crate::rsba1::serial::SerialStream;
use crate::rsba1::serial::SerialView;
use crate::rsba1::stream::StreamCommon;
use crate::rsba1::stream::StreamView;
use crate::rsba1::wire;
use crate::util;
use crate::util::to_hex;

verus! {

/// How many received frames are kept for a slow consumer.
pub const CIV_CHANNEL_CAP: usize = 256;

/// How long the first frame of a response is waited for: 1.2 s.
pub const RESP_FIRST_TIMEOUT: u64 = 1_200_000_000;

/// A silence of this length ends a response: 200 ms.
pub const RESP_IDLE_GAP: u64 = 200_000_000;

/// A response is not gathered for longer than this, even if the radio never falls silent: 1.5 s.
pub const RESP_MAX_WINDOW: u64 = 1_500_000_000;

/// When both streams have been silent for longer than this, the link is lost: 10 s, which is more
/// than three pings without an answer.
pub const LINK_TIMEOUT: u64 = 10_000_000_000;

/// Interval between two checks of the link: 1 s.
pub const LINK_CHECK_INTERVAL: u64 = 1_000_000_000;

/// How long the radio is given between the end of the authentication and the disconnection: 500 ms.
pub const DISCONNECT_WAIT: u64 = 500_000_000;

/// State of the connection, as shown to the user.
#[derive(Clone, Copy, PartialEq, Eq, Structural, Debug)]
pub enum ConnState {
    Disconnected,
    Connecting,
    Authenticated,
    CivReady,
    Error,
}

/// Whether the first data byte of `command` names a sub-command.
pub open spec fn has_subcommand(command: u8) -> bool {
    ||| command == 0x14
    ||| command == 0x15
    ||| command == 0x16
    ||| command == 0x1a
    ||| command == 0x1b
    ||| command == 0x1c
    ||| command == 0x21
    ||| command == 0x25
    ||| command == 0x26
    ||| command == 0x27
}

/// Whether the first data byte of `command` names a sub-command.
pub fn command_has_subcommand(command: u8) -> (b: bool)
    ensures
        b == has_subcommand(command),
{
    command == 0x14 || command == 0x15 || command == 0x16 || command == 0x1a || command == 0x1b
        || command == 0x1c || command == 0x21 || command == 0x25 || command == 0x26 || command
        == 0x27
}

/// Whether `f` is a standard CI-V frame: `FE FE to from command … FD`.
pub open spec fn is_standard(f: Seq<u8>) -> bool {
    f.len() >= 6 && f[0] == 0xfe && f[1] == 0xfe && f.last() == 0xfd
}

/// Whether the standard frame `received` answers the command of `request`: it acknowledges or
/// refuses, or it repeats the command, with its sub-command if both frames hold one.
pub open spec fn answers_command(request: Seq<u8>, received: Seq<u8>) -> bool {
    ||| received[4] == 0xfa
    ||| received[4] == 0xfb
    ||| received[4] == request[4] && (has_subcommand(request[4]) && request.len() >= 7
        && received.len() >= 7 ==> received[5] == request[5])
}

/// Whether `received` can be the response to `request`. The echo never is. Between standard frames
/// the addresses must be swapped and the command answered; anything else is accepted.
pub open spec fn is_response(request: Seq<u8>, received: Seq<u8>) -> bool {
    if received == request {
        false
    } else if !is_standard(request) || !is_standard(received) {
        true
    } else {
        received[2] == request[3] && received[3] == request[2] && answers_command(request, received)
    }
}

fn standard(f: &[u8]) -> (b: bool)
    ensures
        b == is_standard(f@),
{
    f.len() >= 6 && f[0] == 0xfe && f[1] == 0xfe && f[f.len() - 1] == 0xfd
}

/// Whether `received` can be the response to `request`.
pub fn is_response_to(request: &[u8], received: &[u8]) -> (b: bool)
    ensures
        b == is_response(request@, received@),
{
    if wire::same_bytes(received, request) {
        return false;
    }
    if !standard(request) || !standard(received) {
        return true;
    }
    let addressed_to_requester = received[2] == request[3] && received[3] == request[2];
    let command_matches = if received[4] == 0xfa || received[4] == 0xfb {
        true
    } else if received[4] != request[4] {
        false
    } else if command_has_subcommand(request[4]) && request.len() >= 7 && received.len() >= 7 {
        received[5] == request[5]
    } else {
        true
    };
    addressed_to_requester && command_matches
}

/// A CI-V request and the response gathered so far.
pub struct CivExchange {
    pub frame: Vec<u8>,
    /// When the request went out.
    pub start: u64,
    pub response: Vec<u8>,
    /// The first frame of the response has come.
    pub collecting: bool,
}

/// What a `CivExchange` stands for.
#[verifier::ext_equal]
pub struct ExchangeView {
    pub frame: Seq<u8>,
    pub start: u64,
    pub response: Seq<u8>,
    pub collecting: bool,
}

impl View for CivExchange {
    type V = ExchangeView;

    open spec fn view(&self) -> ExchangeView {
        ExchangeView {
            frame: self.frame@,
            start: self.start,
            response: self.response@,
            collecting: self.collecting,
        }
    }
}

/// What happens while a response is waited for.
pub enum CivEvent {
    /// A CI-V frame came from the radio.
    Frame(Vec<u8>),
    /// Frames were missed, because they came faster than they were taken.
    Lagged,
    /// Nothing came in the time given.
    Silence,
    /// No frame can come any more.
    Closed,
}

/// What is to be done next in an exchange.
pub enum CivStep {
    /// Wait for an event, for at most this long.
    Wait(u64),
    /// The exchange is over.
    Done(Result<Vec<u8>, BridgeError>),
}

/// Time elapsed from `start` to `now`.
pub open spec fn elapsed(start: u64, now: u64) -> int {
    if now >= start {
        now - start
    } else {
        0
    }
}

impl ExchangeView {
    /// An exchange whose request has just gone out.
    pub open spec fn begun(frame: Seq<u8>, now: u64) -> ExchangeView {
        ExchangeView { frame, start: now, response: Seq::empty(), collecting: false }
    }

    /// The exchange once the frame `f` has come: it joins the response, or it is ignored.
    pub open spec fn taken(self, f: Seq<u8>) -> ExchangeView {
        if is_response(self.frame, f) {
            ExchangeView { response: self.response + f, collecting: true, ..self }
        } else {
            self
        }
    }

    /// The exchange after `e`.
    pub open spec fn stepped(self, e: CivEvent) -> ExchangeView {
        match e {
            CivEvent::Frame(f) => self.taken(f@),
            _ => self,
        }
    }

    /// The text of the timeout of this exchange.
    pub open spec fn timeout_text(self) -> Seq<char> {
        "réponse CI-V à "@ + util::hex_text(self.frame)
    }
}

/// Whether `step` says that the exchange `v` got no response.
pub open spec fn is_no_response(v: ExchangeView, step: CivStep) -> bool {
    step matches CivStep::Done(Err(BridgeError::Timeout(why))) && why@ == v.timeout_text()
}

/// Whether `step` hands out the response of the exchange `v`.
pub open spec fn is_whole_response(v: ExchangeView, step: CivStep) -> bool {
    step matches CivStep::Done(Ok(response)) && response@ == v.response
}

/// Whether `step` is what follows `e` at time `now`, where `v` is the exchange after `e`.
///
/// Until the first frame of the response, the exchange fails when its time is over; after that, it
/// ends with a silence or with the end of the window.
pub open spec fn is_civ_step(v: ExchangeView, e: CivEvent, now: u64, step: CivStep) -> bool {
    let over = e is Silence || e is Closed;
    if !v.collecting {
        if over || elapsed(v.start, now) > RESP_FIRST_TIMEOUT {
            is_no_response(v, step)
        } else {
            step matches CivStep::Wait(w) && w == RESP_FIRST_TIMEOUT - elapsed(v.start, now)
        }
    } else if v.response.len() == 0 {
        is_no_response(v, step)
    } else if over || elapsed(v.start, now) >= RESP_MAX_WINDOW {
        is_whole_response(v, step)
    } else {
        step matches CivStep::Wait(w) && w == RESP_IDLE_GAP
    }
}

impl CivExchange {
    /// An exchange for the request `frame`, which is about to go out.
    pub fn new(frame: &[u8], now: u64) -> (exchange: CivExchange)
        ensures
            exchange@ == ExchangeView::begun(frame@, now),
    {
        let exchange = CivExchange {
            frame: wire::slice_of(frame, 0, frame.len()),
            start: now,
            response: Vec::new(),
            collecting: false,
        };
        assert(exchange@ =~= ExchangeView::begun(frame@, now));
        exchange
    }

    /// The request has gone out at time `now`: the first frame of the response is waited for.
    pub fn sent(&mut self, now: u64) -> (step: CivStep)
        ensures
            step matches CivStep::Wait(w) && w == RESP_FIRST_TIMEOUT,
            final(self)@ == (ExchangeView { start: now, ..old(self)@ }),
    {
        self.start = now;
        CivStep::Wait(RESP_FIRST_TIMEOUT)
    }

    fn no_response(&self) -> (step: CivStep)
        ensures
            is_no_response(self@, step),
    {
        let text = to_hex(self.frame.as_slice());
        let why = "réponse CI-V à ".to_owned().concat(text.as_str());
        CivStep::Done(Err(BridgeError::Timeout(why)))
    }

    /// Goes on with the exchange after an event that happened at time `now`.
    pub fn next(&mut self, event: CivEvent, now: u64) -> (step: CivStep)
        ensures
            final(self)@ == old(self)@.stepped(event),
            is_civ_step(final(self)@, event, now, step),
    {
        let mut over = false;
        match &event {
            CivEvent::Frame(f) => {
                if is_response_to(self.frame.as_slice(), f.as_slice()) {
                    wire::append(&mut self.response, f.as_slice());
                    self.collecting = true;
                }
            },
            CivEvent::Lagged => {},
            CivEvent::Silence => {
                over = true;
            },
            CivEvent::Closed => {
                over = true;
            },
        }
        assert(self@ =~= old(self)@.stepped(event));
        let spent: u64 = now.saturating_sub(self.start);
        if !self.collecting {
            if over || spent > RESP_FIRST_TIMEOUT {
                self.no_response()
            } else {
                CivStep::Wait(RESP_FIRST_TIMEOUT - spent)
            }
        } else if self.response.len() == 0 {
            self.no_response()
        } else if over || spent >= RESP_MAX_WINDOW {
            CivStep::Done(Ok(wire::copy(&self.response)))
        } else {
            CivStep::Wait(RESP_IDLE_GAP)
        }
    }
}

/// The frames among `events` that answer `frame`, joined in the order in which they came.
pub open spec fn gathered(frame: Seq<u8>, events: Seq<CivEvent>) -> Seq<u8>
    decreases events.len(),
{
    if events.len() == 0 {
        Seq::empty()
    } else {
        match events.last() {
            CivEvent::Frame(f) => if is_response(frame, f@) {
                gathered(frame, events.drop_last()) + f@
            } else {
                gathered(frame, events.drop_last())
            },
            _ => gathered(frame, events.drop_last()),
        }
    }
}

/// Whether some frame among `events` answers `frame`.
pub open spec fn is_answered(frame: Seq<u8>, events: Seq<CivEvent>) -> bool {
    exists|i: int|
        0 <= i < events.len() && (#[trigger] events[i] matches CivEvent::Frame(f) && is_response(
            frame,
            f@,
        ))
}

impl ExchangeView {
    /// The exchange after the events `events`.
    pub open spec fn ran(self, events: Seq<CivEvent>) -> ExchangeView
        decreases events.len(),
    {
        if events.len() == 0 {
            self
        } else {
            self.ran(events.drop_last()).stepped(events.last())
        }
    }
}

/// The response is made of the frames that answer the request, all of them, in the order in which
/// they came; nothing else that comes from the radio gets into it.
pub proof fn the_response_gathers_the_answers(frame: Seq<u8>, start: u64, events: Seq<CivEvent>)
    ensures
        ExchangeView::begun(frame, start).ran(events).frame == frame,
        ExchangeView::begun(frame, start).ran(events).start == start,
        ExchangeView::begun(frame, start).ran(events).response == gathered(frame, events),
        ExchangeView::begun(frame, start).ran(events).collecting == is_answered(frame, events),
    decreases events.len(),
{
    if events.len() > 0 {
        let front = events.drop_last();
        let n = front.len() as int;
        the_response_gathers_the_answers(frame, start, front);
        if is_answered(frame, front) {
            let i = choose|i: int|
                0 <= i < front.len() && (#[trigger] front[i] matches CivEvent::Frame(f)
                    && is_response(frame, f@));
            assert(events[i] == front[i]);
        }
        if is_answered(frame, events) {
            let i = choose|i: int|
                0 <= i < events.len() && (#[trigger] events[i] matches CivEvent::Frame(f)
                    && is_response(frame, f@));
            if i < n {
                assert(front[i] == events[i]);
            }
        }
        assert(events[n] == events.last());
    }
}

/// The echo of the request changes nothing, whenever it comes.
pub proof fn the_echo_is_discarded(v: ExchangeView)
    ensures
        !is_response(v.frame, v.frame),
        v.taken(v.frame) == v,
{
}

/// An exchange succeeds only with at least one frame that answers the request, and what it hands
/// out is what was gathered; while none has come, it fails or waits, never beyond 1.2 s.
pub proof fn an_exchange_succeeds_only_with_an_answer(
    frame: Seq<u8>,
    start: u64,
    events: Seq<CivEvent>,
    now: u64,
    step: CivStep,
)
    requires
        events.len() > 0,
        start <= now,
        is_civ_step(ExchangeView::begun(frame, start).ran(events), events.last(), now, step),
    ensures
        step matches CivStep::Done(Ok(response)) ==> is_answered(frame, events) && response@
            == gathered(frame, events) && response@.len() > 0,
        step matches CivStep::Done(Err(e)) ==> gathered(frame, events).len() == 0,
        !is_answered(frame, events) ==> match step {
            CivStep::Wait(w) => now + w == start + RESP_FIRST_TIMEOUT,
            CivStep::Done(r) => r is Err,
        },
{
    the_response_gathers_the_answers(frame, start, events);
    if !is_answered(frame, events) {
        unanswered_means_empty(frame, events);
    }
}

proof fn unanswered_means_empty(frame: Seq<u8>, events: Seq<CivEvent>)
    requires
        !is_answered(frame, events),
    ensures
        gathered(frame, events).len() == 0,
    decreases events.len(),
{
    if events.len() > 0 {
        let front = events.drop_last();
        assert(events[events.len() - 1] == events.last());
        if is_answered(frame, front) {
            let i = choose|i: int|
                0 <= i < front.len() && (#[trigger] front[i] matches CivEvent::Frame(f)
                    && is_response(frame, f@));
            assert(events[i] == front[i]);
        }
        unanswered_means_empty(frame, front);
    }
}

/// An exchange ends, even if the radio never falls silent: no wait goes beyond 1.7 s after the
/// request, and a silence or the end of the stream ends it at once.
pub proof fn an_exchange_is_bounded(v: ExchangeView, e: CivEvent, now: u64, step: CivStep)
    requires
        v.start <= now,
        is_civ_step(v, e, now, step),
    ensures
        step matches CivStep::Wait(w) ==> now + w <= v.start + RESP_MAX_WINDOW + RESP_IDLE_GAP,
        e is Silence || e is Closed || now - v.start >= RESP_MAX_WINDOW ==> step is Done,
{
}

/// Between standard frames, a response comes from the radio addressed and is for the requester: it
/// is an acknowledgement, or it answers the same command, with the same sub-command if it has one.
pub proof fn unrelated_frames_are_refused(request: Seq<u8>, received: Seq<u8>)
    requires
        is_standard(request),
        is_standard(received),
        is_response(request, received),
    ensures
        received != request,
        received[2] == request[3],
        received[3] == request[2],
        received[4] == request[4] || received[4] == 0xfa || received[4] == 0xfb,
        received[4] == request[4] && received[4] != 0xfa && received[4] != 0xfb && has_subcommand(
            request[4],
        ) && request.len() >= 7 && received.len() >= 7 ==> received[5] == request[5],
{
}

/// An acknowledgement from the radio addressed is accepted, whatever the command was.
pub proof fn acknowledgements_are_accepted(request: Seq<u8>, received: Seq<u8>)
    requires
        is_standard(request),
        is_standard(received),
        received != request,
        received[2] == request[3],
        received[3] == request[2],
        received[4] == 0xfa || received[4] == 0xfb,
    ensures
        is_response(request, received),
{
}

/// An active session.
pub struct Session {
    /// The radio.
    pub host: String,
    /// The link has been declared lost.
    pub link_lost: bool,
}

/// What is to be sent, in this order, to end a session.
pub struct Farewell {
    /// On the serial stream.
    pub serial: Vec<Vec<u8>>,
    /// Then on the control stream.
    pub control: Vec<Vec<u8>>,
    /// Then this long is waited.
    pub wait: u64,
    /// Then these, on the control stream.
    pub last: Vec<Vec<u8>>,
}

/// Whether both streams have been silent for so long that the link is lost.
pub open spec fn is_link_lost(control: StreamView, serial: StreamView, now: u64) -> bool {
    elapsed(control.last_rx_at, now) > LINK_TIMEOUT && elapsed(serial.last_rx_at, now)
        > LINK_TIMEOUT
}

/// Whether `farewell` ends the session on both streams: the channel and the serial stream are
/// closed, then the authentication, then, after a while, the control stream.
pub open spec fn is_farewell(serial: SerialView, control: ControlView, farewell: Farewell) -> bool {
    &&& wire::contents(farewell.serial@) == seq![serial.common.stamp(serial.open_close(true))]
        + serial.common.farewell()
    &&& wire::contents(farewell.control@) == seq![control.common.stamp(control.auth(AUTH_END))]
    &&& farewell.wait == DISCONNECT_WAIT
    &&& wire::contents(farewell.last@) == control.common.farewell()
}

impl Session {
    /// Concludes a connection once the opening of the serial stream has succeeded or failed. If it
    /// failed, the datagrams returned, to be sent on the control stream, make the radio free the
    /// session at once.
    pub fn connect(
        host: &str,
        control: &mut ControlStream,
        serial: Result<(), BridgeError>,
        now: u64,
    ) -> (r: (Result<Session, BridgeError>, Vec<Vec<u8>>))
        ensures
            match serial {
                Ok(_) => {
                    &&& r.0 matches Ok(session)
                    &&& session.host@ == host@
                    &&& !session.link_lost
                    &&& r.1@.len() == 0
                    &&& final(control)@ == old(control)@
                },
                Err(e) => {
                    &&& r.0 == Err::<Session, BridgeError>(e)
                    &&& wire::contents(r.1@) == old(control)@.released()
                    &&& final(control)@ == old(control)@.sent(old(control)@.auth(AUTH_END), now)
                },
            },
            old(control)@.wf() ==> final(control)@.wf(),
    {
        match serial {
            Ok(_) => {
                let session = Session { host: host.to_owned(), link_lost: false };
                (Ok(session), Vec::new())
            },
            Err(e) => {
                let list = control.release(now);
                (Err(e), list)
            },
        }
    }

    /// Begins a CI-V request: the datagram to send on the serial stream, and the exchange that
    /// waits for the response. Requests are to be made one at a time.
    pub fn send_civ(&self, serial: &mut SerialStream, frame: &[u8], now: u64) -> (r: (
        Vec<u8>,
        CivExchange,
    ))
        requires
            frame@.len() <= u32::MAX - 21,
        ensures
            r.0@ == old(serial)@.common.stamp(old(serial)@.data_packet(frame@)),
            r.1@ == ExchangeView::begun(frame@, now),
            final(serial)@ == old(serial)@.sent(old(serial)@.data_packet(frame@), now),
            old(serial)@.wf() ==> final(serial)@.wf(),
    {
        let out = serial.send_civ(frame, now);
        (out, CivExchange::new(frame, now))
    }

    /// Checks the link at time `now`. Returns `true` when it is found lost, the first time only.
    pub fn check_link(&mut self, control: &StreamCommon, serial: &StreamCommon, now: u64) -> (lost:
        bool)
        ensures
            lost == (!old(self).link_lost && is_link_lost(control@, serial@, now)),
            final(self).link_lost == (old(self).link_lost || is_link_lost(control@, serial@, now)),
            final(self).host == old(self).host,
    {
        if !self.link_lost && control.silent_for(now) > LINK_TIMEOUT && serial.silent_for(now)
            > LINK_TIMEOUT {
            self.link_lost = true;
            true
        } else {
            false
        }
    }

    /// Whether the link has been declared lost.
    pub fn link_lost_watch(&self) -> (lost: bool)
        ensures
            lost == self.link_lost,
    {
        self.link_lost
    }

    /// Ends the session: the channel and the serial stream are closed, then the authentication and
    /// the control stream.
    pub fn disconnect(
        &self,
        serial: &mut SerialStream,
        control: &mut ControlStream,
        now: u64,
    ) -> (farewell: Farewell)
        ensures
            is_farewell(old(serial)@, old(control)@, farewell),
            final(serial)@ == old(serial)@.sent(old(serial)@.open_close(true), now),
            final(control)@ == old(control)@.sent(old(control)@.auth(AUTH_END), now),
            old(serial)@.wf() ==> final(serial)@.wf(),
            old(control)@.wf() ==> final(control)@.wf(),
    {
        let mut on_serial: Vec<Vec<u8>> = Vec::new();
        on_serial.push(serial.send_open_close(true, now));
        let more = serial.common.send_disconnect();
        wire::append_all(&mut on_serial, more);
        assert(wire::contents(on_serial@) =~= seq![
            old(serial)@.common.stamp(old(serial)@.open_close(true)),
        ] + old(serial)@.common.farewell());
        let mut on_control: Vec<Vec<u8>> = Vec::new();
        on_control.push(control.send_auth(AUTH_END, now));
        assert(wire::contents(on_control@) =~= seq![
            old(control)@.common.stamp(old(control)@.auth(AUTH_END)),
        ]);
        let last = control.common.send_disconnect();
        Farewell { serial: on_serial, control: on_control, wait: DISCONNECT_WAIT, last }
    }
}

/// A datagram of any kind, on either stream, keeps the link alive for ten more seconds.
pub proof fn any_datagram_keeps_the_link_alive(
    control: StreamView,
    serial: StreamView,
    r: Seq<u8>,
    t: u64,
    now: u64,
)
    requires
        t <= now <= t + LINK_TIMEOUT,
    ensures
        !is_link_lost(control.heard(r, t), serial, now),
        !is_link_lost(control, serial.heard(r, t), now),
{
}

/// A radio that says nothing more is found out: later than ten seconds after the last datagram on
/// both streams, the link is lost.
pub proof fn a_dead_radio_is_found_out(control: StreamView, serial: StreamView, now: u64)
    requires
        now > control.last_rx_at + LINK_TIMEOUT,
        now > serial.last_rx_at + LINK_TIMEOUT,
    ensures
        is_link_lost(control, serial, now),
{
}

/// A frame that repeats the command of the request, between standard frames with swapped addresses,
/// is a response whatever its length is, unless the command has a sub-command, both frames hold at
/// least 7 bytes, and their sixth bytes differ.
pub proof fn answers_to_the_command_are_accepted(request: Seq<u8>, received: Seq<u8>)
    requires
        is_standard(request),
        is_standard(received),
        received != request,
        received[2] == request[3],
        received[3] == request[2],
        received[4] == request[4],
        !(has_subcommand(request[4]) && request.len() >= 7 && received.len() >= 7 && received[5]
            != request[5]),
    ensures
        is_response(request, received),
{
}

/// A standard frame has at least 6 bytes, begins with `FE FE` and ends with `FD`. The commands with
/// a sub-command are 14, 15, 16, 1A, 1B, 1C, 21, 25, 26 and 27, in hexadecimal.
pub proof fn what_standard_frames_are(f: Seq<u8>, command: u8)
    ensures
        is_standard(f) <==> f.len() >= 6 && f[0] == 0xfe && f[1] == 0xfe && f[f.len() - 1] == 0xfd,
        has_subcommand(command) <==> seq![
            0x14u8,
            0x15,
            0x16,
            0x1a,
            0x1b,
            0x1c,
            0x21,
            0x25,
            0x26,
            0x27,
        ].contains(command),
{
    let all = seq![0x14u8, 0x15, 0x16, 0x1a, 0x1b, 0x1c, 0x21, 0x25, 0x26, 0x27];
    if has_subcommand(command) {
        assert(all[0] == 0x14 && all[1] == 0x15 && all[2] == 0x16 && all[3] == 0x1a && all[4]
            == 0x1b && all[5] == 0x1c && all[6] == 0x21 && all[7] == 0x25 && all[8] == 0x26
            && all[9] == 0x27);
    }
    if all.contains(command) {
        let k = all.index_of(command);
        assert(k == 0 || k == 1 || k == 2 || k == 3 || k == 4 || k == 5 || k == 6 || k == 7 || k
            == 8 || k == 9);
    }
}

/// Frames that are not standard, on either side, are taken for responses, but for the echo.
pub proof fn other_frames_are_accepted(request: Seq<u8>, received: Seq<u8>)
    requires
        !(request.len() >= 6 && request[0] == 0xfe && request[1] == 0xfe && request.last() == 0xfd)
            || !(received.len() >= 6 && received[0] == 0xfe && received[1] == 0xfe
            && received.last() == 0xfd),
    ensures
        is_response(request, received) <==> received != request,
{
}

/// The answer of the radio to a request of the terminal: the same command with the addresses
/// swapped and any data, for a command without a sub-command.
pub proof fn the_radio_answers_with_swapped_addresses(to: u8, from: u8, command: u8, data: Seq<u8>)
    requires
        !has_subcommand(command),
        to != from || data.len() > 0,
    ensures
        is_response(
            seq![0xfeu8, 0xfe, to, from, command, 0xfd],
            seq![0xfeu8, 0xfe, from, to, command] + data + seq![0xfdu8],
        ),
{
    let request = seq![0xfeu8, 0xfe, to, from, command, 0xfd];
    let received = seq![0xfeu8, 0xfe, from, to, command] + data + seq![0xfdu8];
    assert(received.last() == 0xfd);
    if to != from {
        assert(received[2] != request[2]);
    } else {
        assert(received.len() != request.len());
    }
    answers_to_the_command_are_accepted(request, received);
}

/// Until an answer has come, the exchange waits for what is left of 1.2 s, whatever else comes; it
/// fails when that is over, or when nothing more can come.
pub proof fn the_first_answer_is_waited_for(v: ExchangeView, e: CivEvent, now: u64, step: CivStep)
    requires
        !v.collecting,
        v.start <= now,
        is_civ_step(v, e, now, step),
    ensures
        now - v.start <= 1_200_000_000 && (e is Frame || e is Lagged) ==> step == CivStep::Wait(
            (1_200_000_000 - (now - v.start)) as u64,
        ),
        now - v.start > 1_200_000_000 || e is Silence || e is Closed ==> (
        step matches CivStep::Done(Err(BridgeError::Timeout(why))) && why@ == "réponse CI-V à "@
            + util::hex_text(v.frame)),
{
}

/// Once an answer has come, more are gathered: the exchange waits 200 ms for the next frame until
/// 1.5 s have passed since the request, and hands out what it has then, or after a silence.
pub proof fn more_answers_are_gathered(v: ExchangeView, e: CivEvent, now: u64, step: CivStep)
    requires
        v.collecting,
        v.response.len() > 0,
        v.start <= now,
        is_civ_step(v, e, now, step),
    ensures
        now - v.start < 1_500_000_000 && (e is Frame || e is Lagged) ==> step == CivStep::Wait(
            200_000_000,
        ),
        now - v.start >= 1_500_000_000 || e is Silence || e is Closed ==> (
        step matches CivStep::Done(Ok(response)) && response@ == v.response),
{
}

/// A frame that answers joins the response, at its end, and starts the gathering; any other event
/// leaves the exchange as it is.
pub proof fn answers_join_the_response(v: ExchangeView, e: CivEvent)
    ensures
        match e {
            CivEvent::Frame(f) => v.stepped(e) == (if is_response(v.frame, f@) {
                ExchangeView { response: v.response + f@, collecting: true, ..v }
            } else {
                v
            }),
            _ => v.stepped(e) == v,
        },
        ExchangeView::begun(v.frame, v.start) == (ExchangeView {
            response: Seq::empty(),
            collecting: false,
            ..v
        }),
{
}

/// The link is lost exactly when nothing has come on either stream for more than ten seconds.
pub proof fn the_link_is_lost_after_ten_seconds(control: StreamView, serial: StreamView, now: u64)
    requires
        control.last_rx_at <= now,
        serial.last_rx_at <= now,
    ensures
        is_link_lost(control, serial, now) <==> now - control.last_rx_at > 10_000_000_000 && now
            - serial.last_rx_at > 10_000_000_000,
{
}

/// The delays of a session: the link is checked every second, and the radio is given half a second
/// between the end of the authentication and the disconnection.
pub proof fn the_delays_of_a_session()
    ensures
        LINK_CHECK_INTERVAL == 1_000 * 1_000_000,
        DISCONNECT_WAIT == 500 * 1_000_000,
{
}

/// The time elapsed is the difference of two moments, and never negative.
pub proof fn time_elapses_forward(start: u64, now: u64)
    ensures
        start <= now ==> elapsed(start, now) == now - start,
        now <= start ==> elapsed(start, now) == 0,
{
}

/// How a session ends, by the bytes that are sent: the packet that closes the channel (22 bytes,
/// `C0` at offset 16, 0 at offset 21) and twice that of type 5 on the serial stream; the end of the
/// authentication (64 bytes, 1 at offset 21, the token at offset 26) on the control stream; half a
/// second later twice that of type 5 there.
pub proof fn a_session_ends_on_both_streams(
    serial: SerialView,
    control: ControlView,
    farewell: Farewell,
)
    requires
        control.auth_id.len() == 6,
        is_farewell(serial, control, farewell),
    ensures
        farewell.serial@.len() == 3,
        farewell.serial@[0]@.len() == 22,
        farewell.serial@[0]@[16] == 0xc0,
        farewell.serial@[0]@[21] == 0,
        farewell.serial@[0]@[6] + 256 * farewell.serial@[0]@[7] == serial.common.pkt0.send_seq,
        farewell.serial@[1]@ == serial.common.header(16, 5, 0),
        farewell.serial@[2]@ == serial.common.header(16, 5, 0),
        farewell.control@.len() == 1,
        farewell.control@[0]@.len() == 64,
        farewell.control@[0]@[21] == 1,
        farewell.control@[0]@.subrange(26, 32) == control.auth_id,
        farewell.control@[0]@[6] + 256 * farewell.control@[0]@[7] == control.common.pkt0.send_seq,
        farewell.wait == 500_000_000,
        farewell.last@.len() == 2,
        farewell.last@[0]@ == control.common.header(16, 5, 0),
        farewell.last@[1]@ == control.common.header(16, 5, 0),
{
    let (a, b, c) = (
        wire::contents(farewell.serial@),
        wire::contents(farewell.control@),
        wire::contents(farewell.last@),
    );
    assert(a.len() == farewell.serial@.len() && b.len() == farewell.control@.len() && c.len()
        == farewell.last@.len());
    serial::bytes_of_an_opening_packet(serial, true);
    control::the_session_is_given_back(control);
    assert(a[0] == farewell.serial@[0]@ && a[1] == farewell.serial@[1]@ && a[2]
        == farewell.serial@[2]@);
    assert(b[0] == farewell.control@[0]@);
    assert(b[0] == control.released()[0]);
    assert(c[0] == farewell.last@[0]@ && c[1] == farewell.last@[1]@);
}

} // verus!
