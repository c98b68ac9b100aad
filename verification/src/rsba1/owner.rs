//! The owner of the control stream: it watches the answers of the radio, asks for the serial stream
//! once the authentication is accepted, and tells when the radio has opened it.

use vstd::prelude::*;

use crate::error::BridgeError;
use crate::rsba1::control::ControlStream;
use crate::rsba1::control::ControlView;
use crate::rsba1::stream::StreamView;
use crate::rsba1::wire;

verus! {

/// What the owner of the control stream knows.
pub struct ControlOwner {
    /// The authentication is accepted.
    pub auth_ok: bool,
    /// Identifier that came with the capabilities of the radio.
    pub a8: Option<[u8; 16]>,
    /// The serial stream has been asked for.
    pub requested: bool,
    /// The outcome has not been told yet.
    pub pending: bool,
}

/// What a `ControlOwner` stands for.
#[verifier::ext_equal]
pub struct OwnerView {
    pub auth_ok: bool,
    pub a8: Option<Seq<u8>>,
    pub requested: bool,
    pub pending: bool,
}

impl View for ControlOwner {
    type V = OwnerView;

    open spec fn view(&self) -> OwnerView {
        OwnerView {
            auth_ok: self.auth_ok,
            a8: match self.a8 {
                Some(id) => Some(id@),
                None => None,
            },
            requested: self.requested,
            pending: self.pending,
        }
    }
}

/// What the owner does after a packet.
pub struct OwnerStep {
    /// The outcome to tell, if it is known now: the serial stream is open, or why it will not be.
    pub signal: Option<Result<(), BridgeError>>,
    /// The request for the serial stream, if it is to be sent now.
    pub request: Option<Vec<u8>>,
    /// The owner has nothing more to do.
    pub stop: bool,
}

/// Whether `r` is a packet of the kind whose first byte is `kind`.
pub open spec fn is_kind(kind: u8, r: Seq<u8>) -> bool {
    seq![kind, 0, 0, 0, 0, 0].is_prefix_of(r)
}

/// Whether `r` announces the capabilities of the radio.
pub open spec fn is_capabilities(r: Seq<u8>) -> bool {
    r.len() >= 168 && is_kind(0xa8, r)
}

/// Whether `r` accepts the authentication.
pub open spec fn is_auth_accepted(r: Seq<u8>) -> bool {
    r.len() == 64 && is_kind(0x40, r) && r[21] == 0x05
}

/// Whether `r` refuses the authentication.
pub open spec fn is_auth_refused(r: Seq<u8>) -> bool {
    r.len() == 80 && is_kind(0x50, r) && r[48] == 0xff && r[49] == 0xff && r[50] == 0xff
}

/// Whether `r` says that the radio is disconnected.
pub open spec fn is_radio_gone(r: Seq<u8>) -> bool {
    r.len() == 80 && is_kind(0x50, r) && r[48] == 0 && r[49] == 0 && r[50] == 0 && r[64] == 0x01
}

/// Whether `r` says that the serial stream is open.
pub open spec fn is_serial_open(r: Seq<u8>) -> bool {
    r.len() == 144 && is_kind(0x90, r) && r[96] == 1
}

impl OwnerView {
    pub open spec fn initial() -> OwnerView {
        OwnerView { auth_ok: false, a8: None, requested: false, pending: true }
    }

    /// What the owner knows once it has read `r`.
    pub open spec fn informed(self, r: Seq<u8>) -> OwnerView {
        OwnerView {
            auth_ok: self.auth_ok || is_auth_accepted(r),
            a8: if is_capabilities(r) {
                Some(r.subrange(66, 82))
            } else {
                self.a8
            },
            requested: self.requested,
            pending: self.pending && !is_serial_open(r) && !ends(r),
        }
    }

    /// Whether the serial stream is to be asked for after `r`.
    pub open spec fn requests(self, r: Seq<u8>) -> bool {
        !ends(r) && self.informed(r).auth_ok && self.informed(r).a8 is Some && !self.requested
    }

    /// The state after `r`.
    pub open spec fn stepped(self, r: Seq<u8>) -> OwnerView {
        OwnerView { requested: self.requested || self.requests(r), ..self.informed(r) }
    }
}

/// Whether the owner stops at `r`.
pub open spec fn ends(r: Seq<u8>) -> bool {
    is_auth_refused(r) || is_radio_gone(r)
}

impl ControlView {
    /// The state once the radio has said with `r` that the serial stream is open: identifiers and
    /// token are those that it confirms.
    pub open spec fn confirmed(self, r: Seq<u8>) -> ControlView {
        if is_serial_open(r) {
            ControlView {
                common: StreamView {
                    remote_sid: wire::join32(r[8], r[9], r[10], r[11]),
                    local_sid: wire::join32(r[12], r[13], r[14], r[15]),
                    ..self.common
                },
                auth_id: r.subrange(26, 32),
                ..self
            }
        } else {
            self
        }
    }

    /// The request for the serial stream that follows `r`.
    pub open spec fn request_after(self, owner: OwnerView, r: Seq<u8>) -> Seq<u8> {
        self.confirmed(r).serial_audio(owner.informed(r).a8->0)
    }

    /// The state after the owner has dealt with `r` at time `now`.
    pub open spec fn owned(self, owner: OwnerView, r: Seq<u8>, now: u64) -> ControlView {
        if owner.requests(r) {
            self.confirmed(r).sent(self.request_after(owner, r), now)
        } else {
            self.confirmed(r)
        }
    }
}

/// Whether `s` is the outcome to tell after `r`.
pub open spec fn is_signal(
    owner: OwnerView,
    r: Seq<u8>,
    s: Option<Result<(), BridgeError>>,
) -> bool {
    if !owner.pending {
        s is None
    } else if is_auth_refused(r) {
        s matches Some(Err(BridgeError::AuthFailed(why))) && why@
            == "refus de la radio (essayer de redémarrer l'IC-705)"@
    } else if is_radio_gone(r) {
        s matches Some(Err(BridgeError::AuthFailed(why))) && why@ == "radio déconnectée"@
    } else if is_serial_open(r) {
        s matches Some(Ok(_))
    } else {
        s is None
    }
}

fn kind_is(kind: u8, r: &[u8]) -> (b: bool)
    ensures
        b == is_kind(kind, r@),
{
    let prefix: [u8; 6] = [kind, 0x00, 0x00, 0x00, 0x00, 0x00];
    assert(prefix@ =~= seq![kind, 0, 0, 0, 0, 0]);
    wire::starts_with(r, prefix.as_slice())
}

/// The six bytes of `r` from offset 26: the token of the radio.
pub fn token_of(r: &[u8]) -> (id: [u8; 6])
    requires
        r@.len() >= 32,
    ensures
        id@ == r@.subrange(26, 32),
{
    let id: [u8; 6] = [r[26], r[27], r[28], r[29], r[30], r[31]];
    assert(id@ =~= r@.subrange(26, 32));
    id
}

fn capabilities_id(r: &[u8]) -> (id: [u8; 16])
    requires
        r@.len() >= 82,
    ensures
        id@ == r@.subrange(66, 82),
{
    let id: [u8; 16] = [
        r[66],
        r[67],
        r[68],
        r[69],
        r[70],
        r[71],
        r[72],
        r[73],
        r[74],
        r[75],
        r[76],
        r[77],
        r[78],
        r[79],
        r[80],
        r[81],
    ];
    assert(id@ =~= r@.subrange(66, 82));
    id
}

impl ControlOwner {
    pub fn new() -> (owner: ControlOwner)
        ensures
            owner@ == OwnerView::initial(),
    {
        ControlOwner { auth_ok: false, a8: None, requested: false, pending: true }
    }

    /// Takes the right to tell the outcome.
    fn take_pending(&mut self) -> (had: bool)
        ensures
            had == old(self)@.pending,
            final(self)@ == (OwnerView { pending: false, ..old(self)@ }),
    {
        let had = self.pending;
        self.pending = false;
        had
    }

    /// Deals with a packet delivered by the control stream.
    pub fn on_packet(&mut self, control: &mut ControlStream, r: &[u8], now: u64) -> (step: OwnerStep)
        ensures
            is_signal(old(self)@, r@, step.signal),
            match step.request {
                Some(p) => old(self)@.requests(r@) && p@ == old(control)@.confirmed(
                    r@,
                ).common.stamp(old(control)@.request_after(old(self)@, r@)),
                None => !old(self)@.requests(r@),
            },
            step.stop == ends(r@),
            final(self)@ == old(self)@.stepped(r@),
            final(control)@ == old(control)@.owned(old(self)@, r@, now),
            old(control)@.wf() ==> final(control)@.wf(),
    {
        let ghost before = self@;
        let mut signal: Option<Result<(), BridgeError>> = None;
        if r.len() >= 168 {
            if kind_is(0xa8, r) {
                self.a8 = Some(capabilities_id(r));
            }
        } else if r.len() == 64 {
            if kind_is(0x40, r) && r[21] == 0x05 {
                self.auth_ok = true;
            }
        } else if r.len() == 80 {
            if kind_is(0x50, r) {
                if r[48] == 0xff && r[49] == 0xff && r[50] == 0xff {
                    if self.take_pending() {
                        signal = Some(
                            Err(
                                BridgeError::AuthFailed(
                                    "refus de la radio (essayer de redémarrer l'IC-705)".to_owned(),
                                ),
                            ),
                        );
                    }
                    assert(self@ =~= before.stepped(r@));
                    return OwnerStep { signal, request: None, stop: true };
                }
                if r[48] == 0x00 && r[49] == 0x00 && r[50] == 0x00 && r[64] == 0x01 {
                    if self.take_pending() {
                        signal = Some(
                            Err(BridgeError::AuthFailed("radio déconnectée".to_owned())),
                        );
                    }
                    assert(self@ =~= before.stepped(r@));
                    return OwnerStep { signal, request: None, stop: true };
                }
            }
        } else if r.len() == 144 {
            if kind_is(0x90, r) && r[96] == 1 {
                control.common.remote_sid = wire::u32_from_be(r[8], r[9], r[10], r[11]);
                control.common.local_sid = wire::u32_from_be(r[12], r[13], r[14], r[15]);
                control.auth_id = token_of(r);
                if self.take_pending() {
                    signal = Some(Ok(()));
                }
            }
        }
        assert(self@ =~= before.informed(r@));
        assert(control@ =~= old(control)@.confirmed(r@));
        let mut request: Option<Vec<u8>> = None;
        if self.auth_ok && !self.requested {
            if let Some(id) = self.a8 {
                self.requested = true;
                request = Some(control.send_request_serial_audio(&id, now));
            }
        }
        assert(self@ =~= before.stepped(r@));
        OwnerStep { signal, request, stop: false }
    }

    /// The request for the serial stream could not be sent: tells why, if the outcome was not told
    /// yet.
    pub fn on_request_failed(&mut self, error: BridgeError) -> (signal: Option<
        Result<(), BridgeError>,
    >)
        ensures
            signal == (if old(self)@.pending {
                Some(Err::<(), BridgeError>(error))
            } else {
                None
            }),
            final(self)@ == (OwnerView { pending: false, ..old(self)@ }),
    {
        if self.take_pending() {
            Some(Err(error))
        } else {
            None
        }
    }
}

impl OwnerView {
    /// The state after the packets `list`.
    pub open spec fn ran(self, list: Seq<Seq<u8>>) -> OwnerView
        decreases list.len(),
    {
        if list.len() == 0 {
            self
        } else {
            self.ran(list.drop_last()).stepped(list.last())
        }
    }
}

/// The serial stream is asked for once: after a packet that makes the owner ask, no later packet
/// does.
pub proof fn the_serial_stream_is_asked_for_once(
    owner: OwnerView,
    r: Seq<u8>,
    later: Seq<Seq<u8>>,
    s: Seq<u8>,
)
    requires
        owner.requests(r),
    ensures
        owner.stepped(r).ran(later).requested,
        !owner.stepped(r).ran(later).requests(s),
    decreases later.len(),
{
    if later.len() > 0 {
        the_serial_stream_is_asked_for_once(owner, r, later.drop_last(), s);
    }
}

/// The outcome is told once: after a packet that settles it, no later packet gives another.
pub proof fn the_outcome_is_told_once(
    owner: OwnerView,
    r: Seq<u8>,
    later: Seq<Seq<u8>>,
    s: Seq<u8>,
    signal: Option<Result<(), BridgeError>>,
)
    requires
        is_serial_open(r) || ends(r),
        is_signal(owner.stepped(r).ran(later), s, signal),
    ensures
        !owner.stepped(r).ran(later).pending,
        signal is None,
{
    pending_never_returns(owner.stepped(r), later);
}

proof fn pending_never_returns(owner: OwnerView, later: Seq<Seq<u8>>)
    requires
        !owner.pending,
    ensures
        !owner.ran(later).pending,
    decreases later.len(),
{
    if later.len() > 0 {
        pending_never_returns(owner, later.drop_last());
    }
}

/// The serial stream is asked for only when the radio has both accepted the authentication and
/// announced its capabilities, and then as soon as the second of the two has come.
pub proof fn the_serial_stream_is_asked_for_after_both_answers(list: Seq<Seq<u8>>)
    requires
        forall|i: int| 0 <= i < list.len() ==> !ends(#[trigger] list[i]),
    ensures
        OwnerView::initial().ran(list).requested <==> (exists|i: int|
            0 <= i < list.len() && is_auth_accepted(#[trigger] list[i])) && (exists|j: int|
            0 <= j < list.len() && is_capabilities(#[trigger] list[j])),
        OwnerView::initial().ran(list).auth_ok <==> exists|i: int|
            0 <= i < list.len() && is_auth_accepted(#[trigger] list[i]),
        OwnerView::initial().ran(list).a8 is Some <==> exists|j: int|
            0 <= j < list.len() && is_capabilities(#[trigger] list[j]),
    decreases list.len(),
{
    if list.len() > 0 {
        let front = list.drop_last();
        let n = front.len() as int;
        assert forall|i: int| 0 <= i < front.len() implies !ends(#[trigger] front[i]) by {
            assert(front[i] == list[i]);
        }
        the_serial_stream_is_asked_for_after_both_answers(front);
        assert(!ends(list[n]));
        assert((exists|i: int| 0 <= i < list.len() && is_auth_accepted(#[trigger] list[i])) <==> (
        exists|i: int| 0 <= i < n && is_auth_accepted(#[trigger] front[i])) || is_auth_accepted(
            list[n],
        )) by {
            if exists|i: int| 0 <= i < n && is_auth_accepted(#[trigger] front[i]) {
                let i = choose|i: int| 0 <= i < n && is_auth_accepted(#[trigger] front[i]);
                assert(is_auth_accepted(list[i]));
            }
            if exists|i: int| 0 <= i < list.len() && is_auth_accepted(#[trigger] list[i]) {
                let i = choose|i: int|
                    0 <= i < list.len() && is_auth_accepted(#[trigger] list[i]);
                if i < n {
                    assert(is_auth_accepted(front[i]));
                }
            }
        }
        assert((exists|i: int| 0 <= i < list.len() && is_capabilities(#[trigger] list[i])) <==> (
        exists|i: int| 0 <= i < n && is_capabilities(#[trigger] front[i])) || is_capabilities(
            list[n],
        )) by {
            if exists|i: int| 0 <= i < n && is_capabilities(#[trigger] front[i]) {
                let i = choose|i: int| 0 <= i < n && is_capabilities(#[trigger] front[i]);
                assert(is_capabilities(list[i]));
            }
            if exists|i: int| 0 <= i < list.len() && is_capabilities(#[trigger] list[i]) {
                let i = choose|i: int| 0 <= i < list.len() && is_capabilities(#[trigger] list[i]);
                if i < n {
                    assert(is_capabilities(front[i]));
                }
            }
        }
    }
}

/// What each packet of the radio is taken for, by its bytes. All of them begin with their length
/// and five zeros.
pub proof fn replies_are_told_apart_by_their_bytes(r: Seq<u8>)
    ensures
        ({
            let plain = r[1] == 0 && r[2] == 0 && r[3] == 0 && r[4] == 0 && r[5] == 0;
            &&& is_capabilities(r) <==> r.len() >= 168 && r[0] == 0xa8 && plain
            &&& is_auth_accepted(r) <==> r.len() == 64 && r[0] == 0x40 && plain && r[21] == 5
            &&& is_auth_refused(r) <==> r.len() == 80 && r[0] == 0x50 && plain && r[48] == 0xff
                && r[49] == 0xff && r[50] == 0xff
            &&& is_radio_gone(r) <==> r.len() == 80 && r[0] == 0x50 && plain && r[48] == 0 && r[49]
                == 0 && r[50] == 0 && r[64] == 1
            &&& is_serial_open(r) <==> r.len() == 144 && r[0] == 0x90 && plain && r[96] == 1
        }),
{
    if r.len() >= 6 {
        kinds_by_bytes(0xa8, r);
        kinds_by_bytes(0x40, r);
        kinds_by_bytes(0x50, r);
        kinds_by_bytes(0x90, r);
    }
}

proof fn kinds_by_bytes(kind: u8, r: Seq<u8>)
    requires
        r.len() >= 6,
    ensures
        is_kind(kind, r) <==> r[0] == kind && r[1] == 0 && r[2] == 0 && r[3] == 0 && r[4] == 0
            && r[5] == 0,
{
    let p = seq![kind, 0, 0, 0, 0, 0];
    let t = r.take(6);
    assert(r[0] == t[0] && r[1] == t[1] && r[2] == t[2] && r[3] == t[3] && r[4] == t[4] && r[5]
        == t[5]);
    if r[0] == kind && r[1] == 0 && r[2] == 0 && r[3] == 0 && r[4] == 0 && r[5] == 0 {
        assert(t =~= p);
    }
}

/// What the owner learns from a packet, and nothing else: the identifier at offset 66 from the
/// capabilities, each time they come; that the authentication is accepted, for good; that the
/// outcome is settled, for good, by the opening of the serial stream or by the end.
pub proof fn the_owner_learns_from_the_radio(owner: OwnerView, r: Seq<u8>)
    ensures
        ({
            let w = owner.stepped(r);
            &&& is_capabilities(r) ==> w.a8 == Some(r.subrange(66, 82))
            &&& !is_capabilities(r) ==> w.a8 == owner.a8
            &&& w.auth_ok <==> owner.auth_ok || is_auth_accepted(r)
            &&& w.pending <==> owner.pending && !is_serial_open(r) && !is_auth_refused(r)
                && !is_radio_gone(r)
            &&& w.requested <==> owner.requested || owner.requests(r)
        }),
        OwnerView::initial() == (OwnerView {
            auth_ok: false,
            a8: None,
            requested: false,
            pending: true,
        }),
        ends(r) <==> is_auth_refused(r) || is_radio_gone(r),
{
}

/// The serial stream is asked for by the first packet after which the authentication is accepted
/// and the capabilities are known, unless it tells the end.
pub proof fn the_serial_stream_is_asked_for_at_once(owner: OwnerView, r: Seq<u8>)
    ensures
        owner.requests(r) <==> !owner.requested && (owner.auth_ok || is_auth_accepted(r)) && (
        owner.a8 is Some || is_capabilities(r)) && !is_auth_refused(r) && !is_radio_gone(r),
{
}

/// The radio confirms the serial stream with its identifier at offset 8, ours at offset 12, high
/// bytes first, and the token at offset 26: they replace what was known. No other packet does.
pub proof fn the_confirmation_is_taken_over(v: ControlView, r: Seq<u8>)
    ensures
        is_serial_open(r) ==> {
            let w = v.confirmed(r);
            &&& w.common.remote_sid == 0x100_0000 * r[8] + 0x1_0000 * r[9] + 0x100 * r[10] + r[11]
            &&& w.common.local_sid == 0x100_0000 * r[12] + 0x1_0000 * r[13] + 0x100 * r[14] + r[15]
            &&& w.auth_id == r.subrange(26, 32)
            &&& w == (ControlView {
                common: StreamView {
                    remote_sid: w.common.remote_sid,
                    local_sid: w.common.local_sid,
                    ..v.common
                },
                auth_id: w.auth_id,
                ..v
            })
        },
        !is_serial_open(r) ==> v.confirmed(r) == v,
{
}

/// The request that follows the capabilities `c`, be it at once or after the packet that accepts
/// the authentication, is the one of 144 bytes with the identifier of `c` at offset 32; it takes
/// the next number.
pub proof fn the_request_holds_the_identifier_of_the_capabilities(
    v: ControlView,
    owner: OwnerView,
    c: Seq<u8>,
    r: Seq<u8>,
    now: u64,
)
    requires
        v.auth_id.len() == 6,
        owner.requests(r),
        is_capabilities(c),
        r == c || (!is_capabilities(r) && owner.a8 == Some(c.subrange(66, 82))),
    ensures
        ({
            let p = v.request_after(owner, r);
            &&& p.len() == 144
            &&& p[0] == 144
            &&& p.subrange(32, 48) == c.subrange(66, 82)
            &&& v.owned(owner, r, now) == v.confirmed(r).sent(p, now)
        }),
{
    request_with_identifier(v.confirmed(r), c.subrange(66, 82));
}

proof fn request_with_identifier(w: ControlView, id: Seq<u8>)
    requires
        w.auth_id.len() == 6,
        id.len() == 16,
    ensures
        w.serial_audio(id).len() == 144,
        w.serial_audio(id)[0] == 144,
        w.serial_audio(id).subrange(32, 48) == id,
{
    crate::rsba1::control::layout_of_the_serial_request(w, id);
    let p = w.serial_audio(id);
    assert(p[0] == p.take(4)[0]);
}

/// What is told while the outcome is open: success when the serial stream is open; the refusal or
/// the absence of the radio as an authentication that failed; nothing for any other packet.
pub proof fn what_the_owner_tells(
    owner: OwnerView,
    r: Seq<u8>,
    s: Option<Result<(), BridgeError>>,
)
    requires
        owner.pending,
        is_signal(owner, r, s),
    ensures
        is_serial_open(r) ==> s matches Some(Ok(_)),
        is_auth_refused(r) ==> (s matches Some(Err(BridgeError::AuthFailed(why))) && why@
            == "refus de la radio (essayer de redémarrer l'IC-705)"@),
        is_radio_gone(r) ==> (s matches Some(Err(BridgeError::AuthFailed(why))) && why@
            == "radio déconnectée"@),
        !is_serial_open(r) && !is_auth_refused(r) && !is_radio_gone(r) ==> s is None,
{
    replies_are_told_apart_by_their_bytes(r);
}

/// Nothing but the request and the confirmation of the radio changes the control stream.
pub proof fn without_a_request_only_the_confirmation_counts(
    v: ControlView,
    owner: OwnerView,
    r: Seq<u8>,
    now: u64,
)
    requires
        !owner.requests(r),
    ensures
        v.owned(owner, r, now) == v.confirmed(r),
        !is_serial_open(r) ==> v.owned(owner, r, now) == v,
{
}

} // verus!
