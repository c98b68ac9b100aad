//! The commands of the user: connect, disconnect, send a CI-V frame, read the state, change the
//! port of the local HTTP API.
//!
//! A command that waits for the network is made of several functions, called one after the other
//! with what came of the waiting in between.

use vstd::prelude::*;

use crate::api;
use crate::api::ApiServerManager;
use crate::error::BridgeError;
use crate::session::ConnState;
use crate::state;
use crate::state::AppState;
use crate::state::AppView;
use crate::state::StatusSnapshot;
use crate::state::StatusView;
use crate::text;
use crate::text::trim;
use crate::util;
use crate::util::parse_hex;
use crate::util::to_hex;

verus! {

/// Result of sending a CI-V frame: the frame sent and the response, in hexadecimal.
#[derive(Debug)]
pub struct CivResult {
    pub tx: String,
    pub response: String,
}

/// What a connection begins with.
pub struct Connecting {
    /// The host, without the white space around it.
    pub host: String,
    /// The session to disconnect first.
    pub previous: Option<u64>,
}

/// A connection that is refused before it begins.
pub struct Refused {
    pub error: BridgeError,
    /// What is to be told of it, if the state has changed.
    pub told: Option<StatusSnapshot>,
}

impl AppView {
    /// The state once a connection has begun: nobody else may begin one, and there is no session.
    pub open spec fn connection_begun(self) -> AppView {
        AppView { connecting: true, session: None, ..self }
    }

    /// The state once a connection to `host` has succeeded.
    pub open spec fn connection_made(self, host: Seq<char>) -> AppView {
        AppView {
            session: Some(self.opened),
            opened: if self.opened == u64::MAX {
                0
            } else {
                (self.opened + 1) as u64
            },
            connecting: false,
            ..self
        }.with_status(ConnState::CivReady, "Tunnel CI-V prêt"@, Some(host))
    }

    /// The state once a connection to `host` has failed with the message `why`.
    pub open spec fn connection_failed(self, host: Seq<char>, why: Seq<char>) -> AppView {
        AppView { connecting: false, ..self }.with_status(ConnState::Error, why, Some(host))
    }
}

/// The text of the error for a missing host.
pub open spec fn no_host() -> Seq<char> {
    "renseigner l'IP ou le nom de l'IC-705"@
}

/// Begins a connection to `host`. It is refused if there is no host, or if another one is being
/// made.
pub fn connect(state: &mut AppState, host: &str) -> (r: Result<Connecting, Refused>)
    ensures
        ({
            let name = text::trimmed(host@);
            if name.len() == 0 {
                &&& r matches Err(refused)
                &&& refused.error matches BridgeError::Protocol(why)
                &&& why@ == no_host()
                &&& refused.told matches Some(snap)
                &&& state::is_snapshot(final(state)@.status, snap)
                &&& final(state)@ == old(state)@.with_status(
                    ConnState::Error,
                    "erreur de protocole : "@ + no_host(),
                    None,
                )
            } else if old(state)@.connecting {
                &&& r matches Err(refused)
                &&& refused.error matches BridgeError::Protocol(why)
                &&& refused.told is None
                &&& why@ == "une connexion est déjà en cours"@
                &&& final(state)@ == old(state)@
            } else {
                &&& r matches Ok(begun)
                &&& begun.host@ == name
                &&& begun.previous == old(state)@.session
                &&& final(state)@ == old(state)@.connection_begun()
            }
        }),
{
    let name = trim(host);
    if name.as_str().is_empty() {
        let error = BridgeError::Protocol("renseigner l'IP ou le nom de l'IC-705".to_owned());
        let message = error.to_string();
        let snap = state.set_status(ConnState::Error, message.as_str(), None);
        return Err(Refused { error, told: Some(snap) });
    }
    if state.connecting {
        let error = BridgeError::Protocol("une connexion est déjà en cours".to_owned());
        return Err(Refused { error, told: None });
    }
    state.connecting = true;
    let previous = state.take_session();
    Ok(Connecting { host: name, previous })
}

/// The previous session is disconnected and the connection to `host` starts. Returns what is to be
/// told of it.
pub fn connect_started(state: &mut AppState, host: &str) -> (snap: StatusSnapshot)
    ensures
        final(state)@ == old(state)@.with_status(
            ConnState::Connecting,
            "Connexion à "@ + host@ + "…"@,
            Some(host@),
        ),
        state::is_snapshot(final(state)@.status, snap),
{
    let message = "Connexion à ".to_owned().concat(host).concat("…");
    state.set_status(ConnState::Connecting, message.as_str(), Some(host.to_owned()))
}

/// The connection to `host` has succeeded: it becomes the active session, whose number is returned
/// with what is to be told of it.
pub fn connect_succeeded(state: &mut AppState, host: &str) -> (r: (u64, StatusSnapshot))
    ensures
        r.0 == old(state)@.opened,
        final(state)@ == old(state)@.connection_made(host@),
        state::is_snapshot(final(state)@.status, r.1),
{
    let id: u64 = state.opened;
    state.session = Some(id);
    state.opened = if id == u64::MAX {
        0
    } else {
        id + 1
    };
    state.connecting = false;
    let snap = state.set_status(ConnState::CivReady, "Tunnel CI-V prêt", Some(host.to_owned()));
    (id, snap)
}

/// The connection to `host` has failed with `error`. Returns what is to be told of it.
pub fn connect_failed(state: &mut AppState, host: &str, error: &BridgeError) -> (snap:
    StatusSnapshot)
    ensures
        exists|io: Seq<char>|
            final(state)@ == old(state)@.connection_failed(host@, #[trigger] error.message(io)),
        !(error is Io) ==> final(state)@ == old(state)@.connection_failed(
            host@,
            error.message(Seq::empty()),
        ),
        state::is_snapshot(final(state)@.status, snap),
{
    state.connecting = false;
    let message = error.to_string();
    state.set_status(ConnState::Error, message.as_str(), Some(host.to_owned()))
}

/// The connection that was being made is given up without an outcome: another one may begin.
pub fn connect_abandoned(state: &mut AppState)
    ensures
        final(state)@ == (AppView { connecting: false, ..old(state)@ }),
{
    state.connecting = false;
}

/// The link of the session `id` is lost. Returns `true` if that session was still the active one:
/// it no longer is, and is to be disconnected. A newer session is left alone.
pub fn link_lost(state: &mut AppState, id: u64) -> (active: bool)
    ensures
        active == (old(state)@.session == Some(id)),
        final(state)@ == (if active {
            AppView { session: None, ..old(state)@ }
        } else {
            old(state)@
        }),
{
    match state.session {
        Some(s) => if s == id {
            state.session = None;
            true
        } else {
            false
        },
        None => false,
    }
}

/// The lost session is disconnected. Returns what is to be told of it.
pub fn link_lost_told(state: &mut AppState) -> (snap: StatusSnapshot)
    ensures
        final(state)@ == old(state)@.with_status(
            ConnState::Error,
            "Connexion radio perdue (radio éteinte ou Wi-Fi coupé ?)"@,
            None,
        ),
        state::is_snapshot(final(state)@.status, snap),
{
    state.set_status(
        ConnState::Error,
        "Connexion radio perdue (radio éteinte ou Wi-Fi coupé ?)",
        None,
    )
}

/// Takes the active session, which is to be disconnected.
pub fn disconnect(state: &mut AppState) -> (session: Option<u64>)
    ensures
        session == old(state)@.session,
        final(state)@ == (AppView { session: None, ..old(state)@ }),
{
    state.take_session()
}

/// The active session, if there was one, is disconnected. Returns what is to be told of it.
pub fn disconnected(state: &mut AppState) -> (snap: StatusSnapshot)
    ensures
        final(state)@ == old(state)@.with_status(ConnState::Disconnected, "Déconnecté"@, None),
        state::is_snapshot(final(state)@.status, snap),
{
    state.set_status(ConnState::Disconnected, "Déconnecté", None)
}

/// Whether sending `frame` in state `v` begins, or is refused, as it has to be: the frame is read
/// first, then a session is needed.
pub open spec fn is_civ_request(
    v: AppView,
    frame: Seq<char>,
    r: Result<(u64, Vec<u8>), BridgeError>,
) -> bool {
    match util::hex_reading(frame) {
        Err(why) => r matches Err(BridgeError::InvalidFrame(text)) && text@ == why,
        Ok(bytes) => match v.session {
            None => r matches Err(BridgeError::NotConnected),
            Some(id) => r matches Ok(request) && request.0 == id && request.1@ == bytes,
        },
    }
}

/// Begins to send the CI-V frame `frame`, written in hexadecimal: the session to use, and the bytes.
pub fn send_civ(state: &AppState, frame: &str) -> (r: Result<(u64, Vec<u8>), BridgeError>)
    ensures
        is_civ_request(state@, frame@, r),
{
    match parse_hex(frame) {
        Err(e) => Err(e),
        Ok(bytes) => match state.session {
            None => Err(BridgeError::NotConnected),
            Some(id) => Ok((id, bytes)),
        },
    }
}

/// Whether `result` tells the frame `tx` and the response `response`.
pub open spec fn is_civ_result(tx: Seq<u8>, response: Seq<u8>, result: CivResult) -> bool {
    result.tx@ == util::hex_text(tx) && result.response@ == util::hex_text(response)
}

/// The result of sending the frame `tx`, once the response has come.
pub fn civ_result(tx: &[u8], response: &[u8]) -> (result: CivResult)
    ensures
        is_civ_result(tx@, response@, result),
{
    CivResult { tx: to_hex(tx), response: to_hex(response) }
}

/// The current state.
pub fn get_status(state: &AppState) -> (snap: StatusSnapshot)
    ensures
        state::is_snapshot(state@.status, snap),
{
    state.snapshot()
}

/// Begins to move the local HTTP API to `port`: the port to listen on, none if it is there already.
/// Once the new server is bound, the state tells of it.
pub fn set_api_port(manager: &ApiServerManager, port: u16) -> (r: Result<
    Option<u16>,
    BridgeError,
>)
    ensures
        if port < api::MIN_API_PORT {
            r matches Err(e) && api::is_port_refusal(e)
        } else {
            r matches Ok(to_bind) && to_bind == (if manager.starts(port, false) {
                Some(port)
            } else {
                None
            })
        },
{
    manager.set_port(port)
}

impl AppView {
    /// Every session has a number that was given before.
    pub open spec fn sessions_numbered(self) -> bool {
        self.session matches Some(id) ==> id < self.opened
    }
}

/// One connection at a time: while one is being made, there is no session and another one cannot
/// begin.
pub proof fn one_connection_at_a_time(v: AppView, host: Seq<char>, why: Seq<char>)
    ensures
        v.connection_begun().connecting,
        v.connection_begun().session is None,
        !v.connection_made(host).connecting,
        v.connection_made(host).session == Some(v.opened),
        !v.connection_failed(host, why).connecting,
        v.connection_failed(host, why).session == v.session,
{
}

/// A newer session survives the loss of an older one: the number of a session is never that of the
/// one that replaces it.
pub proof fn a_newer_session_has_another_number(v: AppView, host: Seq<char>, older: u64)
    requires
        v.sessions_numbered(),
        v.session == Some(older) || older < v.opened,
        v.opened < u64::MAX,
    ensures
        v.connection_begun().connection_made(host).session != Some(older),
        v.connection_begun().connection_made(host).sessions_numbered(),
        older < v.connection_begun().connection_made(host).opened,
{
}

/// What the steps of a connection change: beginning takes the session and lets nobody else begin;
/// success makes the session that has the next number the active one; failure leaves none.
pub proof fn what_the_steps_of_a_connection_change(v: AppView, host: Seq<char>, why: Seq<char>)
    requires
        v.opened < u64::MAX,
    ensures
        v.connection_begun() == (AppView { connecting: true, session: None, ..v }),
        ({
            let w = v.connection_made(host);
            &&& w.session == Some(v.opened)
            &&& w.opened == v.opened + 1
            &&& !w.connecting
            &&& w.shutdown_started == v.shutdown_started
            &&& w.status == (StatusView {
                state: ConnState::CivReady,
                message: "Tunnel CI-V prêt"@,
                host: Some(host),
                ..v.status
            })
        }),
        ({
            let w = v.connection_failed(host, why);
            &&& w.session == v.session
            &&& w.opened == v.opened
            &&& !w.connecting
            &&& w.shutdown_started == v.shutdown_started
            &&& w.status == (StatusView {
                state: ConnState::Error,
                message: why,
                host: Some(host),
                ..v.status
            })
        }),
{
}

/// A frame is sent only if it can be read and if a session is active: it goes to that session, with
/// the bytes that were written. A frame that cannot be read is refused first.
pub proof fn frames_go_to_the_active_session(
    v: AppView,
    d: Seq<u8>,
    r: Result<(u64, Vec<u8>), BridgeError>,
)
    requires
        d.len() > 0,
        is_civ_request(v, util::hex_text(d), r),
    ensures
        v.session is None ==> r matches Err(BridgeError::NotConnected),
        v.session matches Some(id) ==> (r matches Ok(request) && request.0 == id && request.1@
            == d),
{
    util::reading_undoes_writing(d);
}

/// The result that is told can be read back: it holds the frame sent and the response.
pub proof fn results_can_be_read_back(tx: Seq<u8>, response: Seq<u8>, result: CivResult)
    requires
        is_civ_result(tx, response, result),
        tx.len() > 0,
        response.len() > 0,
    ensures
        util::hex_reading(result.tx@) == Ok::<Seq<u8>, Seq<char>>(tx),
        util::hex_reading(result.response@) == Ok::<Seq<u8>, Seq<char>>(response),
{
    util::reading_undoes_writing(tx);
    util::reading_undoes_writing(response);
}

/// A frame that cannot be read is refused with the reason, whether a session is active or not.
pub proof fn unreadable_frames_are_refused_first(
    v: AppView,
    frame: Seq<char>,
    r: Result<(u64, Vec<u8>), BridgeError>,
)
    requires
        util::hex_reading(frame) is Err,
        is_civ_request(v, frame, r),
    ensures
        r matches Err(BridgeError::InvalidFrame(why)) && util::hex_reading(frame) == Err::<
            Seq<u8>,
            Seq<char>,
        >(why@),
{
}

/// What is asked of the user when there is no host.
pub proof fn the_host_is_asked_for()
    ensures
        no_host() == "renseigner l'IP ou le nom de l'IC-705"@,
{
}

} // verus!
