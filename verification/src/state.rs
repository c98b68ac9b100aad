//! State of the application, shared by the commands of the user and the local HTTP API.

use vstd::prelude::*;

use crate::session::ConnState;
use crate::text;
use crate::text::to_decimal;

verus! {

/// Address on which the local HTTP API listens.
pub const API_HOST: &'static str = "127.0.0.1";

/// Standard port of the local HTTP API.
pub const DEFAULT_API_PORT: u16 = 8765;

/// How long the disconnection may take when the application is closed: 2 s.
pub const SHUTDOWN_DISCONNECT_TIMEOUT: u64 = 2_000_000_000;

/// What is told of the state of the application.
#[derive(Debug)]
pub struct StatusSnapshot {
    pub state: ConnState,
    pub message: String,
    pub host: Option<String>,
    pub api_running: bool,
    pub api_port: u16,
    pub api_url: String,
}

/// Current state.
pub struct StatusInfo {
    pub state: ConnState,
    pub message: String,
    pub host: Option<String>,
    pub api_running: bool,
    pub api_port: u16,
}

/// What a `StatusInfo` stands for.
#[verifier::ext_equal]
pub struct StatusView {
    pub state: ConnState,
    pub message: Seq<char>,
    pub host: Option<Seq<char>>,
    pub api_running: bool,
    pub api_port: u16,
}

/// The characters of an optional text.
pub open spec fn optional_text(s: Option<String>) -> Option<Seq<char>> {
    match s {
        Some(s) => Some(s@),
        None => None,
    }
}

impl View for StatusInfo {
    type V = StatusView;

    open spec fn view(&self) -> StatusView {
        StatusView {
            state: self.state,
            message: self.message@,
            host: optional_text(self.host),
            api_running: self.api_running,
            api_port: self.api_port,
        }
    }
}

impl StatusView {
    /// The state in which the application starts.
    pub open spec fn initial() -> StatusView {
        StatusView {
            state: ConnState::Disconnected,
            message: "Déconnecté"@,
            host: None,
            api_running: false,
            api_port: DEFAULT_API_PORT,
        }
    }

    /// The state with a new connection state and message. A host is kept until another one replaces
    /// it; none is left when the connection is closed.
    pub open spec fn set(
        self,
        state: ConnState,
        message: Seq<char>,
        host: Option<Seq<char>>,
    ) -> StatusView {
        StatusView {
            state,
            message,
            host: if state == ConnState::Disconnected {
                None
            } else if host is Some {
                host
            } else {
                self.host
            },
            ..self
        }
    }

    /// The state with the API on `port`.
    pub open spec fn api_at(self, port: u16, running: bool) -> StatusView {
        StatusView { api_port: port, api_running: running, ..self }
    }

    /// The state once the server on `port` has stopped.
    pub open spec fn api_stopped(self, port: u16) -> StatusView {
        if self.api_port == port {
            StatusView { api_running: false, ..self }
        } else {
            self
        }
    }

    /// The address of the local HTTP API.
    pub open spec fn api_url(self) -> Seq<char> {
        "http://"@ + API_HOST@ + ":"@ + text::decimal(self.api_port as nat)
    }
}

/// Whether `snap` tells the state `v`.
pub open spec fn is_snapshot(v: StatusView, snap: StatusSnapshot) -> bool {
    &&& snap.state == v.state
    &&& snap.message@ == v.message
    &&& optional_text(snap.host) == v.host
    &&& snap.api_running == v.api_running
    &&& snap.api_port == v.api_port
    &&& snap.api_url@ == v.api_url()
}

fn copy_optional(s: &Option<String>) -> (t: Option<String>)
    ensures
        optional_text(t) == optional_text(*s),
{
    match s {
        Some(s) => Some(s.as_str().to_owned()),
        None => None,
    }
}

impl Clone for StatusSnapshot {
    fn clone(&self) -> (copy: Self)
        ensures
            copy.state == self.state,
            copy.message@ == self.message@,
            optional_text(copy.host) == optional_text(self.host),
            copy.api_running == self.api_running,
            copy.api_port == self.api_port,
            copy.api_url@ == self.api_url@,
    {
        StatusSnapshot {
            state: self.state,
            message: self.message.as_str().to_owned(),
            host: copy_optional(&self.host),
            api_running: self.api_running,
            api_port: self.api_port,
            api_url: self.api_url.as_str().to_owned(),
        }
    }
}

impl StatusInfo {
    /// What is told of this state.
    pub fn snapshot(&self) -> (snap: StatusSnapshot)
        ensures
            is_snapshot(self@, snap),
    {
        let port = to_decimal(self.api_port as u64);
        StatusSnapshot {
            state: self.state,
            message: self.message.as_str().to_owned(),
            host: copy_optional(&self.host),
            api_running: self.api_running,
            api_port: self.api_port,
            api_url: "http://".to_owned().concat(API_HOST).concat(":").concat(port.as_str()),
        }
    }
}

/// State of the application. Sessions are known by number: each one that is opened gets the next.
pub struct AppState {
    /// The active session.
    pub session: Option<u64>,
    /// A connection is being made.
    pub connecting: bool,
    /// The disconnection that precedes the end of the application has been started.
    pub shutdown_started: bool,
    pub status: StatusInfo,
    /// Number of the next session.
    pub opened: u64,
}

/// What an `AppState` stands for.
#[verifier::ext_equal]
pub struct AppView {
    pub session: Option<u64>,
    pub connecting: bool,
    pub shutdown_started: bool,
    pub status: StatusView,
    pub opened: u64,
}

impl View for AppState {
    type V = AppView;

    open spec fn view(&self) -> AppView {
        AppView {
            session: self.session,
            connecting: self.connecting,
            shutdown_started: self.shutdown_started,
            status: self.status@,
            opened: self.opened,
        }
    }
}

impl AppView {
    /// The state in which the application starts.
    pub open spec fn initial() -> AppView {
        AppView {
            session: None,
            connecting: false,
            shutdown_started: false,
            status: StatusView::initial(),
            opened: 0,
        }
    }

    /// The state with a new connection state, message and host.
    pub open spec fn with_status(
        self,
        state: ConnState,
        message: Seq<char>,
        host: Option<Seq<char>>,
    ) -> AppView {
        AppView { status: self.status.set(state, message, host), ..self }
    }
}

impl AppState {
    /// The state in which the application starts.
    pub fn new() -> (state: AppState)
        ensures
            state@ == AppView::initial(),
    {
        let status = StatusInfo {
            state: ConnState::Disconnected,
            message: "Déconnecté".to_owned(),
            host: None,
            api_running: false,
            api_port: DEFAULT_API_PORT,
        };
        AppState { session: None, connecting: false, shutdown_started: false, status, opened: 0 }
    }

    /// What is told of the current state.
    pub fn snapshot(&self) -> (snap: StatusSnapshot)
        ensures
            is_snapshot(self@.status, snap),
    {
        self.status.snapshot()
    }

    /// Changes the state of the connection. Returns what is to be told of it.
    pub fn set_status(&mut self, state: ConnState, message: &str, host: Option<String>) -> (snap:
        StatusSnapshot)
        ensures
            final(self)@ == old(self)@.with_status(state, message@, optional_text(host)),
            is_snapshot(final(self)@.status, snap),
    {
        self.status.state = state;
        self.status.message = message.to_owned();
        if host.is_some() {
            self.status.host = host;
        }
        if state == ConnState::Disconnected {
            self.status.host = None;
        }
        self.status.snapshot()
    }

    /// Changes the port of the local HTTP API, and whether it runs.
    pub fn set_api_endpoint(&mut self, port: u16, running: bool)
        ensures
            final(self)@ == (AppView { status: old(self)@.status.api_at(port, running), ..old(self)@ }),
    {
        self.status.api_port = port;
        self.status.api_running = running;
    }

    /// The server on `port` has stopped: so has the API, if that is still its port.
    pub fn set_api_stopped_if_port(&mut self, port: u16)
        ensures
            final(self)@ == (AppView { status: old(self)@.status.api_stopped(port), ..old(self)@ }),
    {
        if self.status.api_port == port {
            self.status.api_running = false;
        }
    }
}

impl Default for AppState {
    fn default() -> (state: Self)
        ensures
            state@ == AppView::initial(),
    {
        Self::new()
    }
}

/// What a request to close the application leads to.
#[derive(Clone, Copy, PartialEq, Eq, Structural, Debug)]
pub enum Shutdown {
    /// There is nothing to clean up: the application may exit.
    Exit,
    /// A disconnection is already running and will end the application: wait for it.
    Wait,
    /// Disconnect, then end the application.
    Disconnect,
}

/// A way in which the application is asked to stop.
#[derive(Clone, Copy, PartialEq, Eq, Structural, Debug)]
pub enum ExitRequest {
    /// The window is closed.
    Window,
    /// The user quits the application.
    Quit,
    /// The application itself exits or restarts.
    Program,
}

impl AppView {
    /// What a request to close leads to. `free` says that the session could be looked at.
    pub open spec fn shutdown(self, free: bool) -> Shutdown {
        if self.shutdown_started {
            Shutdown::Wait
        } else if free && self.session is None {
            Shutdown::Exit
        } else {
            Shutdown::Disconnect
        }
    }

    /// The state after a request to close.
    pub open spec fn shut(self, free: bool) -> AppView {
        AppView { shutdown_started: self.shutdown(free) != Shutdown::Exit, ..self }
    }
}

impl AppState {
    /// A request to close the application. `free` says that the session can be looked at now, that
    /// is, that nobody else is changing it.
    pub fn begin_shutdown(&mut self, free: bool) -> (r: Shutdown)
        ensures
            r == old(self)@.shutdown(free),
            final(self)@ == old(self)@.shut(free),
    {
        if self.shutdown_started {
            return Shutdown::Wait;
        }
        if free && self.session.is_none() {
            return Shutdown::Exit;
        }
        self.shutdown_started = true;
        Shutdown::Disconnect
    }

    /// What a request to stop the application leads to. The application may always stop itself: it
    /// does so once the radio is disconnected.
    pub fn on_exit_request(&mut self, request: ExitRequest, free: bool) -> (r: Shutdown)
        ensures
            r == (if request == ExitRequest::Program {
                Shutdown::Exit
            } else {
                old(self)@.shutdown(free)
            }),
            final(self)@ == (if request == ExitRequest::Program {
                old(self)@
            } else {
                old(self)@.shut(free)
            }),
    {
        if request == ExitRequest::Program {
            Shutdown::Exit
        } else {
            self.begin_shutdown(free)
        }
    }

    /// Takes the active session, which is to be disconnected.
    pub fn take_session(&mut self) -> (session: Option<u64>)
        ensures
            session == old(self)@.session,
            final(self)@ == (AppView { session: None, ..old(self)@ }),
    {
        let session = self.session;
        self.session = None;
        session
    }
}

/// The application never exits while a session is active, unless it does so itself, and the
/// disconnection is started once: after the request that starts it, any other one waits.
pub proof fn the_radio_is_disconnected_once_before_the_exit(v: AppView, free: bool, again: bool)
    ensures
        v.session is Some ==> v.shutdown(free) != Shutdown::Exit,
        v.shutdown(free) == Shutdown::Disconnect ==> v.shut(free).shutdown(again)
            == Shutdown::Wait,
        v.shutdown(free) == Shutdown::Exit ==> v.shut(free) == v,
{
}

/// No host is shown when the connection is closed, and a host that is shown stays until another
/// one replaces it.
pub proof fn the_host_is_shown_while_connected(
    v: StatusView,
    state: ConnState,
    message: Seq<char>,
    host: Option<Seq<char>>,
)
    ensures
        state == ConnState::Disconnected ==> v.set(state, message, host).host is None,
        state != ConnState::Disconnected && host is Some ==> v.set(state, message, host).host
            == host,
        state != ConnState::Disconnected && host is None ==> v.set(state, message, host).host
            == v.host,
        v.set(state, message, host).api_running == v.api_running,
        v.set(state, message, host).api_port == v.api_port,
{
}

/// The state in which the application starts.
pub proof fn the_application_starts_disconnected()
    ensures
        AppView::initial().session is None,
        !AppView::initial().connecting,
        !AppView::initial().shutdown_started,
        AppView::initial().opened == 0,
        AppView::initial().status == (StatusView {
            state: ConnState::Disconnected,
            message: "Déconnecté"@,
            host: None,
            api_running: false,
            api_port: 8765,
        }),
{
}

/// A change of status changes the state, the message and the host that are shown, and nothing else.
pub proof fn a_change_of_status_is_shown(
    v: AppView,
    state: ConnState,
    message: Seq<char>,
    host: Option<Seq<char>>,
)
    ensures
        ({
            let w = v.with_status(state, message, host);
            &&& w.status.state == state
            &&& w.status.message == message
            &&& w.status.api_running == v.status.api_running
            &&& w.status.api_port == v.status.api_port
            &&& w.session == v.session
            &&& w.connecting == v.connecting
            &&& w.shutdown_started == v.shutdown_started
            &&& w.opened == v.opened
        }),
{
}

/// What a snapshot tells is what the state holds, and the address of the API: `http://127.0.0.1:`
/// and its port in base ten.
pub proof fn snapshots_tell_the_state(v: StatusView, snap: StatusSnapshot)
    requires
        is_snapshot(v, snap),
    ensures
        snap.state == v.state,
        snap.message@ == v.message,
        snap.host is Some <==> v.host is Some,
        snap.host matches Some(h) ==> v.host == Some(h@),
        snap.api_running == v.api_running,
        snap.api_port == v.api_port,
        snap.api_url@ == "http://127.0.0.1:"@ + text::decimal(v.api_port as nat),
{
    reveal_strlit("http://");
    reveal_strlit("127.0.0.1");
    reveal_strlit(":");
    reveal_strlit("http://127.0.0.1:");
    assert("http://"@ + API_HOST@ + ":"@ =~= "http://127.0.0.1:"@);
}

/// The API moves to the port given; when the server on a port stops, the API has stopped if that is
/// its port. Nothing else that is shown changes.
pub proof fn the_api_is_shown_where_it_is(v: StatusView, port: u16, running: bool)
    ensures
        v.api_at(port, running) == (StatusView { api_port: port, api_running: running, ..v }),
        v.api_port == port ==> v.api_stopped(port) == (StatusView { api_running: false, ..v }),
        v.api_port != port ==> v.api_stopped(port) == v,
{
}

/// A request to close waits for a disconnection that is running, lets the application exit if the
/// session can be seen to be none, and starts the disconnection otherwise. It changes nothing else.
pub proof fn how_a_request_to_close_is_met(v: AppView, free: bool)
    ensures
        v.shutdown_started ==> v.shutdown(free) == Shutdown::Wait,
        !v.shutdown_started && free && v.session is None ==> v.shutdown(free) == Shutdown::Exit,
        !v.shutdown_started && (!free || v.session is Some) ==> v.shutdown(free)
            == Shutdown::Disconnect,
        v.shut(free).shutdown_started <==> v.shutdown_started || !free || v.session is Some,
        v.shut(free) == (AppView { shutdown_started: v.shut(free).shutdown_started, ..v }),
{
}

} // verus!
