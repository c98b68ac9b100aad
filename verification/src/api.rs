//! The local HTTP API (127.0.0.1, on a port of the user's choice).
//!
//! - `GET /status`: the state of the connection;
//! - `POST /civ` with `{ "frame": "FE FE A4 E0 03 FD" }`: `{ tx, response }`;
//! - `GET /stream`: server-sent events, one received CI-V frame (hexadecimal) each;
//! - `GET /`: short help.

use vstd::prelude::*;

use crate::commands;
use crate::commands::civ_result;
use crate::commands::CivResult;
use crate::error::BridgeError;
use crate::state::AppState;
use crate::state::AppView;
use crate::state::API_HOST;
use crate::state::DEFAULT_API_PORT;
use crate::text;
use crate::text::parse_u16;
use crate::text::to_decimal;
use crate::util;
use crate::util::parse_hex;
use crate::util::to_hex;

verus! {

/// Lowest port accepted for the API: those below are privileged.
pub const MIN_API_PORT: u16 = 1024;

/// Header required on the sensitive paths.
pub const AUTH_HEADER: &'static str = "x-ic705-bridge";

pub const STATUS_BAD_REQUEST: u16 = 400;

pub const STATUS_FORBIDDEN: u16 = 403;

pub const STATUS_INTERNAL_SERVER_ERROR: u16 = 500;

pub const STATUS_SERVICE_UNAVAILABLE: u16 = 503;

pub const STATUS_GATEWAY_TIMEOUT: u16 = 504;

/// A server that runs.
#[derive(Clone, Copy, PartialEq, Eq, Structural, Debug)]
pub struct RunningApi {
    pub generation: u64,
    pub port: u16,
}

/// Drives the HTTP server, and lets its port change while the application runs.
pub struct ApiServerManager {
    /// Number of the server started last.
    pub generation: u64,
    pub current: Option<RunningApi>,
}

/// The number after `generation`.
pub open spec fn next_generation(generation: u64) -> u64 {
    if generation == u64::MAX {
        0
    } else {
        (generation + 1) as u64
    }
}

impl ApiServerManager {
    /// Whether a server is to be started on `port`: not if there is one on that port, nor, when
    /// `only_if_absent`, if there is any.
    pub open spec fn starts(self, port: u16, only_if_absent: bool) -> bool {
        match self.current {
            None => true,
            Some(api) => !only_if_absent && api.port != port,
        }
    }

    /// The manager once a server runs on `port`.
    pub open spec fn started(self, port: u16) -> ApiServerManager {
        let generation = next_generation(self.generation);
        ApiServerManager { generation, current: Some(RunningApi { generation, port }) }
    }

    /// Whether the server `generation` is the current one.
    pub open spec fn is_current(self, generation: u64) -> bool {
        self.current matches Some(api) && api.generation == generation
    }

    /// The manager once the server `generation` has stopped.
    pub open spec fn stopped(self, generation: u64) -> ApiServerManager {
        if self.is_current(generation) {
            ApiServerManager { current: None, ..self }
        } else {
            self
        }
    }
}

impl Default for ApiServerManager {
    fn default() -> (manager: Self)
        ensures
            manager.generation == 0,
            manager.current is None,
    {
        ApiServerManager { generation: 0, current: None }
    }
}

impl ApiServerManager {
    fn start(&self, port: u16, only_if_absent: bool) -> (b: bool)
        ensures
            b == self.starts(port, only_if_absent),
    {
        match self.current {
            None => true,
            Some(api) => !only_if_absent && api.port != port,
        }
    }

    /// The port to listen on when the application starts: the standard one, unless a server runs
    /// already.
    pub fn ensure_started(&self) -> (port: Option<u16>)
        ensures
            port == (if self.starts(DEFAULT_API_PORT, true) {
                Some(DEFAULT_API_PORT)
            } else {
                None
            }),
    {
        if self.start(DEFAULT_API_PORT, true) {
            Some(DEFAULT_API_PORT)
        } else {
            None
        }
    }

    /// The port to listen on when the user wants the API on `port`: none if it is there already, an
    /// error if the port is refused. The server that runs goes on until the new one is bound.
    pub fn set_port(&self, port: u16) -> (r: Result<Option<u16>, BridgeError>)
        ensures
            if port < MIN_API_PORT {
                r matches Err(e) && is_port_refusal(e)
            } else {
                r matches Ok(to_bind) && to_bind == (if self.starts(port, false) {
                    Some(port)
                } else {
                    None
                })
            },
    {
        match validate_api_port(port) {
            Err(e) => Err(e),
            Ok(_) => if self.start(port, false) {
                Ok(Some(port))
            } else {
                Ok(None)
            },
        }
    }

    /// The new server listens on `port`. Returns its number, and the server that it replaces, which
    /// is to be stopped.
    pub fn bound(&mut self, state: &mut AppState, port: u16) -> (r: (u64, Option<RunningApi>))
        ensures
            r.0 == next_generation(old(self).generation),
            r.1 == old(self).current,
            *final(self) == old(self).started(port),
            final(state)@ == (AppView {
                status: old(state)@.status.api_at(port, true),
                ..old(state)@
            }),
    {
        self.generation = if self.generation == u64::MAX {
            0
        } else {
            self.generation + 1
        };
        let generation: u64 = self.generation;
        let previous = self.current;
        self.current = Some(RunningApi { generation, port });
        state.set_api_endpoint(port, true);
        (generation, previous)
    }

    /// The server `generation`, on `port`, has stopped.
    pub fn on_stopped(&mut self, state: &mut AppState, generation: u64, port: u16)
        ensures
            *final(self) == old(self).stopped(generation),
            final(state)@ == (if old(self).is_current(generation) {
                AppView { status: old(state)@.status.api_stopped(port), ..old(state)@ }
            } else {
                old(state)@
            }),
    {
        let current = match self.current {
            Some(api) => api.generation == generation,
            None => false,
        };
        if current {
            self.current = None;
            state.set_api_stopped_if_port(port);
        }
    }
}

/// The error for a port on which the API cannot listen. `error` is the reason that the system gives.
pub fn bind_error(port: u16, error: &str) -> (e: BridgeError)
    ensures
        e matches BridgeError::Protocol(why) && why@ == "port API local "@ + text::decimal(
            port as nat,
        ) + " indisponible sur "@ + API_HOST@ + " : "@ + error@,
{
    let number = to_decimal(port as u64);
    BridgeError::Protocol(
        "port API local ".to_owned().concat(number.as_str()).concat(" indisponible sur ").concat(
            API_HOST,
        ).concat(" : ").concat(error),
    )
}

/// Whether `e` says that a port is refused.
pub open spec fn is_port_refusal(e: BridgeError) -> bool {
    e matches BridgeError::Protocol(why) && why@ == "le port API doit être compris entre "@
        + text::decimal(MIN_API_PORT as nat) + " et 65535"@
}

/// Refuses the privileged ports.
pub fn validate_api_port(port: u16) -> (r: Result<(), BridgeError>)
    ensures
        match r {
            Ok(_) => port >= MIN_API_PORT,
            Err(e) => port < MIN_API_PORT && is_port_refusal(e),
        },
{
    if port < MIN_API_PORT {
        let number = to_decimal(MIN_API_PORT as u64);
        return Err(
            BridgeError::Protocol(
                "le port API doit être compris entre ".to_owned().concat(number.as_str()).concat(
                    " et 65535",
                ),
            ),
        );
    }
    Ok(())
}

/// An error, as the API tells it.
#[derive(Debug)]
pub struct ApiError {
    pub error: String,
}

/// An error with its HTTP status.
pub fn err(code: u16, msg: &str) -> (r: (u16, ApiError))
    ensures
        r.0 == code,
        r.1.error@ == msg@,
{
    (code, ApiError { error: msg.to_owned() })
}

/// The HTTP status of an error.
pub open spec fn status_of(e: BridgeError) -> u16 {
    match e {
        BridgeError::InvalidFrame(_) => 400,
        BridgeError::Protocol(_) => 400,
        BridgeError::NotConnected => 503,
        BridgeError::Timeout(_) => 504,
        BridgeError::Io(_) => 500,
        BridgeError::InvalidCredentials => 500,
        BridgeError::AuthFailed(_) => 500,
    }
}

/// Whether `r` tells the error `e`: its status, and its message.
pub open spec fn tells(e: BridgeError, r: (u16, ApiError)) -> bool {
    &&& r.0 == status_of(e)
    &&& exists|io: Seq<char>| r.1.error@ == #[trigger] e.message(io)
    &&& !(e is Io) ==> r.1.error@ == e.message(Seq::empty())
}

/// An error of the bridge, as the API tells it.
pub fn bridge_err(e: BridgeError) -> (r: (u16, ApiError))
    ensures
        tells(e, r),
{
    let code: u16 = match &e {
        BridgeError::InvalidFrame(_) => STATUS_BAD_REQUEST,
        BridgeError::Protocol(_) => STATUS_BAD_REQUEST,
        BridgeError::NotConnected => STATUS_SERVICE_UNAVAILABLE,
        BridgeError::Timeout(_) => STATUS_GATEWAY_TIMEOUT,
        BridgeError::Io(_) => STATUS_INTERNAL_SERVER_ERROR,
        BridgeError::InvalidCredentials => STATUS_INTERNAL_SERVER_ERROR,
        BridgeError::AuthFailed(_) => STATUS_INTERNAL_SERVER_ERROR,
    };
    let message = e.to_string();
    err(code, message.as_str())
}

/// Whether `host` is `name`, or `name` followed by a colon and a port other than 0.
pub open spec fn names_host(name: Seq<char>, host: Seq<char>) -> bool {
    ||| host == name
    ||| {
        &&& name.push(':').is_prefix_of(host)
        &&& text::u16_text(host.skip(name.len() as int + 1)) matches Some(port)
        &&& port != 0
    }
}

/// Whether the header `Host` is that of the local machine.
pub open spec fn is_local(host: Seq<char>) -> bool {
    names_host("127.0.0.1"@, host) || names_host("localhost"@, host)
}

/// Whether `host` is `name`, alone or with a port.
fn host_is(name: &str, host: &str) -> (b: bool)
    ensures
        b == names_host(name@, host@),
{
    let n = text::chars_of(name);
    let h = text::chars_of(host);
    if h.len() < n.len() {
        return false;
    }
    let mut i: usize = 0;
    while i < n.len()
        invariant
            i <= n.len() <= h.len(),
            n@ == name@,
            h@ == host@,
            forall|k: int| 0 <= k < i ==> n@[k] == #[trigger] h@[k],
        decreases n.len() - i,
    {
        if n[i] != h[i] {
            assert(name@.push(':')[i as int] == n@[i as int]);
            return false;
        }
        i = i + 1;
    }
    if h.len() == n.len() {
        assert(host@ =~= name@);
        return true;
    }
    if h[n.len()] != ':' {
        assert(name@.push(':')[n@.len() as int] == ':');
        return false;
    }
    assert(name@.push(':').is_prefix_of(host@)) by {
        assert(host@.take(n@.len() as int + 1) =~= name@.push(':'));
    }
    let rest = host.substring_char(n.len() + 1, h.len());
    assert(rest@ =~= host@.skip(name@.len() as int + 1));
    match parse_u16(rest) {
        Some(port) => port != 0,
        None => false,
    }
}

/// Whether the header `Host` is that of the local machine.
pub fn is_allowed_local_host(host: &str) -> (b: bool)
    ensures
        b == is_local(host@),
{
    host_is("127.0.0.1", host) || host_is("localhost", host)
}

/// Whether the path gives access to the radio.
pub open spec fn is_sensitive(path: Seq<char>) -> bool {
    path == "/civ"@ || path == "/stream"@
}

/// Why a request is refused before it is dealt with, if it is: its `Host` header must be that of
/// the local machine, and the sensitive paths need the header `X-IC705-Bridge`.
pub open spec fn refusal(
    host: Option<Seq<char>>,
    path: Seq<char>,
    has_header: bool,
) -> Option<Seq<char>> {
    if !(host matches Some(h) && is_local(h)) {
        Some("hôte non autorisé"@)
    } else if is_sensitive(path) && !has_header {
        Some("en-tête X-IC705-Bridge requis (utilisez la librairie Python)"@)
    } else {
        None
    }
}

/// Lets a request through, or refuses it. `host` is the header `Host`, if the request has a readable
/// one; `has_header` says whether it has the header [`AUTH_HEADER`].
///
/// A web page can reach a server on the local machine through a name that resolves to it: hence the
/// check of the host. A browser cannot add the other header without the consent of the server.
pub fn guard_local_host(host: Option<&str>, path: &str, has_header: bool) -> (r: Result<
    (),
    (u16, ApiError),
>)
    ensures
        ({
            let h = match host {
                Some(h) => Some(h@),
                None => None,
            };
            match r {
                Ok(_) => refusal(h, path@, has_header) is None,
                Err(e) => e.0 == STATUS_FORBIDDEN && refusal(h, path@, has_header) == Some(
                    e.1.error@,
                ),
            }
        }),
{
    let allowed = match host {
        Some(h) => is_allowed_local_host(h),
        None => false,
    };
    if !allowed {
        return Err(err(STATUS_FORBIDDEN, "hôte non autorisé"));
    }
    let sensitive = text::same_text(path, "/civ") || text::same_text(path, "/stream");
    if sensitive && !has_header {
        return Err(
            err(
                STATUS_FORBIDDEN,
                "en-tête X-IC705-Bridge requis (utilisez la librairie Python)",
            ),
        );
    }
    Ok(())
}

/// Short help.
pub const INDEX: &'static str = "IC705 Bridge — API locale\n\n\
     GET  /status        -> état de la connexion\n\
     POST /civ {frame}   -> envoi d'une trame CI-V hex, renvoie {tx, response}\n\
     GET  /stream        -> flux SSE des trames CI-V reçues (une trame hex par événement)\n";

/// Whether `r` says that no session is active.
pub open spec fn is_unavailable(r: (u16, ApiError)) -> bool {
    r.0 == STATUS_SERVICE_UNAVAILABLE && r.1.error@ == "non connecté à l'IC-705"@
}

/// `POST /civ` with the frame `frame`: the session to use and the bytes to send, or the error to
/// answer.
pub fn civ_handler(state: &AppState, frame: &str) -> (r: Result<(u64, Vec<u8>), (u16, ApiError)>)
    ensures
        match util::hex_reading(frame@) {
            Err(why) => {
                &&& r matches Err(e)
                &&& e.0 == STATUS_BAD_REQUEST
                &&& e.1.error@ == "trame CI-V invalide : "@ + why
            },
            Ok(bytes) => match state@.session {
                None => r matches Err(e) && is_unavailable(e),
                Some(id) => r matches Ok(request) && request.0 == id && request.1@ == bytes,
            },
        },
{
    match parse_hex(frame) {
        Err(e) => {
            let message = e.to_string();
            Err(err(STATUS_BAD_REQUEST, message.as_str()))
        },
        Ok(bytes) => match state.session {
            None => Err(err(STATUS_SERVICE_UNAVAILABLE, "non connecté à l'IC-705")),
            Some(id) => Ok((id, bytes)),
        },
    }
}

/// `POST /civ`, once the exchange of the frame `tx` has ended with `outcome`.
pub fn civ_reply(tx: &[u8], outcome: Result<Vec<u8>, BridgeError>) -> (r: Result<
    CivResult,
    (u16, ApiError),
>)
    ensures
        match outcome {
            Ok(response) => r matches Ok(result) && commands::is_civ_result(
                tx@,
                response@,
                result,
            ),
            Err(e) => r matches Err(told) && tells(e, told),
        },
{
    match outcome {
        Ok(response) => Ok(civ_result(tx, response.as_slice())),
        Err(e) => Err(bridge_err(e)),
    }
}

/// `GET /stream`: the session whose frames are to be streamed, or the error to answer.
pub fn stream_handler(state: &AppState) -> (r: Result<u64, (u16, ApiError)>)
    ensures
        match state@.session {
            None => r matches Err(e) && is_unavailable(e),
            Some(id) => r == Ok::<u64, (u16, ApiError)>(id),
        },
{
    match state.session {
        None => Err(err(STATUS_SERVICE_UNAVAILABLE, "non connecté à l'IC-705")),
        Some(id) => Ok(id),
    }
}

/// The event that tells a received frame on the stream. Frames that were missed because the client
/// did not keep up are skipped.
pub fn stream_event(frame: Option<&[u8]>) -> (event: Option<String>)
    ensures
        match frame {
            Some(f) => event matches Some(text) && text@ == util::hex_text(f@),
            None => event is None,
        },
{
    match frame {
        Some(f) => Some(to_hex(f)),
        None => None,
    }
}

/// A request for another host is refused, whatever its path and its headers.
pub proof fn other_hosts_are_refused(host: Seq<char>, path: Seq<char>, has_header: bool)
    requires
        !is_local(host),
    ensures
        refusal(Some(host), path, has_header) is Some,
        refusal(None, path, has_header) is Some,
{
}

/// The radio cannot be reached without the header `X-IC705-Bridge`; the state can.
pub proof fn the_radio_needs_the_header(host: Seq<char>, path: Seq<char>)
    requires
        is_local(host),
    ensures
        is_sensitive(path) <==> refusal(Some(host), path, false) is Some,
        refusal(Some(host), path, true) is None,
{
}

/// The API can be reached on the local machine whatever its port is.
pub proof fn every_local_port_is_allowed(port: u16)
    requires
        port != 0,
    ensures
        is_local("127.0.0.1:"@ + text::decimal(port as nat)),
        is_local("localhost:"@ + text::decimal(port as nat)),
        is_local("127.0.0.1"@),
        is_local("localhost"@),
{
    let digits = text::decimal(port as nat);
    text::reading_a_number_undoes_writing_it(port);
    reveal_strlit("127.0.0.1");
    reveal_strlit("127.0.0.1:");
    reveal_strlit("localhost");
    reveal_strlit("localhost:");
    let (a, b) = ("127.0.0.1:"@ + digits, "localhost:"@ + digits);
    assert("127.0.0.1"@.push(':') =~= "127.0.0.1:"@);
    assert("localhost"@.push(':') =~= "localhost:"@);
    assert(a.take("127.0.0.1:"@.len() as int) =~= "127.0.0.1:"@);
    assert(b.take("localhost:"@.len() as int) =~= "localhost:"@);
    assert(a.skip("127.0.0.1"@.len() as int + 1) =~= digits);
    assert(b.skip("localhost"@.len() as int + 1) =~= digits);
}

/// Whether the state tells of the API what the manager knows: that it runs on the port of the
/// current server, or that it does not run.
pub open spec fn in_step(manager: ApiServerManager, app: AppView) -> bool {
    match manager.current {
        Some(api) => app.status.api_running && app.status.api_port == api.port,
        None => !app.status.api_running,
    }
}

/// The state always tells where the API is: so it does at the start, when a server is bound, and
/// when one stops, be it the current one or one that has been replaced.
pub proof fn the_state_tells_where_the_api_is(
    manager: ApiServerManager,
    app: AppView,
    port: u16,
    stopped: RunningApi,
)
    requires
        in_step(manager, app),
    ensures
        in_step(ApiServerManager { generation: 0, current: None }, AppView::initial()),
        in_step(
            manager.started(port),
            AppView { status: app.status.api_at(port, true), ..app },
        ),
        manager.current == Some(stopped) ==> in_step(
            manager.stopped(stopped.generation),
            AppView { status: app.status.api_stopped(stopped.port), ..app },
        ),
        !manager.is_current(stopped.generation) ==> manager.stopped(stopped.generation) == manager,
{
}

/// The end of a server that has been replaced changes nothing.
pub proof fn a_replaced_server_stops_unnoticed(manager: ApiServerManager, port: u16)
    requires
        manager.current matches Some(api) && api.generation == manager.generation,
    ensures
        !manager.started(port).is_current(manager.generation),
        manager.started(port).stopped(manager.generation) == manager.started(port),
        manager.started(port).current matches Some(api) && api.generation == manager.started(
            port,
        ).generation,
{
}

/// A host is local only if it is `127.0.0.1` or `localhost`, or one of them, a colon, and a number
/// other than 0 in digits, with or without a plus sign.
pub proof fn what_a_local_host_looks_like(host: Seq<char>)
    requires
        is_local(host),
        host != "127.0.0.1"@,
        host != "localhost"@,
    ensures
        "127.0.0.1:"@.is_prefix_of(host) || "localhost:"@.is_prefix_of(host),
        host.last() != ':',
        text::is_digit(host.last()),
        exists|k: int|
            #![trigger host.skip(k)]
            0 < k < host.len() && (host[k - 1] == ':' || host[k - 1] == '+') && text::all_digits(
                host.skip(k),
            ) && 0 < text::digits_value(host.skip(k)) <= 65535,
{
    reveal_strlit("127.0.0.1");
    reveal_strlit("127.0.0.1:");
    reveal_strlit("localhost");
    reveal_strlit("localhost:");
    assert("127.0.0.1"@.push(':') =~= "127.0.0.1:"@);
    assert("localhost"@.push(':') =~= "localhost:"@);
    let n: int = 10;
    let name = if names_host("127.0.0.1"@, host) {
        "127.0.0.1"@
    } else {
        "localhost"@
    };
    assert(name.len() == 9);
    assert(host.take(n)[9] == name.push(':')[9]);
    assert(host[9] == ':');
    let rest = host.skip(n);
    if rest[0] == '+' {
        assert(rest.drop_first() =~= host.skip(n + 1));
        let digits = host.skip(n + 1);
        assert(text::is_digit(digits[digits.len() - 1]));
        assert(host[n + 1 - 1] == '+');
    } else {
        assert(text::is_digit(rest[rest.len() - 1]));
        assert(host[n - 1] == ':');
    }
}

/// Why requests are refused, for every one of them: without a local host, always; with one, only on
/// `/civ` and `/stream`, and only without the header.
pub proof fn why_requests_are_refused(host: Option<Seq<char>>, path: Seq<char>, has_header: bool)
    ensures
        ({
            let local = host is Some && is_local(host->0);
            let radio = path == "/civ"@ || path == "/stream"@;
            &&& !local ==> refusal(host, path, has_header) == Some("hôte non autorisé"@)
            &&& local && radio && !has_header ==> refusal(host, path, has_header) == Some(
                "en-tête X-IC705-Bridge requis (utilisez la librairie Python)"@,
            )
            &&& local && (!radio || has_header) ==> refusal(host, path, has_header) is None
        }),
{
}

/// The HTTP status of each kind of error: 400 for what the caller got wrong, 503 without a session,
/// 504 for a radio that does not answer, 500 for the rest.
pub proof fn the_status_of_each_error(e: BridgeError)
    ensures
        e is InvalidFrame || e is Protocol <==> status_of(e) == 400,
        e is NotConnected <==> status_of(e) == 503,
        e is Timeout <==> status_of(e) == 504,
        e is Io || e is InvalidCredentials || e is AuthFailed <==> status_of(e) == 500,
{
}

/// When a server is started: always if there is none; if there is one, only to move it to another
/// port on request.
pub proof fn when_a_server_is_started(manager: ApiServerManager, port: u16, only_if_absent: bool)
    ensures
        manager.current is None ==> manager.starts(port, only_if_absent),
        manager.current matches Some(api) ==> (manager.starts(port, only_if_absent) <==> port
            != api.port && !only_if_absent),
{
}

/// The server that starts has the next number and the port given, and becomes the current one. The
/// end of the current one leaves none; the end of any other changes nothing.
pub proof fn servers_are_numbered_in_turn(manager: ApiServerManager, port: u16, generation: u64)
    requires
        manager.generation < u64::MAX,
    ensures
        manager.started(port).generation == manager.generation + 1,
        manager.started(port).current == Some(
            RunningApi { generation: (manager.generation + 1) as u64, port },
        ),
        manager.current matches Some(api) ==> (if api.generation == generation {
            manager.stopped(generation).current is None
        } else {
            manager.stopped(generation) == manager
        }),
        manager.current is None ==> manager.stopped(generation) == manager,
        manager.stopped(generation).generation == manager.generation,
{
}

/// What the API answers to an error: its status, and its message as it is told anywhere else.
pub proof fn errors_are_answered_as_they_are(e: BridgeError, r: (u16, ApiError))
    requires
        tells(e, r),
        !(e is Io),
    ensures
        e is InvalidFrame || e is Protocol ==> r.0 == 400,
        e is NotConnected ==> r.0 == 503 && r.1.error@ == "non connecté à l'IC-705"@,
        e is Timeout ==> r.0 == 504,
        e is InvalidCredentials || e is AuthFailed ==> r.0 == 500,
        e matches BridgeError::Timeout(s) ==> r.1.error@ == "délai dépassé : "@ + s@,
        e matches BridgeError::InvalidFrame(s) ==> r.1.error@ == "trame CI-V invalide : "@ + s@,
        e matches BridgeError::Protocol(s) ==> r.1.error@ == "erreur de protocole : "@ + s@,
{
}

/// Without a session, the API answers what the error for it says.
pub proof fn no_session_is_told_alike_everywhere(r: (u16, ApiError))
    ensures
        is_unavailable(r) <==> r.0 == 503 && r.1.error@ == "non connecté à l'IC-705"@,
        is_unavailable(r) <==> tells(BridgeError::NotConnected, r),
{
    let e = BridgeError::NotConnected;
    assert(e.message(Seq::empty()) == "non connecté à l'IC-705"@);
}

/// The numbers of the servers start over after the last one.
pub proof fn server_numbers_start_over(manager: ApiServerManager, port: u16)
    requires
        manager.generation == u64::MAX,
    ensures
        manager.started(port).generation == 0,
        manager.started(port).current == Some(RunningApi { generation: 0, port }),
{
}

/// The refusal of a port says which ones are accepted.
pub proof fn refused_ports_are_told_the_range(e: BridgeError)
    requires
        is_port_refusal(e),
    ensures
        e matches BridgeError::Protocol(why) && why@
            == "le port API doit être compris entre 1024 et 65535"@,
{
    reveal_strlit("le port API doit être compris entre ");
    reveal_strlit(" et 65535");
    reveal_strlit("le port API doit être compris entre 1024 et 65535");
    text::digits_follow_one_another(102, 4);
    text::digits_follow_one_another(10, 2);
    text::digits_follow_one_another(1, 0);
    text::digits_follow_one_another(0, 1);
    if let BridgeError::Protocol(why) = e {
        assert(text::decimal(1024) =~= seq!['1', '0', '2', '4']);
        assert(why@ =~= "le port API doit être compris entre 1024 et 65535"@);
    }
}

} // verus!
