use ic705_bridge::api::{
    bind_error, bridge_err, civ_handler, civ_reply, guard_local_host, is_allowed_local_host,
    stream_event, stream_handler, validate_api_port, ApiServerManager, RunningApi, AUTH_HEADER,
    INDEX, MIN_API_PORT,
};
use ic705_bridge::commands::{
    civ_result, connect, connect_abandoned, connect_failed, connect_started, connect_succeeded, disconnect,
    disconnected, get_status, link_lost, link_lost_told, send_civ, set_api_port,
};
use ic705_bridge::error::BridgeError;
use ic705_bridge::session::ConnState;
use ic705_bridge::state::{AppState, ExitRequest, Shutdown, API_HOST, DEFAULT_API_PORT};

#[test]
fn rejects_bad_host() {
    let r = guard_local_host(Some("evil.example.com"), "/status", false).unwrap_err();
    assert_eq!(r.0, 403);
    assert_eq!(r.1.error, "hôte non autorisé");
    assert_eq!(guard_local_host(None, "/status", true).unwrap_err().0, 403);
}

#[test]
fn allows_status_on_localhost_without_header() {
    let host = format!("{API_HOST}:{DEFAULT_API_PORT}");
    assert!(guard_local_host(Some(&host), "/status", false).is_ok());
}

#[test]
fn rejects_civ_without_auth_header() {
    let host = format!("{API_HOST}:{DEFAULT_API_PORT}");
    let r = guard_local_host(Some(&host), "/civ", false).unwrap_err();
    assert_eq!(r.0, 403);
    assert_eq!(
        r.1.error,
        "en-tête X-IC705-Bridge requis (utilisez la librairie Python)"
    );
    assert_eq!(AUTH_HEADER, "x-ic705-bridge");
}

#[test]
fn civ_with_header_passes_guard_then_503_not_connected() {
    assert!(guard_local_host(Some("localhost:8765"), "/civ", true).is_ok());
    let r = civ_handler(&AppState::new(), "FE FE A4 E0 03 FD").unwrap_err();
    assert_eq!(r.0, 503);
    assert_eq!(r.1.error, "non connecté à l'IC-705");
}

#[test]
fn rejects_stream_without_auth_header() {
    let host = format!("{API_HOST}:{DEFAULT_API_PORT}");
    assert_eq!(guard_local_host(Some(&host), "/stream", false).unwrap_err().0, 403);
    assert!(guard_local_host(Some(&host), "/stream", true).is_ok());
}

#[test]
fn civ_timeout_maps_to_gateway_timeout() {
    let (status, _) = bridge_err(BridgeError::Timeout("réponse CI-V".into()));
    assert_eq!(status, 504);
}

#[test]
fn accepts_configurable_loopback_ports_only() {
    assert!(is_allowed_local_host("127.0.0.1:19001"));
    assert!(is_allowed_local_host("localhost:65535"));
    assert!(!is_allowed_local_host("localhost.example:8765"));
    assert!(!is_allowed_local_host("127.0.0.1:not-a-port"));
}

#[test]
fn rejects_privileged_api_ports() {
    assert!(validate_api_port(MIN_API_PORT).is_ok());
    assert!(validate_api_port(MIN_API_PORT - 1).is_err());
}

#[test]
fn switches_api_port_without_restarting_the_app() {
    let mut state = AppState::new();
    let mut manager = ApiServerManager::default();
    let (first, second) = (19001, 19002);

    assert_eq!(manager.set_port(first).unwrap(), Some(first));
    let (old, replaced) = manager.bound(&mut state, first);
    assert_eq!(replaced, None);
    assert_eq!(state.snapshot().api_port, first);

    assert_eq!(manager.set_port(second).unwrap(), Some(second));
    let (new, replaced) = manager.bound(&mut state, second);
    assert_eq!(replaced, Some(RunningApi { generation: old, port: first }));
    assert_eq!(state.snapshot().api_port, second);
    assert!(state.snapshot().api_running);

    // The old server stops: the new one still runs.
    manager.on_stopped(&mut state, old, first);
    assert!(state.snapshot().api_running);
    manager.on_stopped(&mut state, new, second);
    assert!(!state.snapshot().api_running);
    assert_eq!(manager.current, None);
}

#[test]
fn other_hosts_and_paths() {
    for host in ["127.0.0.1", "localhost", "127.0.0.1:1", "localhost:+80", "localhost:00080"] {
        assert!(is_allowed_local_host(host), "{host}");
    }
    for host in [
        "", "127.0.0.1:", "localhost:0", "127.0.0.1:65536", "127.0.0.2", "LOCALHOST", "localhos",
        "127.0.0.1x", "[::1]:80",
    ] {
        assert!(!is_allowed_local_host(host), "{host}");
    }
    assert!(guard_local_host(Some("localhost"), "/", false).is_ok());
    assert!(guard_local_host(Some("localhost"), "/civ/", false).is_ok());
    for port in 1..=u16::MAX {
        assert!(is_allowed_local_host(&format!("127.0.0.1:{port}")));
    }
}

#[test]
fn http_status_of_every_error() {
    let io = std::io::Error::new(std::io::ErrorKind::Other, "x");
    let cases = vec![
        (BridgeError::Io(io), 500, "erreur réseau : x"),
        (BridgeError::Timeout("x".into()), 504, "délai dépassé : x"),
        (
            BridgeError::InvalidCredentials,
            500,
            "identifiants invalides (username / password refusés)",
        ),
        (BridgeError::AuthFailed("x".into()), 500, "authentification échouée : x"),
        (BridgeError::NotConnected, 503, "non connecté à l'IC-705"),
        (BridgeError::InvalidFrame("x".into()), 400, "trame CI-V invalide : x"),
        (BridgeError::Protocol("x".into()), 400, "erreur de protocole : x"),
    ];
    for (e, code, text) in cases {
        let (status, told) = bridge_err(e);
        assert_eq!(status, code);
        assert_eq!(told.error, text);
    }
}

#[test]
fn the_api_port() {
    let mut manager = ApiServerManager::default();
    let mut state = AppState::new();
    assert_eq!(
        set_api_port(&manager, 1023).unwrap_err().to_string(),
        "erreur de protocole : le port API doit être compris entre 1024 et 65535"
    );
    assert_eq!(manager.ensure_started(), Some(DEFAULT_API_PORT));
    manager.bound(&mut state, 9000);
    assert_eq!(manager.ensure_started(), None);
    assert_eq!(set_api_port(&manager, 9000).unwrap(), None);
    assert_eq!(set_api_port(&manager, 9001).unwrap(), Some(9001));
    assert_eq!(
        bind_error(9001, "occupé").to_string(),
        "erreur de protocole : port API local 9001 indisponible sur 127.0.0.1 : occupé"
    );
    manager.generation = u64::MAX;
    assert_eq!(manager.bound(&mut state, 9002).0, 0);
}

#[test]
fn frames_over_the_api() {
    let mut state = AppState::new();
    assert!(connect(&mut state, "radio").is_ok());
    let (id, _) = connect_succeeded(&mut state, "radio");
    let (session, bytes) = civ_handler(&state, "fe fd").unwrap();
    assert_eq!((session, bytes.clone()), (id, vec![0xFE, 0xFD]));
    let r = civ_handler(&state, "f").unwrap_err();
    assert_eq!(r.0, 400);
    assert_eq!(
        r.1.error,
        "trame CI-V invalide : nombre impair de chiffres hexadécimaux (1)"
    );
    let told = civ_reply(&bytes, Ok(vec![0xFB])).unwrap();
    assert_eq!((told.tx.as_str(), told.response.as_str()), ("FE FD", "FB"));
    let told = civ_reply(&bytes, Err(BridgeError::Timeout("x".into()))).unwrap_err();
    assert_eq!(told.0, 504);
    assert_eq!(stream_handler(&state).unwrap(), id);
    assert_eq!(stream_handler(&AppState::new()).unwrap_err().0, 503);
    assert_eq!(stream_event(Some(&[0x00, 0x0F])), Some("00 0F".to_string()));
    assert_eq!(stream_event(None), None);
    assert!(INDEX.starts_with("IC705 Bridge — API locale\n\nGET  /status        -> "));
    assert!(INDEX.ends_with("(une trame hex par événement)\n"));
}

#[test]
fn status_at_the_start() {
    let state = AppState::default();
    let snap = get_status(&state);
    assert_eq!(snap.state, ConnState::Disconnected);
    assert_eq!(snap.message, "Déconnecté");
    assert_eq!(snap.host, None);
    assert!(!snap.api_running);
    assert_eq!(snap.api_port, 8765);
    assert_eq!(snap.api_url, "http://127.0.0.1:8765");
    let copy = snap.clone();
    assert_eq!(copy.api_url, snap.api_url);
    assert_eq!(copy.message, snap.message);
}

#[test]
fn connection_commands() {
    let mut state = AppState::new();
    let refused = connect(&mut state, " \t").err().unwrap();
    assert_eq!(
        refused.error.to_string(),
        "erreur de protocole : renseigner l'IP ou le nom de l'IC-705"
    );
    assert_eq!(refused.told.unwrap().state, ConnState::Error);
    assert_eq!(get_status(&state).state, ConnState::Error);
    assert_eq!(
        get_status(&state).message,
        "erreur de protocole : renseigner l'IP ou le nom de l'IC-705"
    );

    let begun = connect(&mut state, " ic705.local\n").ok().unwrap();
    assert_eq!(begun.host, "ic705.local");
    assert_eq!(begun.previous, None);
    let refused = connect(&mut state, "other").err().unwrap();
    assert_eq!(
        refused.error.to_string(),
        "erreur de protocole : une connexion est déjà en cours"
    );
    assert!(refused.told.is_none());
    let snap = connect_started(&mut state, &begun.host);
    assert_eq!(snap.state, ConnState::Connecting);
    assert_eq!(snap.message, "Connexion à ic705.local…");
    assert_eq!(snap.host.as_deref(), Some("ic705.local"));
    let (first, snap) = connect_succeeded(&mut state, &begun.host);
    assert_eq!(snap.state, ConnState::CivReady);
    assert_eq!(snap.message, "Tunnel CI-V prêt");

    // A second connection replaces the session.
    let begun = connect(&mut state, "other").ok().unwrap();
    assert_eq!(begun.previous, Some(first));
    assert!(matches!(send_civ(&state, "FE FD"), Err(BridgeError::NotConnected)));
    let snap = connect_failed(&mut state, "other", &BridgeError::InvalidCredentials);
    assert_eq!(snap.state, ConnState::Error);
    assert_eq!(snap.message, "identifiants invalides (username / password refusés)");
    assert_eq!(snap.host.as_deref(), Some("other"));

    assert!(connect(&mut state, "other").is_ok());
    let (second, _) = connect_succeeded(&mut state, "other");
    assert_ne!(first, second);
    // The loss of the first session does not touch the second one.
    assert!(!link_lost(&mut state, first));
    assert_eq!(state.session, Some(second));
    let (id, bytes) = send_civ(&state, "FE FD").unwrap();
    assert_eq!((id, bytes), (second, vec![0xFE, 0xFD]));
    assert!(matches!(send_civ(&state, "F"), Err(BridgeError::InvalidFrame(_))));
    assert!(link_lost(&mut state, second));
    assert_eq!(state.session, None);
    let snap = link_lost_told(&mut state);
    assert_eq!(snap.state, ConnState::Error);
    assert_eq!(
        snap.message,
        "Connexion radio perdue (radio éteinte ou Wi-Fi coupé ?)"
    );
    assert_eq!(snap.host.as_deref(), Some("other"));

    assert!(connect(&mut state, "other").is_ok());
    let (third, _) = connect_succeeded(&mut state, "other");
    assert_eq!(disconnect(&mut state), Some(third));
    let snap = disconnected(&mut state);
    assert_eq!(snap.state, ConnState::Disconnected);
    assert_eq!(snap.host, None);
    let r = civ_result(&[0xFE], &[]);
    assert_eq!((r.tx.as_str(), r.response.as_str()), ("FE", ""));
}

#[test]
fn a_failed_connection_tells_the_network_error() {
    let mut state = AppState::new();
    assert!(connect(&mut state, "radio").is_ok());
    let io = std::io::Error::new(std::io::ErrorKind::Other, "réseau coupé");
    let snap = connect_failed(&mut state, "radio", &BridgeError::Io(io));
    assert_eq!(snap.message, "erreur réseau : réseau coupé");
    assert!(!state.connecting);
    assert!(connect(&mut state, "radio").is_ok());
    assert!(connect(&mut state, "radio").is_err());
    connect_abandoned(&mut state);
    assert!(connect(&mut state, "radio").is_ok());
}

#[test]
fn the_api_endpoint_follows_its_port() {
    let mut state = AppState::new();
    state.set_api_endpoint(9000, true);
    state.set_api_stopped_if_port(9001);
    assert!(state.snapshot().api_running);
    state.set_api_stopped_if_port(9000);
    assert!(!state.snapshot().api_running);
    assert_eq!(state.snapshot().api_url, "http://127.0.0.1:9000");
}

#[test]
fn shutting_down() {
    let mut state = AppState::new();
    assert_eq!(state.begin_shutdown(true), Shutdown::Exit);
    assert!(!state.shutdown_started);
    assert!(connect(&mut state, "radio").is_ok());
    connect_succeeded(&mut state, "radio");
    assert_eq!(state.on_exit_request(ExitRequest::Program, true), Shutdown::Exit);
    assert_eq!(state.on_exit_request(ExitRequest::Window, true), Shutdown::Disconnect);
    assert_eq!(state.on_exit_request(ExitRequest::Quit, true), Shutdown::Wait);
    assert!(state.take_session().is_some());
    assert_eq!(state.begin_shutdown(true), Shutdown::Wait);
    // A session that cannot be looked at may be there.
    assert_eq!(AppState::new().begin_shutdown(false), Shutdown::Disconnect);
}
