use rustssh::connection::{AuthType, Connection};
use rustssh::error::ErrorKind;
use rustssh::ssh::{
    ChannelCall, ClientHandler, Handshake, Progress, Reply, Request, SessionManager, SshEvent,
    SshSession, Stage, DEFAULT_COLS, DEFAULT_ROWS,
};

fn password_profile() -> Connection {
    Connection::with_id(
        "profile-a".to_string(),
        "box".to_string(),
        "example.org".to_string(),
        2222,
        "alice".to_string(),
        AuthType::Password,
        Some("hunter2".to_string()),
        None,
        None,
    )
}

fn key_profile(path: Option<&str>, passphrase: Option<&str>) -> Connection {
    Connection::with_id(
        "profile-b".to_string(),
        "box".to_string(),
        "example.org".to_string(),
        22,
        "bob".to_string(),
        AuthType::KeyFile,
        None,
        path.map(|s| s.to_string()),
        passphrase.map(|s| s.to_string()),
    )
}

fn next(p: Progress) -> (Handshake, Request) {
    match p {
        Progress::Next(h, r) => (h, r),
        other => panic!("the handshake ended: {:?}", other),
    }
}

fn failed(p: Progress) -> (ErrorKind, String) {
    match p {
        Progress::Failed(e) => (e.kind, e.message),
        other => panic!("the handshake did not fail: {:?}", other),
    }
}

fn live(id: &str, channel: u32, link: u8) -> SshSession<u8> {
    let (h, _) = next(Handshake::begin(&password_profile(), id.to_string()));
    let (h, _) = next(h.advance(Reply::Done));
    let (h, _) = next(h.advance(Reply::Authenticated(true)));
    let (h, _) = next(h.advance(Reply::Channel(channel)));
    let (h, _) = next(h.advance(Reply::Done));
    match h.advance(Reply::Done) {
        Progress::Ready(up) => SshSession::open(up, link),
        other => panic!("the session did not come up: {:?}", other),
    }
}

#[test]
fn password_handshake_goes_through_in_order() {
    let (h, r) = next(Handshake::begin(&password_profile(), "sid".to_string()));
    assert!(matches!(h.stage(), Stage::Connecting));
    assert!(matches!(r, Request::OpenTransport { ref host, port: 2222 } if host == "example.org"));
    let (h, r) = next(h.advance(Reply::Done));
    assert!(matches!(h.stage(), Stage::Authenticating));
    assert!(matches!(
        r,
        Request::AuthenticatePassword { ref username, ref password }
            if username == "alice" && password == "hunter2"
    ));
    let (h, r) = next(h.advance(Reply::Authenticated(true)));
    assert!(matches!(h.stage(), Stage::ChannelOpening));
    assert!(matches!(r, Request::OpenChannel));
    let (h, r) = next(h.advance(Reply::Channel(7)));
    assert!(matches!(h.stage(), Stage::RequestingPty(7)));
    assert!(matches!(
        r,
        Request::RequestPty { ref term, cols: 80, rows: 24, pix_width: 0, pix_height: 0 }
            if term == "xterm-256color"
    ));
    let (h, r) = next(h.advance(Reply::Done));
    assert!(matches!(h.stage(), Stage::RequestingShell(7)));
    assert!(matches!(r, Request::RequestShell));
    match h.advance(Reply::Done) {
        Progress::Ready(up) => {
            assert_eq!(up.id(), "sid");
            assert_eq!(up.channel(), 7);
        }
        other => panic!("the session did not come up: {:?}", other),
    }
}

#[test]
fn key_handshake_loads_the_key_before_it_authenticates() {
    let profile = key_profile(Some("/keys/id"), Some("opensesame"));
    let (h, r) = next(Handshake::begin(&profile, "sid".to_string()));
    assert!(matches!(r, Request::OpenTransport { ref host, port: 22 } if host == "example.org"));
    let (h, r) = next(h.advance(Reply::Done));
    assert!(matches!(h.stage(), Stage::LoadingKey));
    assert!(matches!(
        r,
        Request::LoadKey { ref path, passphrase: Some(ref phrase) }
            if path == "/keys/id" && phrase == "opensesame"
    ));
    let (h, r) = next(h.advance(Reply::Done));
    assert!(matches!(h.stage(), Stage::Authenticating));
    assert!(matches!(r, Request::AuthenticateKey { ref username } if username == "bob"));
    let (h, r) = next(h.advance(Reply::Authenticated(true)));
    assert!(matches!(r, Request::OpenChannel));
    let (h, _) = next(h.advance(Reply::Channel(0)));
    let (h, _) = next(h.advance(Reply::Done));
    match h.advance(Reply::Done) {
        Progress::Ready(up) => {
            assert_eq!(up.id(), "sid");
            assert_eq!(up.channel(), 0);
        }
        other => panic!("the session did not come up: {:?}", other),
    }
}

#[test]
fn key_handshake_without_passphrase_asks_for_none() {
    let profile = key_profile(Some("/keys/id"), None);
    let (h, _) = next(Handshake::begin(&profile, "sid".to_string()));
    let (_, r) = next(h.advance(Reply::Done));
    assert!(matches!(r, Request::LoadKey { ref path, passphrase: None } if path == "/keys/id"));
}

#[test]
fn key_profile_without_key_path_fails_before_any_request() {
    let profile = key_profile(None, Some("phrase"));
    let (kind, message) = failed(Handshake::begin(&profile, "sid".to_string()));
    assert_eq!(kind, ErrorKind::Authentication);
    assert_eq!(message, "Private key path not provided");
}

#[test]
fn connect_of_a_key_profile_without_key_path_fails_before_any_request() {
    let profile = key_profile(None, None);
    let (kind, message) = failed(SshSession::<u8>::connect(&profile));
    assert_eq!(kind, ErrorKind::Authentication);
    assert_eq!(message, "Private key path not provided");
}

#[test]
fn password_profile_without_password_fails_before_any_request() {
    let mut profile = password_profile();
    profile.password = None;
    let (kind, message) = failed(Handshake::begin(&profile, "sid".to_string()));
    assert_eq!(kind, ErrorKind::Authentication);
    assert_eq!(message, "Password not provided");
}

#[test]
fn a_password_profile_does_not_need_a_key_path() {
    let (_, r) = next(Handshake::begin(&password_profile(), "sid".to_string()));
    assert!(matches!(r, Request::OpenTransport { .. }));
}

#[test]
fn connect_draws_a_session_identifier_of_36_characters() {
    let (h, r) = next(SshSession::<u8>::connect(&password_profile()));
    assert!(matches!(r, Request::OpenTransport { ref host, port: 2222 } if host == "example.org"));
    let (h, _) = next(h.advance(Reply::Done));
    let (h, _) = next(h.advance(Reply::Authenticated(true)));
    let (h, _) = next(h.advance(Reply::Channel(3)));
    let (h, _) = next(h.advance(Reply::Done));
    match h.advance(Reply::Done) {
        Progress::Ready(up) => assert_eq!(up.id().chars().count(), 36),
        other => panic!("the session did not come up: {:?}", other),
    }
}

#[test]
fn a_failed_transport_is_a_connection_error() {
    let (h, _) = next(Handshake::begin(&password_profile(), "sid".to_string()));
    let (kind, message) = failed(h.advance(Reply::Failed("refused".to_string())));
    assert_eq!(kind, ErrorKind::Connection);
    assert_eq!(message, "Connection failed: refused");
}

#[test]
fn a_key_that_does_not_load_is_an_authentication_error() {
    let (h, _) = next(Handshake::begin(&key_profile(Some("/k"), None), "sid".to_string()));
    let (h, _) = next(h.advance(Reply::Done));
    let (kind, message) = failed(h.advance(Reply::Failed("no such file".to_string())));
    assert_eq!(kind, ErrorKind::Authentication);
    assert_eq!(message, "Failed to load key: no such file");
}

#[test]
fn a_failed_password_exchange_is_an_authentication_error() {
    let (h, _) = next(Handshake::begin(&password_profile(), "sid".to_string()));
    let (h, _) = next(h.advance(Reply::Done));
    let (kind, message) = failed(h.advance(Reply::Failed("disconnected".to_string())));
    assert_eq!(kind, ErrorKind::Authentication);
    assert_eq!(message, "Auth failed: disconnected");
}

#[test]
fn a_failed_key_exchange_is_an_authentication_error() {
    let (h, _) = next(Handshake::begin(&key_profile(Some("/k"), None), "sid".to_string()));
    let (h, _) = next(h.advance(Reply::Done));
    let (h, _) = next(h.advance(Reply::Done));
    let (kind, message) = failed(h.advance(Reply::Failed("disconnected".to_string())));
    assert_eq!(kind, ErrorKind::Authentication);
    assert_eq!(message, "Key auth failed: disconnected");
}

#[test]
fn a_rejected_credential_is_an_authentication_error() {
    let (h, _) = next(Handshake::begin(&password_profile(), "sid".to_string()));
    let (h, _) = next(h.advance(Reply::Done));
    let (kind, message) = failed(h.advance(Reply::Authenticated(false)));
    assert_eq!(kind, ErrorKind::Authentication);
    assert_eq!(message, "Authentication failed");
}

#[test]
fn a_channel_that_does_not_open_is_a_channel_setup_error() {
    let (h, _) = next(Handshake::begin(&password_profile(), "sid".to_string()));
    let (h, _) = next(h.advance(Reply::Done));
    let (h, _) = next(h.advance(Reply::Authenticated(true)));
    let (kind, message) = failed(h.advance(Reply::Failed("prohibited".to_string())));
    assert_eq!(kind, ErrorKind::ChannelSetup);
    assert_eq!(message, "Channel open failed: prohibited");
}

#[test]
fn a_refused_terminal_is_a_channel_setup_error() {
    let (h, _) = next(Handshake::begin(&password_profile(), "sid".to_string()));
    let (h, _) = next(h.advance(Reply::Done));
    let (h, _) = next(h.advance(Reply::Authenticated(true)));
    let (h, _) = next(h.advance(Reply::Channel(1)));
    let (kind, message) = failed(h.advance(Reply::Failed("no pty".to_string())));
    assert_eq!(kind, ErrorKind::ChannelSetup);
    assert_eq!(message, "PTY request failed: no pty");
}

#[test]
fn a_refused_shell_is_a_channel_setup_error() {
    let (h, _) = next(Handshake::begin(&password_profile(), "sid".to_string()));
    let (h, _) = next(h.advance(Reply::Done));
    let (h, _) = next(h.advance(Reply::Authenticated(true)));
    let (h, _) = next(h.advance(Reply::Channel(1)));
    let (h, _) = next(h.advance(Reply::Done));
    let (kind, message) = failed(h.advance(Reply::Failed("no shell".to_string())));
    assert_eq!(kind, ErrorKind::ChannelSetup);
    assert_eq!(message, "Shell request failed: no shell");
}

#[test]
fn a_reply_that_does_not_fit_the_request_ends_the_handshake() {
    let (h, _) = next(Handshake::begin(&password_profile(), "sid".to_string()));
    let (kind, message) = failed(h.advance(Reply::Channel(4)));
    assert_eq!(kind, ErrorKind::Connection);
    assert_eq!(message, "Connection failed: unexpected reply");

    let (h, _) = next(Handshake::begin(&password_profile(), "sid".to_string()));
    let (h, _) = next(h.advance(Reply::Done));
    let (kind, message) = failed(h.advance(Reply::Done));
    assert_eq!(kind, ErrorKind::Authentication);
    assert_eq!(message, "Auth failed: unexpected reply");

    let (h, _) = next(Handshake::begin(&password_profile(), "sid".to_string()));
    let (h, _) = next(h.advance(Reply::Done));
    let (h, _) = next(h.advance(Reply::Authenticated(true)));
    let (kind, message) = failed(h.advance(Reply::Authenticated(true)));
    assert_eq!(kind, ErrorKind::ChannelSetup);
    assert_eq!(message, "Channel open failed: unexpected reply");
}

#[test]
fn the_terminal_has_the_default_geometry() {
    assert_eq!(DEFAULT_COLS, 80);
    assert_eq!(DEFAULT_ROWS, 24);
}

#[test]
fn handler_forwards_data_of_its_own_channel() {
    let mut handler = ClientHandler::new("sid".to_string());
    assert!(handler.bind(5));
    match handler.data(5, &[1, 2, 3]) {
        Some(SshEvent::Data(bytes)) => assert_eq!(bytes, vec![1, 2, 3]),
        other => panic!("no data event: {:?}", other),
    }
    match handler.data(5, &[]) {
        Some(SshEvent::Data(bytes)) => assert!(bytes.is_empty()),
        other => panic!("no data event: {:?}", other),
    }
}

#[test]
fn handler_drops_data_of_other_channels() {
    let mut handler = ClientHandler::new("sid".to_string());
    handler.bind(5);
    assert!(handler.data(6, &[1, 2, 3]).is_none());
    assert!(handler.data(0, &[9]).is_none());
}

#[test]
fn unbound_handler_drops_everything() {
    let handler = ClientHandler::new("sid".to_string());
    assert_eq!(handler.shell_channel_id, None);
    assert!(handler.data(0, &[1]).is_none());
    assert!(handler.data(5, &[1]).is_none());
}

#[test]
fn handler_is_bound_once() {
    let mut handler = ClientHandler::new("sid".to_string());
    assert!(handler.bind(5));
    assert!(!handler.bind(6));
    assert_eq!(handler.shell_channel_id, Some(5));
    assert_eq!(handler.session_id, "sid");
    assert!(handler.data(6, &[1]).is_none());
    assert!(handler.data(5, &[1]).is_some());
}

#[test]
fn handler_accepts_every_server_key() {
    assert!(ClientHandler::new("sid".to_string()).check_server_key());
}

#[test]
fn session_keeps_identifier_channel_and_link() {
    let s = live("abc", 9, 42);
    assert_eq!(s.id(), "abc");
    assert_eq!(s.channel(), 9);
    assert_eq!(*s.link(), 42);
}

#[test]
fn session_calls_name_the_work_on_the_channel() {
    let s = live("abc", 9, 42);
    match s.write(b"ls\n") {
        ChannelCall::Data(bytes) => assert_eq!(bytes, b"ls\n".to_vec()),
        other => panic!("not a write: {:?}", other),
    }
    assert!(matches!(
        s.resize(120, 40),
        ChannelCall::WindowChange { cols: 120, rows: 40, pix_width: 0, pix_height: 0 }
    ));
    let (call, link) = s.close();
    assert!(matches!(call, ChannelCall::Close));
    assert_eq!(link, 42);
}

#[test]
fn settle_names_the_call_that_failed() {
    let write = ChannelCall::Data(vec![1]);
    let resize = ChannelCall::WindowChange { cols: 1, rows: 1, pix_width: 0, pix_height: 0 };
    let close = ChannelCall::Close;
    assert!(write.settle(Ok(())).is_ok());
    let e = write.settle(Err("channel closed".to_string())).unwrap_err();
    assert_eq!(e.kind, ErrorKind::Connection);
    assert_eq!(e.message, "Write failed: channel closed");
    let e = resize.settle(Err("gone".to_string())).unwrap_err();
    assert_eq!(e.kind, ErrorKind::Connection);
    assert_eq!(e.message, "Resize failed: gone");
    let e = close.settle(Err("gone".to_string())).unwrap_err();
    assert_eq!(e.kind, ErrorKind::Connection);
    assert_eq!(e.message, "Close failed: gone");
}

#[test]
fn registry_finds_what_was_added() {
    let mut manager: SessionManager<u8> = SessionManager::new();
    assert_eq!(manager.len(), 0);
    let id = manager.add_session(live("s1", 1, 10));
    assert_eq!(id, "s1");
    manager.add_session(live("s2", 2, 20));
    assert_eq!(manager.len(), 2);
    assert!(manager.has_session("s1"));
    assert!(manager.has_session("s2"));
    assert!(!manager.has_session("s3"));
    assert_eq!(*manager.lookup("s1").unwrap().link(), 10);
    assert_eq!(*manager.lookup("s2").unwrap().link(), 20);
    assert_eq!(manager.lookup("s2").unwrap().channel(), 2);
}

#[test]
fn lookup_after_remove_reports_not_found() {
    let mut manager: SessionManager<u8> = SessionManager::new();
    manager.add_session(live("s1", 1, 10));
    manager.add_session(live("s2", 2, 20));
    let removed = manager.remove_session("s1").unwrap();
    assert_eq!(removed.id(), "s1");
    assert_eq!(*removed.link(), 10);
    let e = manager.lookup("s1").unwrap_err();
    assert_eq!(e.kind, ErrorKind::SessionNotFound);
    assert_eq!(e.message, "Session not found");
    assert!(!manager.has_session("s1"));
    assert!(manager.has_session("s2"));
    assert_eq!(manager.len(), 1);
}

#[test]
fn lookup_in_an_empty_registry_reports_not_found() {
    let manager: SessionManager<u8> = SessionManager::new();
    let e = manager.lookup("anything").unwrap_err();
    assert_eq!(e.kind, ErrorKind::SessionNotFound);
    assert_eq!(e.message, "Session not found");
    assert_eq!(e.text(), "Session not found");
}

#[test]
fn removing_twice_is_removing_once() {
    let mut manager: SessionManager<u8> = SessionManager::new();
    manager.add_session(live("s1", 1, 10));
    manager.add_session(live("s2", 2, 20));
    assert!(manager.remove_session("s1").is_some());
    assert!(manager.remove_session("s1").is_none());
    assert!(manager.remove_session("never").is_none());
    assert_eq!(manager.len(), 1);
    assert!(manager.has_session("s2"));
}

#[test]
fn a_session_stays_while_others_come_and_go() {
    let mut manager: SessionManager<u8> = SessionManager::new();
    manager.add_session(live("keep", 1, 10));
    manager.add_session(live("a", 2, 20));
    manager.add_session(live("b", 3, 30));
    manager.remove_session("a");
    manager.add_session(live("c", 4, 40));
    manager.remove_session("b");
    manager.remove_session("c");
    assert_eq!(manager.len(), 1);
    assert_eq!(*manager.lookup("keep").unwrap().link(), 10);
}

#[test]
fn adding_under_a_live_identifier_replaces_the_session() {
    let mut manager: SessionManager<u8> = SessionManager::new();
    manager.add_session(live("s1", 1, 10));
    manager.add_session(live("s2", 2, 20));
    manager.add_session(live("s1", 3, 30));
    assert_eq!(manager.len(), 2);
    assert_eq!(*manager.lookup("s1").unwrap().link(), 30);
    assert_eq!(manager.lookup("s1").unwrap().channel(), 3);
    assert_eq!(*manager.lookup("s2").unwrap().link(), 20);
}
