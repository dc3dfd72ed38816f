use bigfred_commons::fspath::FsPath;
use bigfred_commons::io::IoFailure;
use bigfred_commons::io::IoKind;
use bigfred_commons::ipc::auth::AuthStep;
use bigfred_commons::ipc::bind::is_stale_socket_connect_error;
use bigfred_commons::ipc::bind::unlinked;
use bigfred_commons::ipc::bind::BindEvent;
use bigfred_commons::ipc::bind::BindRun;
use bigfred_commons::ipc::bind::BindStep;
use bigfred_commons::ipc::bind::Probe;
use bigfred_commons::ipc::claim;
use bigfred_commons::ipc::json_type_field;
use bigfred_commons::ipc::server::accept_failed;
use bigfred_commons::ipc::server::accept_waited;
use bigfred_commons::ipc::server::AcceptStep;
use bigfred_commons::ipc::server::ClientGate;
use bigfred_commons::ipc::server::ConnRun;
use bigfred_commons::ipc::server::ConnStep;
use bigfred_commons::ipc::AcceptPolicy;
use bigfred_commons::ipc::Auth;
use bigfred_commons::ipc::BindError;
use bigfred_commons::ipc::BindOptions;
use bigfred_commons::ipc::DuplicateCommand;
use bigfred_commons::ipc::FrameError;
use bigfred_commons::ipc::IpcError;
use bigfred_commons::ipc::RejectReason;
use bigfred_commons::ipc::Router;
use bigfred_commons::ipc::SessionMode;

#[derive(Debug, PartialEq)]
struct Ping;

fn failure(kind: IoKind) -> IoFailure {
    IoFailure {
        kind,
        text: "denied".to_string(),
    }
}

fn options(path: &str, chown: Option<(u32, u32)>) -> BindOptions {
    BindOptions {
        path: FsPath::new(path),
        mode: 0o600,
        chown,
        process_name: "bigfred-shared-daemon-test",
    }
}

fn ok() -> BindEvent {
    BindEvent::Stepped(Ok(()))
}

fn reading(mode: SessionMode) -> ConnRun {
    let mut run = ConnRun::open(mode);
    let step: ConnStep<'_, Ping> = run.authenticated(true);
    assert!(matches!(step, ConnStep::Read));
    run
}

fn ping_router() -> Router<Ping> {
    let mut router = Router::new();
    router.add("ping", Ping).unwrap();
    router
}

#[test]
fn router_rejects_duplicate() {
    let mut r = Router::<Ping>::new();
    r.add("ping", Ping).unwrap();
    assert!(r.add("ping", Ping).is_err());
    assert!(r.get("ping").is_some());
    assert!(r.get("pong").is_none());
}

#[test]
fn duplicate_keeps_the_first_command() {
    let mut r = Router::<u8>::default();
    r.add("a", 1).unwrap();
    r.add("b", 2).unwrap();
    assert_eq!(r.add("a", 3), Err(DuplicateCommand("a")));
    assert_eq!(r.get("a"), Some(&1));
    assert_eq!(r.get("b"), Some(&2));
    assert_eq!(
        DuplicateCommand("a").message(),
        "duplicate IPC command a"
    );
}

#[test]
fn type_field() {
    let v = br#"{"type": "status", "x": 1}"#;
    assert_eq!(json_type_field(v), Some("status".to_string()));
    assert_eq!(json_type_field(b"{}"), None);
}

#[test]
fn type_field_must_be_text_in_an_object() {
    assert_eq!(json_type_field(br#"{"type": 7}"#), None);
    assert_eq!(json_type_field(br#"["type"]"#), None);
    assert_eq!(json_type_field(b"{"), None);
    assert_eq!(
        json_type_field("{\"type\":\"\u{e9}\"}".as_bytes()),
        Some("\u{e9}".to_string())
    );
}

#[test]
fn singleton_refuses_second_bind() {
    let opts = options("/tmp/live.sock", None);
    let mut first = BindRun::start(&opts);
    assert_eq!(first.step(), BindStep::CreateDirs);
    first.happened(ok()).unwrap();
    let probe = Probe::Failed(failure(IoKind::NotFound));
    first.happened(BindEvent::Probed(probe)).unwrap();
    for _ in 0..3 {
        first.happened(ok()).unwrap();
    }
    assert_eq!(first.step(), BindStep::Done);

    let mut second = BindRun::start(&opts);
    second.happened(ok()).unwrap();
    let err = second
        .happened(BindEvent::Probed(Probe::Live { pid: 0 }))
        .unwrap_err();
    assert!(matches!(err, BindError::AlreadyRunning { .. }));
    assert!(err.message().contains("already running"));
    assert_eq!(second.step(), BindStep::Probe);
}

#[test]
fn stale_socket_file_is_replaced() {
    let opts = options("/tmp/stale.sock", None);
    let mut run = BindRun::start(&opts);
    run.happened(ok()).unwrap();
    let probe = Probe::Failed(failure(IoKind::ConnectionRefused));
    run.happened(BindEvent::Probed(probe)).unwrap();
    assert_eq!(run.step(), BindStep::Unlink);
    run.happened(ok()).unwrap();
    assert_eq!(run.step(), BindStep::Listen);
}

#[test]
fn live_peer_is_named() {
    let path = FsPath::new("/run/x.sock");
    let err = claim(&path, "micronet", Probe::Live { pid: 41 }).unwrap_err();
    assert_eq!(
        err.message(),
        "micronet already running at /run/x.sock (pid 41)"
    );
    assert!(matches!(
        &err,
        BindError::AlreadyRunning { process_name: "micronet", pid: 41, .. }
    ));
    let err = claim(&path, "micronet", Probe::Live { pid: 0 }).unwrap_err();
    assert_eq!(err.message(), "micronet already running at /run/x.sock");
}

#[test]
fn only_missing_and_refused_are_stale() {
    let path = FsPath::new("/run/x.sock");
    for kind in [
        IoKind::NotFound,
        IoKind::ConnectionRefused,
        IoKind::ConnectionReset,
        IoKind::UnexpectedEof,
        IoKind::Other,
    ] {
        let stale = kind == IoKind::NotFound || kind == IoKind::ConnectionRefused;
        assert_eq!(is_stale_socket_connect_error(&failure(kind)), stale);
        let claimed = claim(&path, "p", Probe::Failed(failure(kind)));
        assert_eq!(claimed.is_ok(), stale);
        assert_eq!(
            unlinked(&path, Err(failure(kind))).is_ok(),
            kind == IoKind::NotFound
        );
    }
    assert!(unlinked(&path, Ok(())).is_ok());
    let err = claim(&path, "p", Probe::Failed(failure(IoKind::Other))).unwrap_err();
    assert_eq!(err.message(), "I/O error on /run/x.sock: denied");
}

#[test]
fn bind_steps_in_order_with_owner() {
    let opts = options("/run/d/x.sock", Some((1, 2)));
    let mut run = BindRun::start(&opts);
    assert_eq!(run.parent(), Some(FsPath::new("/run/d")));
    run.happened(ok()).unwrap();
    let probe = Probe::Failed(failure(IoKind::NotFound));
    run.happened(BindEvent::Probed(probe)).unwrap();
    let missing = BindEvent::Stepped(Err(failure(IoKind::NotFound)));
    run.happened(missing).unwrap();
    assert_eq!(run.step(), BindStep::Listen);
    run.happened(ok()).unwrap();
    assert_eq!(run.step(), BindStep::SetMode);
    run.happened(ok()).unwrap();
    assert_eq!(run.step(), BindStep::Chown);
    let err = run
        .happened(BindEvent::Stepped(Err(failure(IoKind::Other))))
        .unwrap_err();
    assert_eq!(
        err.message(),
        "I/O error on /run/d/x.sock: chown socket: denied"
    );
    run.happened(ok()).unwrap();
    assert_eq!(run.step(), BindStep::Done);
}

#[test]
fn bind_failures_name_their_path() {
    let opts = options("/run/d/x.sock", None);
    let mut run = BindRun::start(&opts);
    let err = run
        .happened(BindEvent::Stepped(Err(failure(IoKind::Other))))
        .unwrap_err();
    assert_eq!(err.message(), "I/O error on /run/d: denied");
    let bare = options("x.sock", None);
    let run = BindRun::start(&bare);
    assert_eq!(run.step(), BindStep::Probe);
    assert_eq!(run.parent(), None);
}

#[test]
fn auth_by_uid() {
    let auth = Auth::PeerUid {
        daemon_uid: 10,
        allow_uids: vec![20, 30],
    };
    assert!(auth.allows(Some(10), None));
    assert!(auth.allows(Some(30), None));
    assert!(!auth.allows(Some(0), None));
    assert!(!auth.allows(None, Some("root")));
    assert_eq!(auth.start(), AuthStep::AskUid);
    assert_eq!(auth.uid_known(Some(20)), AuthStep::Decided(true));
}

#[test]
fn auth_by_name() {
    let auth = |users: &[&str], root_always: bool, fail_closed_if_empty: bool| Auth::PeerUser {
        allow_users: users.iter().map(|u| u.to_string()).collect(),
        root_always,
        fail_closed_if_empty,
    };
    let named = auth(&["ann", "bob"], true, true);
    assert!(named.allows(Some(5), Some("bob")));
    assert!(!named.allows(Some(5), Some("eve")));
    assert!(!named.allows(Some(5), None));
    assert!(named.allows(Some(0), None));
    assert!(!named.allows(None, Some("bob")));
    assert_eq!(named.uid_known(Some(5)), AuthStep::AskName(5));
    let strict = auth(&["ann"], false, false);
    assert!(!strict.allows(Some(0), Some("root")));
    assert_eq!(strict.uid_known(Some(0)), AuthStep::AskName(0));
    assert!(!auth(&[], true, true).allows(Some(0), Some("root")));
    assert!(auth(&[], false, false).allows(None, None));
    assert_eq!(
        auth(&[], true, true).start(),
        AuthStep::Decided(false)
    );
}

#[test]
fn auth_unchecked_asks_nothing() {
    assert_eq!(Auth::Unchecked.start(), AuthStep::Decided(true));
    assert!(Auth::Unchecked.allows(None, None));
}

#[test]
fn client_cap_is_kept() {
    let mut gate = ClientGate::new(Some(2));
    assert_eq!(gate.enter(), None);
    assert_eq!(gate.enter(), None);
    assert_eq!(gate.enter(), Some(RejectReason::Busy));
    gate.release();
    assert_eq!(gate.enter(), None);
    assert_eq!(gate.enter(), Some(RejectReason::Busy));
    assert_eq!(ClientGate::new(Some(0)).enter(), Some(RejectReason::Busy));
    let mut open = ClientGate::new(None);
    for _ in 0..100 {
        assert_eq!(open.enter(), None);
    }
    open.release();
}

#[test]
fn serving_ends_when_the_path_is_gone() {
    assert_eq!(accept_failed(true), AcceptStep::Accept);
    assert_eq!(accept_failed(false), AcceptStep::Stop);
    assert_eq!(accept_waited(true), AcceptStep::Accept);
    assert_eq!(accept_waited(false), AcceptStep::Stop);
}

#[test]
fn oneshot_echo_and_unknown() {
    let mut router = Router::new();
    router.add("echo", Ping).unwrap();
    let mut run = reading(SessionMode::OneShot);
    let step = run.frame_read(&router, Ok(br#"{"type":"echo","n":1}"#.to_vec()));
    assert!(matches!(step, ConnStep::Execute(cmd) if *cmd == Ping));
    let step: ConnStep<'_, Ping> = run.executed(Ok(()));
    assert!(matches!(step, ConnStep::Close));

    let mut run = reading(SessionMode::OneShot);
    let step = run.frame_read(&router, Ok(br#"{"type":"nope"}"#.to_vec()));
    assert!(matches!(step, ConnStep::Unknown { kind, close: true } if kind == "nope"));
}

#[test]
fn persistent_hangup_closes_without_error_frame() {
    let mut router = Router::new();
    router.add("done", Ping).unwrap();
    for mode in [SessionMode::Persistent, SessionMode::OneShot] {
        let mut run = reading(mode);
        let step = run.frame_read(&router, Ok(br#"{"type": "done"}"#.to_vec()));
        assert!(matches!(step, ConnStep::Execute(_)));
        let step: ConnStep<'_, Ping> = run.executed(Err(IpcError::Hangup));
        assert!(matches!(step, ConnStep::Close));
    }
}

#[test]
fn persistent_session_goes_on_after_answers() {
    let router = ping_router();
    let mut run = reading(SessionMode::Persistent);
    let step = run.frame_read(&router, Ok(b"{}".to_vec()));
    assert!(matches!(step, ConnStep::Unknown { kind, close: false } if kind.is_empty()));
    run.frame_read(&router, Ok(br#"{"type":"ping"}"#.to_vec()));
    let failed = Err(IpcError::Other("boom".to_string()));
    let step: ConnStep<'_, Ping> = run.executed(failed);
    assert!(matches!(
        step,
        ConnStep::Report { error: IpcError::Other(text), close: false } if text == "boom"
    ));
    run.frame_read(&router, Ok(br#"{"type":"ping"}"#.to_vec()));
    let step: ConnStep<'_, Ping> = run.executed(Ok(()));
    assert!(matches!(step, ConnStep::Read));
}

#[test]
fn gone_peer_ends_a_persistent_session_quietly() {
    let router = ping_router();
    let gone = || {
        vec![
            FrameError::UnexpectedEof { read: 0, needed: 4 },
            FrameError::Io(failure(IoKind::UnexpectedEof)),
            FrameError::Io(failure(IoKind::ConnectionReset)),
        ]
    };
    for error in gone() {
        let step = reading(SessionMode::Persistent).frame_read(&router, Err(error));
        assert!(matches!(step, ConnStep::Close));
    }
    for error in gone() {
        let step = reading(SessionMode::OneShot).frame_read(&router, Err(error));
        assert!(matches!(step, ConnStep::Report { close: true, .. }));
    }
}

#[test]
fn unreadable_requests_are_reported() {
    let router = ping_router();
    let errors = vec![
        FrameError::TooLarge { len: 9, max: 8 },
        FrameError::Io(failure(IoKind::Other)),
    ];
    for error in errors {
        let step = reading(SessionMode::Persistent).frame_read(&router, Err(error));
        assert!(matches!(step, ConnStep::Report { close: true, .. }));
    }
    let step = reading(SessionMode::Persistent).frame_read(&router, Ok(b"{".to_vec()));
    match step {
        ConnStep::Report { error, close: true } => {
            assert!(error.message().starts_with("json codec error: EOF"));
        }
        _ => panic!("not reported"),
    }
}

#[test]
fn typed_requests_are_routed() {
    let router = ping_router();
    let mut run = reading(SessionMode::OneShot);
    let step = run.typed(&router, Ok(Some("ping".to_string())));
    assert!(matches!(step, ConnStep::Execute(_)));
    let mut run = reading(SessionMode::OneShot);
    let step = run.typed(&router, Err(FrameError::Json("x".to_string())));
    assert!(matches!(step, ConnStep::Report { close: true, .. }));
}

#[test]
fn denied_peer_is_rejected() {
    let mut run = ConnRun::open(SessionMode::Persistent);
    let step: ConnStep<'_, Ping> = run.authenticated(false);
    assert!(matches!(step, ConnStep::Reject(RejectReason::Auth)));
}

#[test]
fn ipc_errors_have_messages() {
    let frame = IpcError::Frame(FrameError::Json("x".to_string()));
    assert_eq!(frame.message(), "json codec error: x");
    assert_eq!(IpcError::Other("boom".to_string()).message(), "boom");
    assert_eq!(IpcError::Hangup.message(), "session closed");
}

#[test]
fn policy_holds_its_parts() {
    let policy = AcceptPolicy {
        auth: Auth::Unchecked,
        session: SessionMode::OneShot,
        max_clients: Some(4),
        max_frame: 64 * 1024,
    };
    assert_eq!(ClientGate::new(policy.max_clients), ClientGate::new(Some(4)));
}
