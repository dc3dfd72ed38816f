use bigfred_commons::client::dccbus::dial::PING_INTERVAL_MS;
use bigfred_commons::client::dccbus::session::ack_timeout_ms;
use bigfred_commons::client::dccbus::session::incoming;
use bigfred_commons::client::dccbus::session::ping;
use bigfred_commons::client::dccbus::session::Exchange;
use bigfred_commons::client::dccbus::session::InFrame;
use bigfred_commons::client::dccbus::session::Incoming;
use bigfred_commons::client::dccbus::session::Outcome;
use bigfred_commons::client::dccbus::session::Session;
use bigfred_commons::client::dccbus::session::SocketMessage;
use bigfred_commons::client::wire::Ack;
use bigfred_commons::client::wire::Payload;
use bigfred_commons::client::Error;

fn ack(ok: bool, error: Option<&str>) -> Ack {
    Ack {
        ok,
        error: error.map(str::to_string),
        cvs: None,
        loco_address: None,
        long_address: None,
    }
}

fn frame(kind: &str, id: Option<&str>, ack: Option<Ack>) -> InFrame {
    InFrame {
        kind: kind.to_string(),
        id: id.map(str::to_string),
        ack,
    }
}

fn begin(session: &mut Session<u8>, id: &str, waiter: u8) {
    let sent = session.begin(id.to_string(), waiter, "loco.cvRead", Payload::Empty);
    assert_eq!(sent.kind, "loco.cvRead");
    assert_eq!(sent.id, Some(id.to_string()));
    assert_eq!(sent.payload, Some(Payload::Empty));
}

#[test]
fn messages_are_read_as_text() {
    assert_eq!(
        incoming(SocketMessage::Text("{}".to_string())),
        Incoming::Text("{}".to_string())
    );
    assert_eq!(
        incoming(SocketMessage::Binary(b"{\xc3\xa9}".to_vec())),
        Incoming::Text("{\u{e9}}".to_string())
    );
    assert_eq!(incoming(SocketMessage::Binary(vec![0xff])), Incoming::Skip);
    assert_eq!(incoming(SocketMessage::Other), Incoming::Skip);
    assert_eq!(incoming(SocketMessage::Close), Incoming::Stop);
}

#[test]
fn ack_reaches_its_waiter_only() {
    let mut session: Session<u8> = Session::open(5);
    begin(&mut session, "a", 1);
    begin(&mut session, "b", 2);
    assert!(session.deliver(frame("status", Some("a"), None)).is_none());
    assert!(session.deliver(frame("ack", None, None)).is_none());
    assert!(session.deliver(frame("ack", Some("c"), None)).is_none());
    let (waiter, got) = session
        .deliver(frame("ack", Some("b"), Some(ack(true, None))))
        .unwrap();
    assert_eq!((waiter, got.ok), (2, true));
    assert!(session.deliver(frame("ack", Some("b"), None)).is_none());
    let (waiter, got) = session.deliver(frame("ack", Some("a"), None)).unwrap();
    assert_eq!((waiter, got), (1, Ack::default()));
}

#[test]
fn fresh_ids_are_random_uuids() {
    let mut session: Session<u8> = Session::open(5);
    let first = session.begin_fresh(1, "x", Payload::Empty).id.unwrap();
    let second = session.begin_fresh(2, "x", Payload::Empty).id.unwrap();
    assert_ne!(first, second);
    for id in [&first, &second] {
        assert_eq!(id.len(), 36);
        for (i, c) in id.chars().enumerate() {
            match i {
                8 | 13 | 18 | 23 => assert_eq!(c, '-'),
                14 => assert_eq!(c, '4'),
                19 => assert!("89ab".contains(c)),
                _ => assert!("0123456789abcdef".contains(c)),
            }
        }
    }
    assert_eq!(
        session.deliver(frame("ack", Some(&second), None)).unwrap().0,
        2
    );
}

#[test]
fn ended_reader_drops_everybody() {
    let mut session: Session<u8> = Session::open(5);
    assert!(session.is_alive(false));
    assert!(!session.is_alive(true));
    begin(&mut session, "a", 1);
    session.reader_ended();
    assert!(!session.is_alive(false));
    assert!(session.deliver(frame("ack", Some("a"), None)).is_none());
}

#[test]
fn settling_maps_every_outcome() {
    let mut session: Session<u8> = Session::open(42);
    let request = Exchange::Request;
    let off = Exchange::PulseOff;
    assert!(session
        .settle(request, "a", Outcome::Acked(ack(true, None)))
        .unwrap()
        .ok);
    assert_eq!(
        session.settle(request, "a", Outcome::Acked(ack(false, None))),
        Err(Error::BadStatus {
            status: 502,
            code: "programming_failed".to_string(),
            detail: Some("command station 42".to_string()),
        })
    );
    assert_eq!(
        session.settle(off, "a", Outcome::Acked(ack(false, None))),
        Err(Error::BadStatus {
            status: 502,
            code: "function_off_failed".to_string(),
            detail: Some("command station 42".to_string()),
        })
    );
    assert_eq!(
        session
            .settle(off, "a", Outcome::Acked(ack(false, Some("busy"))))
            .unwrap_err()
            .code(),
        "busy"
    );
    for outcome in [Outcome::SendFailed, Outcome::Dropped] {
        let err = session.settle(request, "a", outcome).unwrap_err();
        assert!(err.is_dcc_bus_unavailable());
    }
    assert_eq!(
        session.settle(request, "a", Outcome::TimedOut),
        Err(Error::ProgrammingTimeout)
    );
    assert_eq!(
        session.settle(off, "a", Outcome::TimedOut),
        Err(Error::FunctionOffTimeout)
    );
    assert_eq!(
        session.settle(request, "a", Outcome::EncodeFailed("bad".to_string())),
        Err(Error::FrameEncodeFailed("bad".to_string()))
    );
}

#[test]
fn unsent_and_late_frames_leave_the_waiting_list() {
    let mut session: Session<u8> = Session::open(1);
    begin(&mut session, "a", 1);
    begin(&mut session, "b", 2);
    begin(&mut session, "c", 3);
    let _ = session.settle(Exchange::Request, "a", Outcome::TimedOut);
    let _ = session.settle(Exchange::Request, "b", Outcome::SendFailed);
    let _ = session.settle(Exchange::Request, "c", Outcome::Dropped);
    assert!(session.deliver(frame("ack", Some("a"), None)).is_none());
    assert!(session.deliver(frame("ack", Some("b"), None)).is_none());
    assert!(session.deliver(frame("ack", Some("c"), None)).is_some());
}

#[test]
fn timeouts_and_ping() {
    assert_eq!(ack_timeout_ms(Exchange::Request), 30_000);
    assert_eq!(ack_timeout_ms(Exchange::PulseOff), 5_000);
    assert!(ack_timeout_ms(Exchange::PulseOff) < ack_timeout_ms(Exchange::Request));
    assert!(PING_INTERVAL_MS < 6_000, "below the dcc-bus deadman");
    let ping = ping();
    assert_eq!(ping.kind, "ping");
    assert_eq!(ping.id, None);
    assert_eq!(ping.payload, Some(Payload::Empty));
}
