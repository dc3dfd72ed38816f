use bigfred_commons::client::dccbus::session::Exchange;
use bigfred_commons::client::dccbus::slots::drive_dialled;
use bigfred_commons::client::dccbus::slots::drive_plan;
use bigfred_commons::client::dccbus::slots::must_dial_programming;
use bigfred_commons::client::dccbus::slots::refresh_drive_status;
use bigfred_commons::client::dccbus::slots::DrivePlan;
use bigfred_commons::client::dccbus::slots::DriveSlot;
use bigfred_commons::client::dccbus::slots::PulseRun;
use bigfred_commons::client::dccbus::slots::PulseStep;
use bigfred_commons::client::dccbus::slots::RequestRun;
use bigfred_commons::client::dccbus::slots::RequestStep;
use bigfred_commons::client::wire::Ack;
use bigfred_commons::client::wire::Payload;
use bigfred_commons::client::wire::Status;
use bigfred_commons::client::Error;

fn good() -> Ack {
    let mut ack = Ack::default();
    ack.ok = true;
    ack
}

fn gone() -> Error {
    Error::DccBusUnreachable(String::new())
}

fn slot(login: &str, alive: bool) -> Option<DriveSlot<'_>> {
    Some(DriveSlot { login, alive })
}

fn set_function(on: bool) -> Payload {
    Payload::SetFunction {
        address: 3,
        function: 2,
        on,
    }
}

#[test]
fn programming_socket_is_reused_while_alive() {
    assert!(!must_dial_programming(Some(true)));
    assert!(must_dial_programming(Some(false)));
    assert!(must_dial_programming(None));
}

#[test]
fn drive_socket_follows_the_participant() {
    assert_eq!(drive_plan(slot("ann", true), " ann\n"), Ok(DrivePlan::Reuse));
    let dial = Ok(DrivePlan::Dial {
        login: "ann".to_string(),
    });
    assert_eq!(drive_plan(slot("ann", false), "ann"), dial);
    assert_eq!(drive_plan(slot("bob", true), "ann"), dial);
    assert_eq!(drive_plan(None, "\u{2003}ann "), dial);
    assert_eq!(
        drive_plan(slot("ann", true), " \t"),
        Err(Error::ImpersonateRequired)
    );
}

#[test]
fn drive_status_follows_the_socket() {
    let mut status = Status::default();
    refresh_drive_status(&mut status, slot("ann", true));
    assert!(status.drive_connected);
    assert_eq!(status.drive_as, Some("ann".to_string()));
    refresh_drive_status(&mut status, slot("ann", false));
    assert_eq!(status, Status::default());
    refresh_drive_status(&mut status, slot("bob", true));
    refresh_drive_status(&mut status, None);
    assert_eq!(status, Status::default());
}

#[test]
fn failed_dial_shows_no_drive_socket() {
    let mut status = Status::default();
    status.reconnects = 3;
    drive_dialled(&mut status, "alice", true);
    assert!(status.drive_connected);
    assert_eq!(status.drive_as, Some("alice".to_string()));
    drive_dialled(&mut status, "bob", false);
    assert!(!status.drive_connected);
    assert_eq!(status.drive_as, None);
    assert_eq!(status.reconnects, 3);
}

#[test]
fn request_is_sent_again_once() {
    let (mut run, step) = RequestRun::start(Some(true));
    assert_eq!(step, RequestStep::Send);
    assert_eq!(run.answered(Err(gone())), RequestStep::Dial);
    assert_eq!(run.dialled(Ok(())), RequestStep::Send);
    assert_eq!(run.answered(Err(gone())), RequestStep::Done(Err(gone())));
}

#[test]
fn request_reports_other_failures_at_once() {
    let (mut run, step) = RequestRun::start(None);
    assert_eq!(step, RequestStep::Dial);
    assert_eq!(
        run.dialled(Err(Error::Unauthorized)),
        RequestStep::Done(Err(Error::Unauthorized))
    );
    assert_eq!(
        run.answered(Err(Error::ProgrammingTimeout)),
        RequestStep::Done(Err(Error::ProgrammingTimeout))
    );
    assert_eq!(run.answered(Ok(good())), RequestStep::Done(Ok(good())));
}

#[test]
fn pulse_turns_on_holds_and_turns_off() {
    let (mut run, step) = PulseRun::start(None, " ann ", 3, 2, 500).unwrap();
    assert_eq!(
        step,
        PulseStep::Dial {
            login: "ann".to_string()
        }
    );
    let on = PulseStep::Send {
        exchange: Exchange::Request,
        payload: set_function(true),
    };
    assert_eq!(run.dialled(Ok(())), on);
    assert_eq!(run.rollback(), None);
    assert_eq!(
        run.on_answered(Ok(good())),
        PulseStep::Wait { duration_ms: 500 }
    );
    assert!(run.rollback().is_some());
    let off = PulseStep::Send {
        exchange: Exchange::PulseOff,
        payload: set_function(false),
    };
    assert_eq!(run.waited(), off);
    assert_eq!(run.off_answered(Ok(good())), PulseStep::Done(Ok(good())));
    assert_eq!(run.rollback(), None);
}

#[test]
fn failed_off_is_rolled_back() {
    let (mut run, _) = PulseRun::start(slot("ann", true), "ann", 3, 2, 0).unwrap();
    run.on_answered(Ok(good()));
    run.waited();
    assert_eq!(
        run.off_answered(Err(Error::FunctionOffTimeout)),
        PulseStep::Done(Err(Error::FunctionOffTimeout))
    );
    let frame = run.rollback_frame("id-1".to_string()).unwrap();
    assert_eq!(frame.kind, "loco.setFunction");
    assert_eq!(frame.id, Some("id-1".to_string()));
    assert_eq!(frame.payload, Some(set_function(false)));
    assert_ne!(run.rollback().unwrap().id, run.rollback().unwrap().id);
}

#[test]
fn failed_on_needs_no_rollback() {
    let (mut run, _) = PulseRun::start(slot("ann", true), "ann", 3, 2, 0).unwrap();
    assert_eq!(
        run.on_answered(Err(gone())),
        PulseStep::Done(Err(gone()))
    );
    assert_eq!(run.rollback(), None);
    let (mut run, _) = PulseRun::start(slot("bob", true), "ann", 3, 2, 0).unwrap();
    assert_eq!(
        run.dialled(Err(Error::Unauthorized)),
        PulseStep::Done(Err(Error::Unauthorized))
    );
    assert_eq!(run.rollback(), None);
    assert_eq!(
        PulseRun::start(None, "", 3, 2, 0).unwrap_err(),
        Error::ImpersonateRequired
    );
}
