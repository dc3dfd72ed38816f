//! The two sockets that are kept: when one is reused, when it is dialled again,
//! and how requests and function pulses run over them.

use crate::client::dccbus::session::fresh_id;
use crate::client::dccbus::session::Exchange;
use crate::client::dccbus::session;
use crate::client::error::Error;
use crate::client::error::ErrorView;
use crate::client::error::Result;
use crate::client::wire::Ack;
use crate::client::wire::Envelope;
use crate::client::wire::EnvelopeView;
use crate::client::wire::FRAME_SET_FUNCTION;
use crate::client::wire::Payload;
use crate::client::wire::PayloadView;
use crate::client::wire::Status;
use crate::client::wire::StatusView;
use crate::text::same_text;
use crate::text::trim;
use crate::text;
use vstd::prelude::*;
use vstd::string::*;

verus! {

/// Whether the programming socket has to be dialled. `alive` is what the kept
/// socket reports, if one is kept.
pub fn must_dial_programming(alive: Option<bool>) -> (r: bool)
    ensures
        r == (alive != Some(true)),
{
    match alive {
        Some(alive) => !alive,
        None => true,
    }
}

/// What to do about the drive socket.
#[derive(Debug, PartialEq, Eq)]
pub enum DrivePlan {
    /// The kept socket serves this participant.
    Reuse,
    /// Drop the kept socket, if any, and dial one for `login`; then report that
    /// with [`drive_dialled`].
    Dial { login: String },
}

/// A kept drive socket: whom it impersonates and whether it is alive.
pub struct DriveSlot<'a> {
    pub login: &'a str,
    pub alive: bool,
}

/// Whether the kept drive socket serves `login`.
pub open spec fn serves(slot: Option<DriveSlot>, login: Seq<char>) -> bool {
    slot matches Some(kept) && kept.login@ == login && kept.alive
}

/// Whether `r` is what is done about the drive socket for `as_login`.
pub open spec fn drive_planned(
    slot: Option<DriveSlot>,
    as_login: Seq<char>,
    r: Result<DrivePlan>,
) -> bool {
    match r {
        Err(e) => text::trimmed(as_login).len() == 0 && e@ is ImpersonateRequired,
        Ok(DrivePlan::Reuse) => text::trimmed(as_login).len() > 0 && serves(
            slot,
            text::trimmed(as_login),
        ),
        Ok(DrivePlan::Dial { login }) => text::trimmed(as_login).len() > 0 && !serves(
            slot,
            text::trimmed(as_login),
        ) && login@ == text::trimmed(as_login),
    }
}

/// Decides about the drive socket for `as_login`. Reuses the existing socket
/// when it is alive and already that user.
pub fn drive_plan(slot: Option<DriveSlot>, as_login: &str) -> (r: Result<DrivePlan>)
    ensures
        ({
            let login = text::trimmed(as_login@);
            if login.len() == 0 {
                r matches Err(e) && e@ == ErrorView::ImpersonateRequired
            } else if serves(slot, login) {
                r matches Ok(plan) && plan == DrivePlan::Reuse
            } else {
                r matches Ok(plan) && plan matches DrivePlan::Dial { login: whom } && whom@ == login
            }
        }),
        drive_planned(slot, as_login@, r),
{
    let login = trim(as_login);
    if login.unicode_len() == 0 {
        return Err(Error::ImpersonateRequired);
    }
    match slot {
        Some(kept) => {
            if same_text(kept.login, login) && kept.alive {
                Ok(DrivePlan::Reuse)
            } else {
                Ok(DrivePlan::Dial { login: login.to_owned() })
            }
        },
        None => Ok(DrivePlan::Dial { login: login.to_owned() }),
    }
}

/// A status that shows the drive socket up for `whom`, or down.
pub open spec fn drive_shown(status: StatusView, whom: Option<Seq<char>>) -> StatusView {
    StatusView { drive_connected: whom is Some, drive_as: whom, ..status }
}

/// Whom the kept drive socket serves: nobody, if there is none or it is dead.
pub open spec fn served_login(slot: Option<DriveSlot>) -> Option<Seq<char>> {
    match slot {
        Some(kept) => if kept.alive {
            Some(kept.login@)
        } else {
            None
        },
        None => None,
    }
}

/// Reports the drive socket in the status: up and for whom, or down.
pub fn refresh_drive_status(status: &mut Status, slot: Option<DriveSlot>)
    ensures
        final(status)@ == drive_shown(old(status)@, served_login(slot)),
{
    match slot {
        Some(kept) => drive_dialled(status, kept.login, kept.alive),
        None => {
            status.drive_connected = false;
            status.drive_as = None;
        },
    }
}

/// The drive socket for `login` was dialled, after the one kept before was
/// dropped. A failure leaves no drive socket, and the status says so.
pub fn drive_dialled(status: &mut Status, login: &str, ok: bool)
    ensures
        final(status)@ == drive_shown(
            old(status)@,
            if ok {
                Some(login@)
            } else {
                None
            },
        ),
{
    status.drive_connected = ok;
    status.drive_as = if ok {
        Some(login.to_owned())
    } else {
        None
    };
}

/// The status never shows a participant whose drive socket was dropped: whatever
/// it showed before, after a failed dial it shows no drive socket, and after any
/// dial nobody but the participant dialled for.
pub proof fn lemma_dropped_participant_is_not_shown(
    before: StatusView,
    dialled: Seq<char>,
    dropped: Seq<char>,
    ok: bool,
)
    requires
        dropped != dialled,
    ensures
        ({
            let after = drive_shown(
                before,
                if ok {
                    Some(dialled)
                } else {
                    None
                },
            );
            &&& after.drive_connected == ok
            &&& after.drive_as != Some(dropped)
            &&& !ok ==> after.drive_as is None
        }),
{
}

/// What a request does next.
#[derive(Debug, PartialEq, Eq)]
pub enum RequestStep {
    /// Drop the kept programming socket, if any, and dial a new one.
    Dial,
    /// Send the frame and wait for its ack.
    Send,
    /// Report this.
    Done(Result<Ack>),
}

/// One request over the programming socket. It is sent again, once, over a new
/// socket when the kept one turned out to be dead.
#[derive(Debug, PartialEq, Eq)]
pub struct RequestRun {
    resent: bool,
}

impl RequestRun {
    /// Whether the one retry has been used.
    pub closed spec fn resent(&self) -> bool {
        self.resent
    }

    /// Starts a request. `alive` is what the kept socket reports, if one is kept.
    pub fn start(alive: Option<bool>) -> (r: (Self, RequestStep))
        ensures
            !r.0.resent(),
            r.1 == (if alive == Some(true) {
                RequestStep::Send
            } else {
                RequestStep::Dial
            }),
    {
        let step = if must_dial_programming(alive) {
            RequestStep::Dial
        } else {
            RequestStep::Send
        };
        (RequestRun { resent: false }, step)
    }

    /// A dial came to `outcome`.
    pub fn dialled(&self, outcome: Result<()>) -> (r: RequestStep)
        ensures
            r == (match outcome {
                Ok(_) => RequestStep::Send,
                Err(e) => RequestStep::Done(Err(e)),
            }),
    {
        match outcome {
            Ok(_) => RequestStep::Send,
            Err(e) => RequestStep::Done(Err(e)),
        }
    }

    /// Sending the frame came to `result`.
    pub fn answered(&mut self, result: Result<Ack>) -> (r: RequestStep)
        ensures
            sent_again(old(self).resent(), result) ==> r == RequestStep::Dial && final(self).resent(),
            !sent_again(old(self).resent(), result) ==> r == RequestStep::Done(result)
                && final(self).resent() == old(self).resent(),
    {
        match &result {
            Err(e) => {
                if e.is_dcc_bus_unavailable() && !self.resent {
                    self.resent = true;
                    return RequestStep::Dial;
                }
            },
            Ok(_) => {},
        }
        RequestStep::Done(result)
    }
}

/// Whether a request that came to `result` is sent again.
pub open spec fn sent_again(resent: bool, result: Result<Ack>) -> bool {
    &&& !resent
    &&& result matches Err(e)
    &&& e@ is DccBusUnreachable
}

/// How often a request is sent when the first send, the second and so on come
/// to `results`.
pub open spec fn sends(resent: bool, results: Seq<Result<Ack>>) -> nat
    decreases results.len(),
{
    if results.len() == 0 {
        0
    } else if sent_again(resent, results[0]) {
        1 + sends(true, results.skip(1))
    } else {
        1
    }
}

/// A request is sent at most twice, whatever happens to it.
pub proof fn lemma_request_sent_at_most_twice(results: Seq<Result<Ack>>)
    ensures
        sends(false, results) <= 2,
        results.len() > 0 && !(results[0] matches Err(e) && e@ is DccBusUnreachable) ==> sends(
            false,
            results,
        ) == 1,
{
    reveal_with_fuel(sends, 3);
}

/// How far a function pulse has come.
#[derive(Debug, Clone, Copy, PartialEq, Eq, Structural)]
pub enum PulsePhase {
    /// The drive socket is being dialled.
    Dialling,
    /// The `ON` frame is under way.
    TurningOn,
    /// The `ON` was acked and the function is held.
    Held,
    /// The `OFF` frame is under way.
    TurningOff,
    /// The `OFF` frame was acked.
    Over,
    /// The pulse was given up.
    Failed,
}

/// What a pulse does next.
#[derive(Debug, PartialEq, Eq)]
pub enum PulseStep {
    /// Drop the kept drive socket, if any, and dial one for `login`; then report
    /// that with [`drive_dialled`].
    Dial { login: String },
    /// Send this as a `loco.setFunction` frame and wait for its ack.
    Send { exchange: Exchange, payload: Payload },
    /// Hold the function.
    Wait { duration_ms: u64 },
    /// Report this.
    Done(Result<Ack>),
}

/// What happens to a pulse; the flags tell success.
pub enum PulseEvent {
    Dialled(bool),
    OnAnswered(bool),
    Waited,
    OffAnswered(bool),
}

/// Whether `event` can happen in `phase`.
pub open spec fn pulse_expects(phase: PulsePhase, event: PulseEvent) -> bool {
    match event {
        PulseEvent::Dialled(_) => phase == PulsePhase::Dialling,
        PulseEvent::OnAnswered(_) => phase == PulsePhase::TurningOn,
        PulseEvent::Waited => phase == PulsePhase::Held,
        PulseEvent::OffAnswered(_) => phase == PulsePhase::TurningOff,
    }
}

/// Phase and light after `event`.
pub open spec fn pulse_next(lit: bool, event: PulseEvent) -> (PulsePhase, bool) {
    match event {
        PulseEvent::Dialled(true) => (PulsePhase::TurningOn, lit),
        PulseEvent::OnAnswered(true) => (PulsePhase::Held, true),
        PulseEvent::Waited => (PulsePhase::TurningOff, lit),
        PulseEvent::OffAnswered(true) => (PulsePhase::Over, false),
        _ => (PulsePhase::Failed, lit),
    }
}

/// Phase and light after `events`, for a pulse that starts in `phase`.
pub open spec fn pulse_after(phase: PulsePhase, events: Seq<PulseEvent>) -> (PulsePhase, bool)
    decreases events.len(),
{
    if events.len() == 0 {
        (phase, false)
    } else {
        pulse_next(pulse_after(phase, events.drop_last()).1, events.last())
    }
}

/// Whether each of `events` can happen when it does.
pub open spec fn pulse_legal(phase: PulsePhase, events: Seq<PulseEvent>) -> bool
    decreases events.len(),
{
    events.len() > 0 ==> {
        &&& pulse_legal(phase, events.drop_last())
        &&& pulse_expects(pulse_after(phase, events.drop_last()).0, events.last())
    }
}

/// However a pulse ends, the function counts as lit, and is rolled back, exactly
/// if its `ON` was acked and its `OFF` was not.
pub proof fn lemma_pulse_lit(phase: PulsePhase, events: Seq<PulseEvent>)
    requires
        phase == PulsePhase::Dialling || phase == PulsePhase::TurningOn,
        pulse_legal(phase, events),
    ensures
        pulse_after(phase, events).1 == (events.contains(PulseEvent::OnAnswered(true))
            && !events.contains(PulseEvent::OffAnswered(true))),
{
    lemma_pulse_history(phase, events);
}

proof fn lemma_pulse_history(phase: PulsePhase, events: Seq<PulseEvent>)
    requires
        phase == PulsePhase::Dialling || phase == PulsePhase::TurningOn,
        pulse_legal(phase, events),
    ensures
        ({
            let on = events.contains(PulseEvent::OnAnswered(true));
            let off = events.contains(PulseEvent::OffAnswered(true));
            let (now, lit) = pulse_after(phase, events);
            &&& lit == (on && !off)
            &&& match now {
                PulsePhase::Dialling | PulsePhase::TurningOn => !on && !off,
                PulsePhase::Held | PulsePhase::TurningOff => on && !off,
                PulsePhase::Over => on && off,
                PulsePhase::Failed => !off,
            }
        }),
    decreases events.len(),
{
    if events.len() > 0 {
        let before = events.drop_last();
        lemma_pulse_history(phase, before);
        assert(events =~= before.push(events.last()));
        assert forall|e: PulseEvent| #[trigger]
            events.contains(e) <==> before.contains(e) || events.last() == e by {
            if before.contains(e) {
                let i = choose|i: int| 0 <= i < before.len() && before[i] == e;
                assert(events[i] == e);
            }
            if events.last() == e {
                assert(events[events.len() - 1] == e);
            }
        }
        assert(events.contains(PulseEvent::OnAnswered(true)) <==> before.contains(
            PulseEvent::OnAnswered(true),
        ) || events.last() == PulseEvent::OnAnswered(true));
    }
}

/// The payload that turns a function on or off.
pub open spec fn function_payload(address: u16, function: u8, on: bool) -> PayloadView {
    PayloadView::SetFunction { address, function, on }
}

/// Impersonated on→wait→off for one function over the drive socket.
#[derive(Debug, PartialEq, Eq)]
pub struct PulseRun {
    address: u16,
    function: u8,
    duration_ms: u64,
    phase: PulsePhase,
    lit: bool,
}

/// What a [`PulseRun`] knows.
pub struct PulseRunView {
    pub address: u16,
    pub function: u8,
    pub duration_ms: u64,
    pub phase: PulsePhase,
    /// The `ON` frame was acked and no `OFF` frame has been acked since.
    pub lit: bool,
}

impl View for PulseRun {
    type V = PulseRunView;

    closed spec fn view(&self) -> PulseRunView {
        PulseRunView {
            address: self.address,
            function: self.function,
            duration_ms: self.duration_ms,
            phase: self.phase,
            lit: self.lit,
        }
    }
}

impl PulseRun {
    /// The function is lit while it is held or being turned off, and stays lit
    /// only if turning it off failed.
    pub open spec fn wf(&self) -> bool {
        match self@.phase {
            PulsePhase::Dialling | PulsePhase::TurningOn | PulsePhase::Over => !self@.lit,
            PulsePhase::Held | PulsePhase::TurningOff => self@.lit,
            PulsePhase::Failed => true,
        }
    }

    fn turn_on(&self) -> (r: PulseStep)
        ensures
            r matches PulseStep::Send { exchange, payload } && exchange == Exchange::Request
                && payload@ == function_payload(self@.address, self@.function, true),
    {
        PulseStep::Send {
            exchange: Exchange::Request,
            payload: Payload::SetFunction {
                address: self.address,
                function: self.function,
                on: true,
            },
        }
    }

    /// Starts a pulse of `function` on `address` for `as_login`.
    pub fn start(
        slot: Option<DriveSlot>,
        as_login: &str,
        address: u16,
        function: u8,
        duration_ms: u64,
    ) -> (r: Result<(Self, PulseStep)>)
        ensures
            ({
                let login = text::trimmed(as_login@);
                if login.len() == 0 {
                    r matches Err(e) && e@ == ErrorView::ImpersonateRequired
                } else {
                    r matches Ok((run, step)) && run.wf() && run@ == (PulseRunView {
                        address,
                        function,
                        duration_ms,
                        phase: if serves(slot, login) {
                            PulsePhase::TurningOn
                        } else {
                            PulsePhase::Dialling
                        },
                        lit: false,
                    }) && if serves(slot, login) {
                        step matches PulseStep::Send { exchange, payload } && exchange
                            == Exchange::Request && payload@ == function_payload(
                            address,
                            function,
                            true,
                        )
                    } else {
                        step matches PulseStep::Dial { login: whom } && whom@ == login
                    }
                }
            }),
    {
        match drive_plan(slot, as_login) {
            Err(e) => Err(e),
            Ok(DrivePlan::Reuse) => {
                let run = PulseRun {
                    address,
                    function,
                    duration_ms,
                    phase: PulsePhase::TurningOn,
                    lit: false,
                };
                let step = run.turn_on();
                Ok((run, step))
            },
            Ok(DrivePlan::Dial { login }) => {
                let run = PulseRun {
                    address,
                    function,
                    duration_ms,
                    phase: PulsePhase::Dialling,
                    lit: false,
                };
                Ok((run, PulseStep::Dial { login }))
            },
        }
    }

    /// The dial came to `outcome`.
    pub fn dialled(&mut self, outcome: Result<()>) -> (r: PulseStep)
        requires
            old(self).wf(),
            old(self)@.phase == PulsePhase::Dialling,
        ensures
            final(self).wf(),
            (final(self)@.phase, final(self)@.lit) == pulse_next(old(self)@.lit, PulseEvent::Dialled(outcome is Ok)),
            match outcome {
                Ok(_) => {
                    &&& final(self)@ == (PulseRunView {
                        phase: PulsePhase::TurningOn,
                        ..old(self)@
                    })
                    &&& r matches PulseStep::Send { exchange, payload } && exchange
                        == Exchange::Request && payload@ == function_payload(
                        old(self)@.address,
                        old(self)@.function,
                        true,
                    )
                },
                Err(e) => {
                    &&& final(self)@ == (PulseRunView { phase: PulsePhase::Failed, ..old(self)@ })
                    &&& r == PulseStep::Done(Err(e))
                },
            },
    {
        match outcome {
            Ok(_) => {
                self.phase = PulsePhase::TurningOn;
                self.turn_on()
            },
            Err(e) => {
                self.phase = PulsePhase::Failed;
                PulseStep::Done(Err(e))
            },
        }
    }

    /// The `ON` frame came to `result`. An ack lights the function.
    pub fn on_answered(&mut self, result: Result<Ack>) -> (r: PulseStep)
        requires
            old(self).wf(),
            old(self)@.phase == PulsePhase::TurningOn,
        ensures
            final(self).wf(),
            (final(self)@.phase, final(self)@.lit) == pulse_next(old(self)@.lit, PulseEvent::OnAnswered(result is Ok)),
            match result {
                Ok(_) => {
                    &&& final(self)@ == (PulseRunView {
                        phase: PulsePhase::Held,
                        lit: true,
                        ..old(self)@
                    })
                    &&& r == (PulseStep::Wait { duration_ms: old(self)@.duration_ms })
                },
                Err(e) => {
                    &&& final(self)@ == (PulseRunView { phase: PulsePhase::Failed, ..old(self)@ })
                    &&& r == PulseStep::Done(Err(e))
                },
            },
    {
        match result {
            Ok(_) => {
                self.phase = PulsePhase::Held;
                self.lit = true;
                PulseStep::Wait { duration_ms: self.duration_ms }
            },
            Err(e) => {
                self.phase = PulsePhase::Failed;
                PulseStep::Done(Err(e))
            },
        }
    }

    /// The function was held long enough.
    pub fn waited(&mut self) -> (r: PulseStep)
        requires
            old(self).wf(),
            old(self)@.phase == PulsePhase::Held,
        ensures
            final(self).wf(),
            (final(self)@.phase, final(self)@.lit) == pulse_next(old(self)@.lit, PulseEvent::Waited),
            final(self)@ == (PulseRunView { phase: PulsePhase::TurningOff, ..old(self)@ }),
            r matches PulseStep::Send { exchange, payload } && exchange == Exchange::PulseOff
                && payload@ == function_payload(old(self)@.address, old(self)@.function, false),
    {
        self.phase = PulsePhase::TurningOff;
        PulseStep::Send {
            exchange: Exchange::PulseOff,
            payload: Payload::SetFunction {
                address: self.address,
                function: self.function,
                on: false,
            },
        }
    }

    /// The `OFF` frame came to `result`. Only an ack puts the function out.
    pub fn off_answered(&mut self, result: Result<Ack>) -> (r: PulseStep)
        requires
            old(self).wf(),
            old(self)@.phase == PulsePhase::TurningOff,
        ensures
            final(self).wf(),
            (final(self)@.phase, final(self)@.lit) == pulse_next(old(self)@.lit, PulseEvent::OffAnswered(result is Ok)),
            r == PulseStep::Done(result),
            final(self)@ == (if result is Ok {
                PulseRunView { phase: PulsePhase::Over, lit: false, ..old(self)@ }
            } else {
                PulseRunView { phase: PulsePhase::Failed, ..old(self)@ }
            }),
    {
        if result.is_ok() {
            self.phase = PulsePhase::Over;
            self.lit = false;
        } else {
            self.phase = PulsePhase::Failed;
        }
        PulseStep::Done(result)
    }

    /// The `OFF` frame with id `id` that a function which may still be lit gets
    /// when its pulse is dropped. Nobody waits for its ack.
    pub fn rollback_frame(&self, id: String) -> (r: Option<Envelope>)
        ensures
            match r {
                Some(frame) => self@.lit && frame@ == (EnvelopeView {
                    kind: FRAME_SET_FUNCTION@,
                    id: Some(id@),
                    payload: Some(function_payload(self@.address, self@.function, false)),
                }),
                None => !self@.lit,
            },
    {
        if !self.lit {
            return None;
        }
        Some(
            Envelope {
                kind: FRAME_SET_FUNCTION.to_owned(),
                id: Some(id),
                payload: Some(
                    Payload::SetFunction {
                        address: self.address,
                        function: self.function,
                        on: false,
                    },
                ),
            },
        )
    }

    /// The pulse is dropped, done or not: [`PulseRun::rollback_frame`] under a
    /// random id.
    pub fn rollback(&self) -> (r: Option<Envelope>)
        ensures
            match r {
                Some(frame) => {
                    &&& self@.lit
                    &&& frame@.kind == FRAME_SET_FUNCTION@
                    &&& frame@.id matches Some(id) && session::random_uuid_text(id)
                    &&& frame@.payload == Some(
                        function_payload(self@.address, self@.function, false),
                    )
                },
                None => !self@.lit,
            },
    {
        self.rollback_frame(fresh_id())
    }
}

/// The kept drive socket serves exactly the participant that the status shows for
/// it: it must be alive, and impersonate that participant and nobody else.
pub proof fn lemma_drive_socket_serves_whom_it_shows(
    kept: DriveSlot,
    login: Seq<char>,
    status: StatusView,
)
    ensures
        serves(Some(kept), login) <==> kept.alive && kept.login@ == login,
        serves(Some(kept), login) <==> drive_shown(status, served_login(Some(kept))).drive_as
            == Some(login),
        served_login(Some(kept)) is Some <==> kept.alive,
        !serves(None, login),
        served_login(None) is None,
{
}

/// The drive socket shows in its two members of the status only, and they agree:
/// somebody is named exactly if the socket is up.
pub proof fn lemma_drive_socket_shows_nowhere_else(
    status: StatusView,
    whom: Option<Seq<char>>,
    other: Option<Seq<char>>,
)
    ensures
        ({
            let shown = drive_shown(status, whom);
            &&& shown.drive_as == whom
            &&& shown.drive_connected <==> whom is Some
            &&& shown.connected == status.connected
            &&& shown.command_station_id == status.command_station_id
            &&& shown.command_station_name == status.command_station_name
            &&& shown.default_programming_track_output == status.default_programming_track_output
            &&& shown.last_error == status.last_error
            &&& shown.reconnects == status.reconnects
            &&& drive_shown(shown, other) == drive_shown(status, other)
        }),
{
}

/// A request whose first send met a dead socket is sent once more, and one that
/// did not is not: any answer, and any other failure, is final.
pub proof fn lemma_dead_socket_is_retried_once(results: Seq<Result<Ack>>)
    requires
        results.len() >= 2,
    ensures
        (results[0] matches Err(e) && e@ is DccBusUnreachable) ==> sends(false, results) == 2,
        results[0] is Ok ==> sends(false, results) == 1,
        sent_again(false, results[0]) <==> (results[0] matches Err(e) && e@ is DccBusUnreachable),
        !sent_again(true, results[0]),
{
    reveal_with_fuel(sends, 3);
}

/// Turning a function on and turning it off name the same function of the same
/// vehicle, and differ in nothing but that.
pub proof fn lemma_on_and_off_name_same_function(address: u16, function: u8, on: bool)
    ensures
        function_payload(address, function, on) matches PayloadView::SetFunction {
            address: a,
            function: f,
            on: o,
        } && a == address && f == function && o == on,
{
}

/// A pulse goes on by successes only: dialled it turns on, acked it is held, held
/// it turns off, acked again it is over; any failure ends it, and leaves the
/// light as it was.
pub proof fn lemma_pulse_goes_on_by_successes(lit: bool)
    ensures
        pulse_next(lit, PulseEvent::Dialled(true)) == (PulsePhase::TurningOn, lit),
        pulse_next(lit, PulseEvent::OnAnswered(true)) == (PulsePhase::Held, true),
        pulse_next(lit, PulseEvent::Waited) == (PulsePhase::TurningOff, lit),
        pulse_next(lit, PulseEvent::OffAnswered(true)) == (PulsePhase::Over, false),
        pulse_next(lit, PulseEvent::Dialled(false)) == (PulsePhase::Failed, lit),
        pulse_next(lit, PulseEvent::OnAnswered(false)) == (PulsePhase::Failed, lit),
        pulse_next(lit, PulseEvent::OffAnswered(false)) == (PulsePhase::Failed, lit),
{
}

/// In each phase exactly the event that the phase waits for can happen, and none
/// once the pulse is over or was given up.
pub proof fn lemma_pulse_expects_one_event(phase: PulsePhase, event: PulseEvent)
    requires
        pulse_expects(phase, event),
    ensures
        phase == PulsePhase::Dialling <==> event is Dialled,
        phase == PulsePhase::TurningOn <==> event is OnAnswered,
        phase == PulsePhase::Held <==> event is Waited,
        phase == PulsePhase::TurningOff <==> event is OffAnswered,
        phase != PulsePhase::Over,
        phase != PulsePhase::Failed,
{
}

/// A drive socket is reused exactly if it is alive and already that participant,
/// else dialled for that participant; a blank login is refused. White space around
/// the login does not matter.
pub proof fn lemma_drive_plan_follows_login(
    slot: Option<DriveSlot>,
    as_login: Seq<char>,
    other: Seq<char>,
    r: Result<DrivePlan>,
)
    requires
        drive_planned(slot, as_login, r),
    ensures
        r is Err <==> text::trimmed(as_login).len() == 0,
        r matches Err(e) ==> e@ is ImpersonateRequired,
        r == Ok::<DrivePlan, Error>(DrivePlan::Reuse) ==> (slot matches Some(kept) && kept.alive
            && kept.login@ == text::trimmed(as_login)),
        r matches Ok(DrivePlan::Dial { login }) ==> login@ == text::trimmed(as_login),
        (slot matches Some(kept) && kept.alive && kept.login@ == text::trimmed(as_login)
            && kept.login@.len() > 0) ==> r == Ok::<DrivePlan, Error>(DrivePlan::Reuse),
        text::trimmed(other) == text::trimmed(as_login) ==> drive_planned(slot, other, r),
{
}

} // verus!
