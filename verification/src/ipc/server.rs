//! Accept loop: one-shot or persistent sessions, auth, client cap, command
//! dispatch.

use crate::io::IoFailureView;
use crate::io::IoKind;
use crate::ipc::auth::Auth;
use crate::ipc::command::RejectReason;
use crate::ipc::command::Router;
use crate::ipc::frame::FrameError;
use crate::ipc::frame::FrameErrorView;
use crate::ipc::frame;
use crate::json::string_member;
use crate::json;
use crate::text;
use vstd::prelude::*;
use vstd::string::*;

verus! {

/// One request then close, or request loop until EOF.
#[derive(Debug, Clone, Copy, PartialEq, Eq, Structural)]
pub enum SessionMode {
    OneShot,
    Persistent,
}

/// Dispatch / handler failures (not wire-shaped; daemons map to their JSON).
#[derive(Debug, PartialEq, Eq)]
pub enum IpcError {
    /// Framing / JSON.
    Frame(FrameError),
    /// Handler failure with a display message.
    Other(String),
    /// End the session without writing an error (e.g. streaming command done).
    Hangup,
}

/// What an [`IpcError`] says.
pub enum IpcErrorView {
    Frame(FrameErrorView),
    Other(Seq<char>),
    Hangup,
}

impl View for IpcError {
    type V = IpcErrorView;

    open spec fn view(&self) -> IpcErrorView {
        match self {
            IpcError::Frame(e) => IpcErrorView::Frame(e@),
            IpcError::Other(t) => IpcErrorView::Other(t@),
            IpcError::Hangup => IpcErrorView::Hangup,
        }
    }
}

/// The message of a failure.
pub open spec fn ipc_error_message(e: IpcErrorView) -> Seq<char> {
    match e {
        IpcErrorView::Frame(e) => frame::frame_error_message(e),
        IpcErrorView::Other(t) => t,
        IpcErrorView::Hangup => "session closed"@,
    }
}

impl IpcError {
    /// The message of the failure.
    pub fn message(&self) -> (r: String)
        ensures
            r@ == ipc_error_message(self@),
    {
        match self {
            IpcError::Frame(e) => e.message(),
            IpcError::Other(t) => t.clone(),
            IpcError::Hangup => "session closed".to_owned(),
        }
    }
}

/// Accept-loop policy (auth, session, caps).
#[derive(Debug, Clone, PartialEq, Eq)]
pub struct AcceptPolicy {
    /// Peer authentication.
    pub auth: Auth,
    /// One request per connection vs request loop.
    pub session: SessionMode,
    /// Concurrent client cap; `None` is unbounded.
    pub max_clients: Option<usize>,
    /// Frame payload cap in bytes.
    pub max_frame: usize,
}

/// What comes and goes at a gate.
pub enum GateEvent {
    Arrived,
    Left,
}

/// How many clients are served once `event` has happened to a gate of cap `max`
/// that serves `active`: a client over the cap is turned away.
pub open spec fn gate_next(max: nat, active: int, event: GateEvent) -> int {
    match event {
        GateEvent::Arrived => if active >= max {
            active
        } else {
            active + 1
        },
        GateEvent::Left => active - 1,
    }
}

/// Counts the clients that are served at a time, where there is a cap.
#[derive(Debug, PartialEq, Eq)]
pub struct ClientGate {
    max_clients: Option<usize>,
    active: usize,
}

impl ClientGate {
    /// The cap.
    pub closed spec fn max_clients(&self) -> Option<usize> {
        self.max_clients
    }

    /// The clients being served, counted only where there is a cap.
    pub closed spec fn active(&self) -> nat {
        self.active as nat
    }

    /// The cap is kept.
    pub open spec fn wf(&self) -> bool {
        match self.max_clients() {
            Some(max) => self.active() <= max,
            None => self.active() == 0,
        }
    }

    /// A gate that serves nobody yet.
    pub fn new(max_clients: Option<usize>) -> (r: Self)
        ensures
            r.wf(),
            r.max_clients() == max_clients,
            r.active() == 0,
    {
        ClientGate { max_clients, active: 0 }
    }

    /// A client was accepted: it is served, or rejected because the cap is
    /// reached.
    pub fn enter(&mut self) -> (r: Option<RejectReason>)
        requires
            old(self).wf(),
        ensures
            final(self).wf(),
            final(self).max_clients() == old(self).max_clients(),
            match old(self).max_clients() {
                Some(max) => {
                    &&& r == (if old(self).active() >= max {
                        Some(RejectReason::Busy)
                    } else {
                        None
                    })
                    &&& final(self).active() == gate_next(
                        max as nat,
                        old(self).active() as int,
                        GateEvent::Arrived,
                    )
                },
                None => r is None && final(self).active() == old(self).active(),
            },
    {
        match self.max_clients {
            Some(max) => {
                if self.active >= max {
                    return Some(RejectReason::Busy);
                }
                self.active = self.active + 1;
                None
            },
            None => None,
        }
    }

    /// A client that was served is gone.
    pub fn release(&mut self)
        requires
            old(self).wf(),
            old(self).max_clients() is Some ==> old(self).active() > 0,
        ensures
            final(self).wf(),
            final(self).max_clients() == old(self).max_clients(),
            final(self).active() == (match old(self).max_clients() {
                Some(max) => gate_next(max as nat, old(self).active() as int, GateEvent::Left),
                None => old(self).active() as int,
            }),
    {
        if self.max_clients.is_some() {
            self.active = self.active - 1;
        }
    }
}

/// How long the accept loop waits for a client before it looks after its socket
/// path, in milliseconds.
pub const ACCEPT_WAIT_MS: u64 = 1_000;

/// What the accept loop does next.
#[derive(Debug, Clone, Copy, PartialEq, Eq, Structural)]
pub enum AcceptStep {
    /// Accept the next client.
    Accept,
    /// End the loop.
    Stop,
}

/// Accepting a client failed. Serving ends when the socket path has disappeared,
/// and goes on otherwise.
pub fn accept_failed(path_exists: bool) -> (r: AcceptStep)
    ensures
        r == AcceptStep::Stop <==> !path_exists,
{
    if path_exists {
        AcceptStep::Accept
    } else {
        AcceptStep::Stop
    }
}

/// No client came within [`ACCEPT_WAIT_MS`]. Serving ends when the socket path
/// has disappeared, and goes on otherwise.
pub fn accept_waited(path_exists: bool) -> (r: AcceptStep)
    ensures
        r == AcceptStep::Stop <==> !path_exists,
{
    if path_exists {
        AcceptStep::Accept
    } else {
        AcceptStep::Stop
    }
}

/// How many clients are served after `events`, under the cap `max`.
pub open spec fn served_after(max: nat, events: Seq<GateEvent>) -> int
    decreases events.len(),
{
    if events.len() == 0 {
        0
    } else {
        gate_next(max, served_after(max, events.drop_last()), events.last())
    }
}

/// Whatever comes and goes, no more clients than the cap are served at a time.
pub proof fn lemma_client_cap_is_kept(max: nat, events: Seq<GateEvent>)
    ensures
        served_after(max, events) <= max,
    decreases events.len(),
{
    if events.len() > 0 {
        lemma_client_cap_is_kept(max, events.drop_last());
    }
}

/// How far a connection has come.
#[derive(Debug, Clone, Copy, PartialEq, Eq, Structural)]
pub enum ConnPhase {
    /// The peer is being authenticated.
    Opening,
    /// A request is being read.
    Reading,
    /// A command is being executed.
    Executing,
    /// The connection is to be dropped.
    Closed,
}

/// What a connection does next.
pub enum ConnStep<'r, C> {
    /// Tell the peer that it is rejected, then drop the connection.
    Reject(RejectReason),
    /// Read one frame.
    Read,
    /// Tell the peer that its request is of an unknown type; then drop the
    /// connection, or read the next frame.
    Unknown { kind: String, close: bool },
    /// Execute this command.
    Execute(&'r C),
    /// Tell the peer of this failure; then drop the connection, or read the next
    /// frame.
    Report { error: IpcError, close: bool },
    /// Drop the connection.
    Close,
}

/// Where a connection goes once a request has been answered.
pub open spec fn after_answer(mode: SessionMode) -> ConnPhase {
    match mode {
        SessionMode::OneShot => ConnPhase::Closed,
        SessionMode::Persistent => ConnPhase::Reading,
    }
}

/// What happens to a connection.
pub enum ConnEvent {
    /// The peer was authenticated, or not.
    Authenticated(bool),
    /// A request could not be read.
    Unreadable,
    /// A request of an unknown type was read.
    Unroutable,
    /// A request for a command was read.
    Routed,
    /// The command was executed; whether it hung up.
    Executed(bool),
}

/// Whether `event` can happen in `phase`.
pub open spec fn conn_expects(phase: ConnPhase, event: ConnEvent) -> bool {
    match event {
        ConnEvent::Authenticated(_) => phase == ConnPhase::Opening,
        ConnEvent::Unreadable | ConnEvent::Unroutable | ConnEvent::Routed => phase
            == ConnPhase::Reading,
        ConnEvent::Executed(_) => phase == ConnPhase::Executing,
    }
}

/// Where `event` takes a connection.
pub open spec fn conn_next(mode: SessionMode, event: ConnEvent) -> ConnPhase {
    match event {
        ConnEvent::Authenticated(true) => ConnPhase::Reading,
        ConnEvent::Authenticated(false) | ConnEvent::Unreadable => ConnPhase::Closed,
        ConnEvent::Unroutable | ConnEvent::Executed(false) => after_answer(mode),
        ConnEvent::Routed => ConnPhase::Executing,
        ConnEvent::Executed(true) => ConnPhase::Closed,
    }
}

/// Whether a request loop ends without a word when reading fails like this: the
/// peer is gone.
pub open spec fn quiet_end(mode: SessionMode, e: FrameErrorView) -> bool {
    mode == SessionMode::Persistent && match e {
        FrameErrorView::UnexpectedEof { .. } => true,
        FrameErrorView::Io(IoFailureView { kind, .. }) => kind == IoKind::UnexpectedEof || kind
            == IoKind::ConnectionReset,
        _ => false,
    }
}

/// The `"type"` of a request: its text if it has one, or why the request could
/// not be read.
pub open spec fn request_type(frame: Result<Vec<u8>, FrameError>) -> Result<
    Option<Seq<char>>,
    FrameErrorView,
> {
    match frame {
        Err(e) => Err(e@),
        Ok(body) => match json::json_member(body@, "type"@) {
            Ok(name) => Ok(name),
            Err(message) => Err(FrameErrorView::Json(message)),
        },
    }
}

/// What a connection does about a request of type `name`, and where that leaves
/// it.
pub open spec fn answers<C>(
    mode: SessionMode,
    commands: Map<Seq<char>, C>,
    name: Result<Option<Seq<char>>, FrameErrorView>,
    step: ConnStep<C>,
    phase: ConnPhase,
) -> bool {
    match name {
        Err(e) => {
            &&& phase == conn_next(mode, ConnEvent::Unreadable)
            &&& if quiet_end(mode, e) {
                step is Close
            } else {
                step matches ConnStep::Report { error, close } && close && error@
                    == IpcErrorView::Frame(e)
            }
        },
        Ok(Some(name)) if commands.contains_key(name) => {
            &&& phase == conn_next(mode, ConnEvent::Routed)
            &&& step matches ConnStep::Execute(cmd) && *cmd == commands[name]
        },
        Ok(name) => {
            &&& phase == conn_next(mode, ConnEvent::Unroutable)
            &&& step matches ConnStep::Unknown { kind, close } && kind@ == (match name {
                Some(name) => name,
                None => Seq::empty(),
            }) && close == (mode == SessionMode::OneShot)
        },
    }
}

/// What a connection does once a command came to `result`, and where that leaves
/// it.
pub open spec fn executed_as<C>(
    mode: SessionMode,
    result: Result<(), IpcError>,
    step: ConnStep<C>,
    phase: ConnPhase,
) -> bool {
    match result {
        Ok(_) => {
            &&& phase == conn_next(mode, ConnEvent::Executed(false))
            &&& match mode {
                SessionMode::OneShot => step is Close,
                SessionMode::Persistent => step is Read,
            }
        },
        Err(IpcError::Hangup) => {
            &&& phase == conn_next(mode, ConnEvent::Executed(true))
            &&& step is Close
        },
        Err(e) => {
            &&& phase == conn_next(mode, ConnEvent::Executed(false))
            &&& step matches ConnStep::Report { error, close } && error == e && close == (mode
                == SessionMode::OneShot)
        },
    }
}

/// Whether a step drops the connection.
pub open spec fn closes<C>(step: ConnStep<C>) -> bool {
    match step {
        ConnStep::Reject(_) | ConnStep::Close => true,
        ConnStep::Unknown { close, .. } => close,
        ConnStep::Report { close, .. } => close,
        ConnStep::Read | ConnStep::Execute(_) => false,
    }
}

/// Whether a step goes on to read a frame.
pub open spec fn reads_on<C>(step: ConnStep<C>) -> bool {
    match step {
        ConnStep::Read => true,
        ConnStep::Unknown { close, .. } => !close,
        ConnStep::Report { close, .. } => !close,
        ConnStep::Reject(_) | ConnStep::Close | ConnStep::Execute(_) => false,
    }
}

/// One client connection.
#[derive(Debug, PartialEq, Eq)]
pub struct ConnRun {
    mode: SessionMode,
    phase: ConnPhase,
}

impl ConnRun {
    /// One request or many.
    pub closed spec fn mode(&self) -> SessionMode {
        self.mode
    }

    /// How far the connection has come.
    pub closed spec fn phase(&self) -> ConnPhase {
        self.phase
    }

    /// An accepted connection.
    pub fn open(mode: SessionMode) -> (r: Self)
        ensures
            r.mode() == mode,
            r.phase() == ConnPhase::Opening,
    {
        ConnRun { mode, phase: ConnPhase::Opening }
    }

    /// The peer was authenticated, or not.
    pub fn authenticated<'r, C>(&mut self, allowed: bool) -> (r: ConnStep<'r, C>)
        requires
            old(self).phase() == ConnPhase::Opening,
        ensures
            final(self).mode() == old(self).mode(),
            final(self).phase() == conn_next(old(self).mode(), ConnEvent::Authenticated(allowed)),
            r == (if allowed {
                ConnStep::<C>::Read
            } else {
                ConnStep::<C>::Reject(RejectReason::Auth)
            }),
    {
        if allowed {
            self.phase = ConnPhase::Reading;
            ConnStep::Read
        } else {
            self.phase = ConnPhase::Closed;
            ConnStep::Reject(RejectReason::Auth)
        }
    }

    fn answered(&mut self)
        ensures
            final(self).mode() == old(self).mode(),
            final(self).phase() == after_answer(old(self).mode()),
    {
        self.phase = match self.mode {
            SessionMode::OneShot => ConnPhase::Closed,
            SessionMode::Persistent => ConnPhase::Reading,
        };
    }

    /// The `"type"` of a request is known, or that it could not be read.
    pub fn typed<'r, C>(
        &mut self,
        router: &'r Router<C>,
        name: Result<Option<String>, FrameError>,
    ) -> (r: ConnStep<'r, C>)
        requires
            old(self).phase() == ConnPhase::Reading,
            router.wf(),
        ensures
            final(self).mode() == old(self).mode(),
            answers(
                old(self).mode(),
                router@,
                match name {
                    Ok(name) => Ok(text::opt_text(name)),
                    Err(e) => Err(e@),
                },
                r,
                final(self).phase(),
            ),
            closes(r) <==> final(self).phase() == ConnPhase::Closed,
            reads_on(r) <==> final(self).phase() == ConnPhase::Reading,
    {
        match name {
            Err(e) => {
                self.phase = ConnPhase::Closed;
                let quiet = self.mode == SessionMode::Persistent && match &e {
                    FrameError::UnexpectedEof { .. } => true,
                    FrameError::Io(source) => source.kind == IoKind::UnexpectedEof || source.kind
                        == IoKind::ConnectionReset,
                    _ => false,
                };
                if quiet {
                    ConnStep::Close
                } else {
                    ConnStep::Report { error: IpcError::Frame(e), close: true }
                }
            },
            Ok(Some(name)) => match router.get(name.as_str()) {
                Some(cmd) => {
                    self.phase = ConnPhase::Executing;
                    ConnStep::Execute(cmd)
                },
                None => {
                    self.answered();
                    ConnStep::Unknown {
                        kind: name,
                        close: self.mode == SessionMode::OneShot,
                    }
                },
            },
            Ok(None) => {
                self.answered();
                ConnStep::Unknown {
                    kind: String::new(),
                    close: self.mode == SessionMode::OneShot,
                }
            },
        }
    }

    /// Reading a frame came to `frame`.
    pub fn frame_read<'r, C>(
        &mut self,
        router: &'r Router<C>,
        frame: Result<Vec<u8>, FrameError>,
    ) -> (r: ConnStep<'r, C>)
        requires
            old(self).phase() == ConnPhase::Reading,
            router.wf(),
        ensures
            final(self).mode() == old(self).mode(),
            answers(
                old(self).mode(),
                router@,
                request_type(frame),
                r,
                final(self).phase(),
            ),
            closes(r) <==> final(self).phase() == ConnPhase::Closed,
            reads_on(r) <==> final(self).phase() == ConnPhase::Reading,
    {
        let name: Result<Option<String>, FrameError> = match frame {
            Err(e) => Err(e),
            Ok(body) => match string_member(body.as_slice(), "type") {
                Ok(name) => Ok(name),
                Err(message) => Err(FrameError::Json(message)),
            },
        };
        self.typed(router, name)
    }

    /// The command was executed. A hangup ends the connection without a word, in
    /// either mode; any other failure is told.
    pub fn executed<'r, C>(&mut self, result: Result<(), IpcError>) -> (r: ConnStep<'r, C>)
        requires
            old(self).phase() == ConnPhase::Executing,
        ensures
            final(self).mode() == old(self).mode(),
            final(self).phase() == conn_next(
                old(self).mode(),
                ConnEvent::Executed(result == Err::<(), IpcError>(IpcError::Hangup)),
            ),
            match result {
                Ok(_) => r == (match old(self).mode() {
                    SessionMode::OneShot => ConnStep::<C>::Close,
                    SessionMode::Persistent => ConnStep::<C>::Read,
                }),
                Err(IpcError::Hangup) => r is Close,
                Err(e) => r matches ConnStep::Report { error, close } && error == e && close == (
                old(self).mode() == SessionMode::OneShot),
            },
            executed_as(old(self).mode(), result, r, final(self).phase()),
            closes(r) <==> final(self).phase() == ConnPhase::Closed,
            reads_on(r) <==> final(self).phase() == ConnPhase::Reading,
    {
        match result {
            Ok(_) => {
                self.answered();
                match self.mode {
                    SessionMode::OneShot => ConnStep::Close,
                    SessionMode::Persistent => ConnStep::Read,
                }
            },
            Err(IpcError::Hangup) => {
                self.phase = ConnPhase::Closed;
                ConnStep::Close
            },
            Err(e) => {
                self.answered();
                ConnStep::Report { error: e, close: self.mode == SessionMode::OneShot }
            },
        }
    }
}

/// The phase after `events`.
pub open spec fn conn_after(mode: SessionMode, events: Seq<ConnEvent>) -> ConnPhase {
    if events.len() == 0 {
        ConnPhase::Opening
    } else {
        conn_next(mode, events.last())
    }
}

/// Whether each of `events` can happen when it does.
pub open spec fn conn_legal(mode: SessionMode, events: Seq<ConnEvent>) -> bool
    decreases events.len(),
{
    events.len() > 0 ==> {
        &&& conn_legal(mode, events.drop_last())
        &&& conn_expects(conn_after(mode, events.drop_last()), events.last())
    }
}

/// How many requests were read among `events`.
pub open spec fn requests_read(events: Seq<ConnEvent>) -> nat
    decreases events.len(),
{
    if events.len() == 0 {
        0
    } else {
        requests_read(events.drop_last()) + (if events.last() is Unreadable || events.last()
            is Unroutable || events.last() is Routed {
            1nat
        } else {
            0
        })
    }
}

/// A one-shot connection reads at most one request.
pub proof fn lemma_one_shot_reads_once(events: Seq<ConnEvent>)
    requires
        conn_legal(SessionMode::OneShot, events),
    ensures
        requests_read(events) <= 1,
{
    lemma_one_shot_history(events);
}

proof fn lemma_one_shot_history(events: Seq<ConnEvent>)
    requires
        conn_legal(SessionMode::OneShot, events),
    ensures
        match conn_after(SessionMode::OneShot, events) {
            ConnPhase::Opening | ConnPhase::Reading => requests_read(events) == 0,
            ConnPhase::Executing => requests_read(events) == 1,
            ConnPhase::Closed => requests_read(events) <= 1,
        },
    decreases events.len(),
{
    if events.len() > 0 {
        lemma_one_shot_history(events.drop_last());
    }
}

/// No request of a peer that was not admitted is ever read: a connection that has
/// read one was authenticated before anything else.
pub proof fn lemma_nothing_read_before_auth(mode: SessionMode, events: Seq<ConnEvent>)
    requires
        conn_legal(mode, events),
        requests_read(events) > 0,
    ensures
        events[0] == ConnEvent::Authenticated(true),
{
    lemma_auth_comes_first(mode, events);
}

proof fn lemma_auth_comes_first(mode: SessionMode, events: Seq<ConnEvent>)
    requires
        conn_legal(mode, events),
    ensures
        events.len() > 0 ==> events[0] is Authenticated,
        events.len() > 0 && events[0] == ConnEvent::Authenticated(false) ==> events.len() == 1,
        requests_read(events) > 0 ==> events.len() > 1,
    decreases events.len(),
{
    if events.len() > 0 {
        let before = events.drop_last();
        lemma_auth_comes_first(mode, before);
        if before.len() > 0 {
            assert(events[0] == before[0]);
            if before[0] == ConnEvent::Authenticated(false) {
                assert(before.last() == before[0]);
            }
        }
    }
}

/// What a peer is told and what becomes of its connection agree: an answer says
/// that it closes exactly if the connection is then closed, and that it does not
/// exactly if the next request is then read.
pub proof fn lemma_answer_says_what_happens<C>(
    mode: SessionMode,
    commands: Map<Seq<char>, C>,
    name: Result<Option<Seq<char>>, FrameErrorView>,
    step: ConnStep<C>,
    phase: ConnPhase,
)
    requires
        answers(mode, commands, name, step, phase),
    ensures
        step matches ConnStep::Unknown { close, .. } ==> (close <==> phase == ConnPhase::Closed)
            && (!close <==> phase == ConnPhase::Reading),
        step matches ConnStep::Report { close, .. } ==> (close <==> phase == ConnPhase::Closed) && (
        !close <==> phase == ConnPhase::Reading),
        step is Close ==> phase == ConnPhase::Closed,
        step is Execute <==> phase == ConnPhase::Executing,
        !(step is Reject) && !(step is Read),
{
}

/// A persistent session goes on after every request that could be read, named or
/// not: one of an unknown type is answered with its type and the next request is
/// read.
pub proof fn lemma_persistent_session_survives_unknown<C>(
    commands: Map<Seq<char>, C>,
    name: Option<Seq<char>>,
    step: ConnStep<C>,
    phase: ConnPhase,
)
    requires
        answers(SessionMode::Persistent, commands, Ok(name), step, phase),
    ensures
        phase != ConnPhase::Closed,
        (name matches Some(n) ==> !commands.contains_key(n)) ==> {
            &&& phase == ConnPhase::Reading
            &&& step matches ConnStep::Unknown { kind, close } && !close && (match name {
                Some(n) => kind@ == n,
                None => kind@.len() == 0,
            })
        },
{
}

/// A one-shot session ends with its request, whether that is of a known type or
/// not, could be read or not.
pub proof fn lemma_one_shot_session_ends<C>(
    commands: Map<Seq<char>, C>,
    name: Result<Option<Seq<char>>, FrameErrorView>,
    step: ConnStep<C>,
    phase: ConnPhase,
)
    requires
        answers(SessionMode::OneShot, commands, name, step, phase),
    ensures
        phase != ConnPhase::Reading,
        name matches Ok(Some(n)) ==> (!commands.contains_key(n) ==> (
        step matches ConnStep::Unknown { kind, close } && kind@ == n && close)),
        name matches Ok(None) ==> (step matches ConnStep::Unknown { kind, close } && kind@.len()
            == 0 && close),
        name matches Err(e) ==> (step matches ConnStep::Report { error, close } && close && error@
            == IpcErrorView::Frame(e)),
{
}

/// In either mode a registered type, and nothing else, executes the command that
/// was registered under it.
pub proof fn lemma_registered_type_is_executed<C>(
    mode: SessionMode,
    commands: Map<Seq<char>, C>,
    name: Result<Option<Seq<char>>, FrameErrorView>,
    step: ConnStep<C>,
    phase: ConnPhase,
)
    requires
        answers(mode, commands, name, step, phase),
    ensures
        step is Execute <==> (name matches Ok(Some(n)) && commands.contains_key(n)),
        step matches ConnStep::Execute(cmd) ==> (name matches Ok(Some(n)) && *cmd == commands[n]),
{
}

/// A request that cannot be read always ends the connection. It is told why,
/// unless a request loop lost its peer: the stream ended, or was reset.
pub proof fn lemma_unreadable_request_closes<C>(
    mode: SessionMode,
    commands: Map<Seq<char>, C>,
    e: FrameErrorView,
    step: ConnStep<C>,
    phase: ConnPhase,
)
    requires
        answers(mode, commands, Err(e), step, phase),
    ensures
        phase == ConnPhase::Closed,
        step is Close || step is Report,
        step matches ConnStep::Report { error, close } ==> close && error@
            == IpcErrorView::Frame(e),
        step is Close <==> mode == SessionMode::Persistent && (e is UnexpectedEof || (
        e matches FrameErrorView::Io(source) && (source.kind == IoKind::UnexpectedEof
            || source.kind == IoKind::ConnectionReset))),
{
}

/// What was read is told by the frame alone: a frame error is handed on, a body
/// that is no JSON is one, and any other body is asked for its `"type"`.
pub proof fn lemma_request_type_follows_frame(frame: Result<Vec<u8>, FrameError>)
    ensures
        frame matches Err(e) ==> request_type(frame) == Err::<Option<Seq<char>>, FrameErrorView>(e@),
        frame matches Ok(body) ==> (json::json_member(body@, "type"@) matches Ok(name)
            ==> request_type(frame) == Ok::<Option<Seq<char>>, FrameErrorView>(name)),
        frame matches Ok(body) ==> (json::json_member(body@, "type"@) matches Err(message)
            ==> request_type(frame) == Err::<Option<Seq<char>>, FrameErrorView>(
            FrameErrorView::Json(message),
        )),
{
}

/// After a command, too, what is told and what happens agree: a hangup ends the
/// connection without a word in either mode, any other failure is told as it is,
/// and only a request loop then goes on.
pub proof fn lemma_execution_is_answered<C>(
    mode: SessionMode,
    result: Result<(), IpcError>,
    step: ConnStep<C>,
    phase: ConnPhase,
)
    requires
        executed_as(mode, result, step, phase),
    ensures
        phase == ConnPhase::Closed || phase == ConnPhase::Reading,
        phase == ConnPhase::Reading <==> mode == SessionMode::Persistent && result != Err::<
            (),
            IpcError,
        >(IpcError::Hangup),
        step is Report <==> (result matches Err(e) && e !is Hangup),
        step matches ConnStep::Report { error, close } ==> result == Err::<(), IpcError>(error) && (
        close <==> phase == ConnPhase::Closed),
        step is Read ==> phase == ConnPhase::Reading,
        step is Close ==> phase == ConnPhase::Closed,
        step is Report || step is Read || step is Close,
{
}

/// Where events take a connection: an admitted peer is read from, a refused one
/// dropped; a routed request is executed; an answered one ends a one-shot
/// connection and not a persistent one; and a request that cannot be read or a
/// hangup ends either.
pub proof fn lemma_events_take_connection(mode: SessionMode)
    ensures
        conn_next(mode, ConnEvent::Authenticated(true)) == ConnPhase::Reading,
        conn_next(mode, ConnEvent::Authenticated(false)) == ConnPhase::Closed,
        conn_next(mode, ConnEvent::Unreadable) == ConnPhase::Closed,
        conn_next(mode, ConnEvent::Routed) == ConnPhase::Executing,
        conn_next(mode, ConnEvent::Executed(true)) == ConnPhase::Closed,
        conn_next(mode, ConnEvent::Unroutable) == conn_next(mode, ConnEvent::Executed(false)),
        conn_next(mode, ConnEvent::Unroutable) == ConnPhase::Reading <==> mode
            == SessionMode::Persistent,
        conn_next(mode, ConnEvent::Unroutable) == ConnPhase::Closed <==> mode
            == SessionMode::OneShot,
        after_answer(mode) == conn_next(mode, ConnEvent::Unroutable),
{
}

/// A request loop that only meets requests it can answer never ends: it reads on
/// after each of them.
pub proof fn lemma_request_loop_goes_on(events: Seq<ConnEvent>)
    requires
        events.len() > 0,
        events.last() is Unroutable || events.last() == ConnEvent::Executed(false),
    ensures
        conn_after(SessionMode::Persistent, events) == ConnPhase::Reading,
        conn_after(SessionMode::OneShot, events) == ConnPhase::Closed,
{
}

/// A client below the cap is let in, one at the cap changes nothing, and a client
/// that leaves makes room for exactly one more.
pub proof fn lemma_gate_counts(max: nat, active: int)
    requires
        0 <= active <= max,
    ensures
        active < max ==> gate_next(max, active, GateEvent::Arrived) == active + 1,
        active == max ==> gate_next(max, active, GateEvent::Arrived) == active,
        gate_next(max, active, GateEvent::Left) == active - 1,
        active < max ==> gate_next(
            max,
            gate_next(max, active, GateEvent::Arrived),
            GateEvent::Left,
        ) == active,
        active > 0 ==> gate_next(
            max,
            gate_next(max, active, GateEvent::Left),
            GateEvent::Arrived,
        ) == active,
{
}

/// Each failure says what it carries: a framing error its own message, any other
/// its text.
pub proof fn lemma_ipc_messages(e: FrameErrorView, text: Seq<char>)
    ensures
        ipc_error_message(IpcErrorView::Frame(e)) == frame::frame_error_message(e),
        ipc_error_message(IpcErrorView::Other(text)) == text,
        ipc_error_message(IpcErrorView::Hangup) == "session closed"@,
{
}

/// In each phase exactly the events that the phase waits for can happen, and none
/// once the connection is closed.
pub proof fn lemma_phases_expect_their_events(phase: ConnPhase, event: ConnEvent)
    ensures
        conn_expects(phase, event) ==> {
            &&& phase == ConnPhase::Opening <==> event is Authenticated
            &&& phase == ConnPhase::Reading <==> event is Unreadable || event is Unroutable
                || event is Routed
            &&& phase == ConnPhase::Executing <==> event is Executed
            &&& phase != ConnPhase::Closed
        },
        event is Authenticated ==> conn_expects(ConnPhase::Opening, event),
        event is Unreadable || event is Unroutable || event is Routed ==> conn_expects(
            ConnPhase::Reading,
            event,
        ),
        event is Executed ==> conn_expects(ConnPhase::Executing, event),
{
}

} // verus!
