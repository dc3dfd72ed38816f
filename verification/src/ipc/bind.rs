//! Bind / claim a Unix control socket.
//!
//! IPC is **always a singleton**. The path is probed with `connect` before the
//! inode is touched:
//!
//! - a live peer → [`BindError::AlreadyRunning`]; the path is left untouched
//! - a stale leftover (`ENOENT` / `ECONNREFUSED`) → unlink, then bind
//!
//! A second process must never unlink a live socket. That would steal the path
//! from the running daemon and break its clients.

use crate::fspath::FsPath;
use crate::fspath;
use crate::io::IoFailure;
use crate::io::IoFailureView;
use crate::io::IoKind;
use crate::text::decimal;
use crate::text;
use vstd::prelude::*;
use vstd::string::*;

verus! {

/// Options for claiming and binding a control socket.
#[derive(Debug, Clone, PartialEq, Eq)]
pub struct BindOptions {
    /// Socket path.
    pub path: FsPath,
    /// Permission bits after bind (e.g. `0o600`, `0o660`, `0o666`).
    pub mode: u32,
    /// Optional `chown(uid, gid)` after chmod.
    pub chown: Option<(u32, u32)>,
    /// Process name used in [`BindError::AlreadyRunning`] (`"micronet"`).
    pub process_name: &'static str,
}

/// Bind / claim failures.
#[derive(Debug, PartialEq, Eq)]
#[allow(inconsistent_fields)]
pub enum BindError {
    /// Another daemon answered `connect` on the socket. The inode was not
    /// unlinked.
    AlreadyRunning {
        /// Daemon name for the error string.
        process_name: &'static str,
        /// Path, optionally with `(pid N)`.
        location: String,
        /// Socket path.
        path: FsPath,
        /// Peer pid when available.
        pid: u32,
    },
    /// Filesystem or bind failure.
    Io {
        /// Path involved.
        path: FsPath,
        /// Underlying error.
        source: IoFailure,
    },
}

/// What a [`BindError`] says.
#[allow(inconsistent_fields)]
pub enum BindErrorView {
    AlreadyRunning { process_name: Seq<char>, location: Seq<char>, path: Seq<u8>, pid: u32 },
    Io { path: Seq<u8>, source: IoFailureView },
}

impl View for BindError {
    type V = BindErrorView;

    open spec fn view(&self) -> BindErrorView {
        match self {
            BindError::AlreadyRunning { process_name, location, path, pid } =>
            BindErrorView::AlreadyRunning {
                process_name: process_name@,
                location: location@,
                path: path@,
                pid: *pid,
            },
            BindError::Io { path, source } => BindErrorView::Io { path: path@, source: source@ },
        }
    }
}

/// The message of a bind failure.
pub open spec fn bind_error_message(e: BindErrorView) -> Seq<char> {
    match e {
        BindErrorView::AlreadyRunning { process_name, location, .. } => process_name
            + " already running at "@ + location,
        BindErrorView::Io { path, source } => "I/O error on "@ + text::lossy_text(path) + ": "@
            + source.text,
    }
}

impl BindError {
    /// The message of the failure.
    pub fn message(&self) -> (r: String)
        ensures
            r@ == bind_error_message(self@),
    {
        match self {
            BindError::AlreadyRunning { process_name, location, .. } => {
                (*process_name).to_owned().concat(" already running at ").concat(location.as_str())
            },
            BindError::Io { path, source } => "I/O error on ".to_owned().concat(
                path.display().as_str(),
            ).concat(": ").concat(source.text.as_str()),
        }
    }
}

/// What connecting to a socket path came to.
#[derive(Debug, PartialEq, Eq)]
pub enum Probe {
    /// A peer answered. `pid` is `0` where it could not be told.
    Live { pid: u32 },
    /// Nobody answered.
    Failed(IoFailure),
}

/// Whether a failed probe means that the path is free.
pub open spec fn stale_kind(kind: IoKind) -> bool {
    kind == IoKind::NotFound || kind == IoKind::ConnectionRefused
}

/// Whether a failed probe means that the path is free.
pub fn is_stale_socket_connect_error(err: &IoFailure) -> (r: bool)
    ensures
        r == stale_kind(err.kind),
{
    err.kind == IoKind::NotFound || err.kind == IoKind::ConnectionRefused
}

/// Where a live peer was met: the path, and its pid when known.
pub open spec fn peer_location(path: Seq<u8>, pid: u32) -> Seq<char> {
    if pid != 0 {
        text::lossy_text(path) + " (pid "@ + text::decimal_text(pid as nat) + ")"@
    } else {
        text::lossy_text(path)
    }
}

/// What a probe means for claiming `path`: nothing stands in the way, or why
/// something does.
pub open spec fn claim_refusal(path: Seq<u8>, process_name: Seq<char>, probe: Probe) -> Option<
    BindErrorView,
> {
    match probe {
        Probe::Live { pid } => Some(
            BindErrorView::AlreadyRunning {
                process_name,
                location: peer_location(path, pid),
                path,
                pid,
            },
        ),
        Probe::Failed(source) => if stale_kind(source.kind) {
            None
        } else {
            Some(BindErrorView::Io { path, source: source@ })
        },
    }
}

/// Whether a probe result is as refused or admitted by `refusal`.
pub open spec fn refused_with(r: Result<(), BindError>, refusal: Option<BindErrorView>) -> bool {
    match refusal {
        None => r is Ok,
        Some(view) => r matches Err(e) && e@ == view,
    }
}

/// Decides whether `path` may be claimed: only then may the leftover inode be
/// unlinked. A live peer is an error.
pub fn claim(path: &FsPath, process_name: &'static str, probe: Probe) -> (r: Result<(), BindError>)
    ensures
        refused_with(r, claim_refusal(path@, process_name@, probe)),
{
    match probe {
        Probe::Live { pid } => {
            let location = if pid != 0 {
                path.display().concat(" (pid ").concat(decimal(pid as u64).as_str()).concat(")")
            } else {
                path.display()
            };
            Err(BindError::AlreadyRunning { process_name, location, path: path.clone(), pid })
        },
        Probe::Failed(source) => {
            if is_stale_socket_connect_error(&source) {
                Ok(())
            } else {
                Err(BindError::Io { path: path.clone(), source })
            }
        },
    }
}

/// What unlinking the leftover came to. That there was none is no failure.
pub fn unlinked(path: &FsPath, outcome: Result<(), IoFailure>) -> (r: Result<(), BindError>)
    ensures
        refused_with(
            r,
            match outcome {
                Ok(_) => None,
                Err(source) => if source.kind == IoKind::NotFound {
                    None
                } else {
                    Some(BindErrorView::Io { path: path@, source: source@ })
                },
            },
        ),
{
    match outcome {
        Ok(_) => Ok(()),
        Err(source) => {
            if source.kind == IoKind::NotFound {
                Ok(())
            } else {
                Err(BindError::Io { path: path.clone(), source })
            }
        },
    }
}

/// The steps of binding, in order.
#[derive(Debug, Clone, Copy, PartialEq, Eq, Structural)]
pub enum BindStep {
    /// Create the parent directories of the path.
    CreateDirs,
    /// Connect to the path and tell who answers.
    Probe,
    /// Remove the leftover inode.
    Unlink,
    /// Bind a listener to the path.
    Listen,
    /// Set the permission bits.
    SetMode,
    /// Hand the path to the configured owner.
    Chown,
    /// The listener is ready.
    Done,
}

/// What a step came to.
#[derive(Debug, PartialEq, Eq)]
pub enum BindEvent {
    /// The probe was made.
    Probed(Probe),
    /// Any other step was done, or failed.
    Stepped(Result<(), IoFailure>),
}

/// The parent directory that is created first, unless it is the current one.
pub open spec fn bind_parent(path: Seq<u8>) -> Option<Seq<u8>> {
    match fspath::parent_of(path) {
        Some(parent) => if parent.len() == 0 {
            None
        } else {
            Some(parent)
        },
        None => None,
    }
}

/// The first step of binding at `path`.
pub open spec fn first_bind_step(path: Seq<u8>) -> BindStep {
    if bind_parent(path) is Some {
        BindStep::CreateDirs
    } else {
        BindStep::Probe
    }
}

/// What follows a step that went well.
pub open spec fn next_bind_step(step: BindStep, chown: bool) -> BindStep {
    match step {
        BindStep::CreateDirs => BindStep::Probe,
        BindStep::Probe => BindStep::Unlink,
        BindStep::Unlink => BindStep::Listen,
        BindStep::Listen => BindStep::SetMode,
        BindStep::SetMode => if chown {
            BindStep::Chown
        } else {
            BindStep::Done
        },
        BindStep::Chown | BindStep::Done => BindStep::Done,
    }
}

/// The error of a step that did not go well.
pub open spec fn bind_failure(opts: BindOptions, step: BindStep, event: BindEvent) -> Option<
    BindErrorView,
> {
    let at = opts.path@;
    match event {
        BindEvent::Probed(probe) => claim_refusal(at, opts.process_name@, probe),
        BindEvent::Stepped(Ok(_)) => None,
        BindEvent::Stepped(Err(source)) => match step {
            BindStep::CreateDirs => Some(
                BindErrorView::Io { path: bind_parent(at)->0, source: source@ },
            ),
            BindStep::Unlink => if source.kind == IoKind::NotFound {
                None
            } else {
                Some(BindErrorView::Io { path: at, source: source@ })
            },
            BindStep::Chown => Some(
                BindErrorView::Io {
                    path: at,
                    source: IoFailureView {
                        kind: IoKind::Other,
                        text: "chown socket: "@ + source.text@,
                    },
                },
            ),
            _ => Some(BindErrorView::Io { path: at, source: source@ }),
        },
    }
}

/// Whether `event` is what `step` leads to.
pub open spec fn bind_expects(step: BindStep, event: BindEvent) -> bool {
    step != BindStep::Done && (event is Probed <==> step == BindStep::Probe)
}

/// Create parent dirs, claim (singleton), bind, chmod, optional chown.
pub struct BindRun<'a> {
    opts: &'a BindOptions,
    step: BindStep,
}

impl<'a> BindRun<'a> {
    /// What is bound.
    pub closed spec fn opts(&self) -> BindOptions {
        *self.opts
    }

    /// The step under way.
    pub closed spec fn current(&self) -> BindStep {
        self.step
    }

    /// Parent directories are created only where there is a parent.
    pub open spec fn wf(&self) -> bool {
        self.current() == BindStep::CreateDirs ==> bind_parent(self.opts().path@) is Some
    }

    /// Starts to bind.
    pub fn start(opts: &'a BindOptions) -> (r: Self)
        ensures
            r.wf(),
            r.opts() == *opts,
            r.current() == first_bind_step(opts.path@),
    {
        let step = match opts.path.parent() {
            Some(parent) => {
                if parent.is_empty() {
                    BindStep::Probe
                } else {
                    BindStep::CreateDirs
                }
            },
            None => BindStep::Probe,
        };
        BindRun { opts, step }
    }

    /// The step to take.
    pub fn step(&self) -> (r: BindStep)
        ensures
            r == self.current(),
    {
        self.step
    }

    /// The directory that [`BindStep::CreateDirs`] makes.
    pub fn parent(&self) -> (r: Option<FsPath>)
        ensures
            match r {
                Some(p) => bind_parent(self.opts().path@) == Some(p@),
                None => bind_parent(self.opts().path@) is None,
            },
    {
        match self.opts.path.parent() {
            Some(parent) => {
                if parent.is_empty() {
                    None
                } else {
                    Some(parent)
                }
            },
            None => None,
        }
    }

    /// The step under way came to `event`: on to the next one, or the error.
    pub fn happened(&mut self, event: BindEvent) -> (r: Result<(), BindError>)
        requires
            old(self).wf(),
            bind_expects(old(self).current(), event),
        ensures
            final(self).wf(),
            final(self).opts() == old(self).opts(),
            refused_with(r, bind_failure(old(self).opts(), old(self).current(), event)),
            final(self).current() == (if r is Ok {
                next_bind_step(old(self).current(), old(self).opts().chown is Some)
            } else {
                old(self).current()
            }),
    {
        let path = &self.opts.path;
        let outcome: Result<(), BindError> = match event {
            BindEvent::Probed(probe) => claim(path, self.opts.process_name, probe),
            BindEvent::Stepped(Ok(_)) => Ok(()),
            BindEvent::Stepped(Err(source)) => match self.step {
                BindStep::CreateDirs => {
                    let at = match self.parent() {
                        Some(parent) => parent,
                        None => path.clone(),
                    };
                    Err(BindError::Io { path: at, source })
                },
                BindStep::Unlink => unlinked(path, Err(source)),
                BindStep::Chown => Err(
                    BindError::Io {
                        path: path.clone(),
                        source: IoFailure {
                            kind: IoKind::Other,
                            text: "chown socket: ".to_owned().concat(source.text.as_str()),
                        },
                    },
                ),
                _ => Err(BindError::Io { path: path.clone(), source }),
            },
        };
        if outcome.is_ok() {
            self.step = match self.step {
                BindStep::CreateDirs => BindStep::Probe,
                BindStep::Probe => BindStep::Unlink,
                BindStep::Unlink => BindStep::Listen,
                BindStep::Listen => BindStep::SetMode,
                BindStep::SetMode => {
                    if self.opts.chown.is_some() {
                        BindStep::Chown
                    } else {
                        BindStep::Done
                    }
                },
                BindStep::Chown | BindStep::Done => BindStep::Done,
            };
        }
        outcome
    }
}

/// Whether a run that starts at `path` and meets `events` gets through all of
/// them without an error, each being what its step leads to.
pub open spec fn bind_run_ok(opts: BindOptions, events: Seq<BindEvent>) -> bool
    decreases events.len(),
{
    events.len() > 0 ==> {
        &&& bind_run_ok(opts, events.drop_last())
        &&& bind_expects(bind_step_after(opts, events.drop_last()), events.last())
        &&& bind_failure(opts, bind_step_after(opts, events.drop_last()), events.last()) is None
    }
}

/// The step reached after `events`.
pub open spec fn bind_step_after(opts: BindOptions, events: Seq<BindEvent>) -> BindStep
    decreases events.len(),
{
    if events.len() == 0 {
        first_bind_step(opts.path@)
    } else {
        next_bind_step(bind_step_after(opts, events.drop_last()), opts.chown is Some)
    }
}

/// Whether `events` hold a probe that met nobody.
pub open spec fn stale_probe_in(events: Seq<BindEvent>) -> bool {
    exists|i: int|
        0 <= i < events.len() && (#[trigger] events[i] matches BindEvent::Probed(
            Probe::Failed(source),
        ) && stale_kind(source.kind))
}

/// A live socket is never stolen: no run reaches the unlink, or anything after
/// it, unless a probe of the path met nobody, and none gets past a probe that a
/// live peer answered.
pub proof fn lemma_live_socket_never_stolen(opts: BindOptions, events: Seq<BindEvent>)
    requires
        bind_run_ok(opts, events),
    ensures
        bind_step_after(opts, events) != BindStep::CreateDirs && bind_step_after(opts, events)
            != BindStep::Probe ==> stale_probe_in(events),
        forall|i: int|
            0 <= i < events.len() ==> !(#[trigger] events[i] matches BindEvent::Probed(p)
                && p is Live),
    decreases events.len(),
{
    if events.len() > 0 {
        let before = events.drop_last();
        lemma_live_socket_never_stolen(opts, before);
        assert(forall|i: int| 0 <= i < before.len() ==> events[i] == before[i]);
        let last = events[events.len() - 1];
        if bind_step_after(opts, before) == BindStep::Probe {
            assert(last matches BindEvent::Probed(Probe::Failed(source)) && stale_kind(
                source.kind,
            ));
        } else if stale_probe_in(before) {
            let i = choose|i: int|
                0 <= i < before.len() && (#[trigger] before[i] matches BindEvent::Probed(
                    Probe::Failed(source),
                ) && stale_kind(source.kind));
            assert(events[i] == before[i]);
        }
    }
}

/// A live peer is always reported as such, and its message says so.
pub proof fn lemma_live_peer_is_already_running(
    path: Seq<u8>,
    process_name: Seq<char>,
    pid: u32,
)
    ensures
        claim_refusal(path, process_name, Probe::Live { pid }) matches Some(view) && view
            is AlreadyRunning && bind_error_message(view) == process_name + " already running at "@
            + peer_location(path, pid),
{
}

/// A path is free when nobody can be behind it: it does not exist, or the
/// connection was refused. Any other failure leaves that open, and the path alone.
pub proof fn lemma_only_dead_paths_are_free(
    path: Seq<u8>,
    process_name: Seq<char>,
    source: IoFailure,
)
    ensures
        stale_kind(IoKind::NotFound),
        stale_kind(IoKind::ConnectionRefused),
        !stale_kind(IoKind::ConnectionReset),
        !stale_kind(IoKind::UnexpectedEof),
        !stale_kind(IoKind::Other),
        claim_refusal(path, process_name, Probe::Failed(source)) is None <==> source.kind
            == IoKind::NotFound || source.kind == IoKind::ConnectionRefused,
        claim_refusal(path, process_name, Probe::Failed(source)) matches Some(e) ==> e == (
        BindErrorView::Io { path, source: source@ }),
{
}

/// A live peer is reported with the process, the path and the pid as they are,
/// and its place as the path, followed by the pid where it is known.
pub proof fn lemma_live_peer_is_named(path: Seq<u8>, process_name: Seq<char>, pid: u32, other: u32)
    ensures
        claim_refusal(path, process_name, Probe::Live { pid }) matches Some(
            BindErrorView::AlreadyRunning { process_name: who, location, path: at, pid: which },
        ) && who == process_name && at == path && which == pid && location == peer_location(
            path,
            pid,
        ),
        peer_location(path, 0) == text::lossy_text(path),
        pid != 0 ==> peer_location(path, pid) == peer_location(path, 0) + " (pid "@
            + text::decimal_text(pid as nat) + ")"@,
        peer_location(path, pid) == peer_location(path, other) ==> pid == other,
{
    let open = " (pid "@;
    let close = ")"@;
    let at = text::lossy_text(path);
    let a = text::decimal_text(pid as nat);
    let b = text::decimal_text(other as nat);
    reveal_strlit(" (pid ");
    text::lemma_decimal_text_spells_number(pid as nat);
    text::lemma_decimal_text_spells_number(other as nat);
    if peer_location(path, pid) == peer_location(path, other) {
        let u = peer_location(path, pid);
        let n = (at.len() + open.len()) as int;
        if pid != 0 && other != 0 {
            assert(u.len() == n + a.len() + close.len());
            assert(u.len() == n + b.len() + close.len());
            assert(u.subrange(n, n + a.len()) =~= a);
            assert(u.subrange(n, n + b.len()) =~= b);
            text::lemma_decimal_text_tells_numbers_apart(pid as nat, other as nat);
        } else if pid != 0 {
            assert(u.len() > at.len());
        } else if other != 0 {
            assert(peer_location(path, other).len() > at.len());
        }
    }
}

/// A decision is the refusal that was found, or none.
pub proof fn lemma_decision_is_refusal(r: Result<(), BindError>, refusal: Option<BindErrorView>)
    requires
        refused_with(r, refusal),
    ensures
        r is Ok <==> refusal is None,
        r matches Err(e) ==> refusal == Some(e@),
{
}

/// The directory that is made first is the parent of the path; there is none to
/// make where the path has no parent or lies in the current directory.
pub proof fn lemma_bind_makes_the_parent(path: Seq<u8>, dir: Seq<u8>)
    ensures
        fspath::parent_of(path) == Some(dir) && dir.len() > 0 ==> bind_parent(path) == Some(dir)
            && first_bind_step(path) == BindStep::CreateDirs,
        fspath::parent_of(path) == Some(dir) && dir.len() == 0 ==> bind_parent(path) is None
            && first_bind_step(path) == BindStep::Probe,
        fspath::parent_of(path) is None ==> bind_parent(path) is None && first_bind_step(path)
            == BindStep::Probe,
{
}

/// The steps of binding, in order: directories, probe, unlink, bind, mode, and the
/// owner where one is configured. Each comes only after the one before.
pub proof fn lemma_bind_steps_in_order(chown: bool)
    ensures
        next_bind_step(BindStep::CreateDirs, chown) == BindStep::Probe,
        next_bind_step(BindStep::Probe, chown) == BindStep::Unlink,
        next_bind_step(BindStep::Unlink, chown) == BindStep::Listen,
        next_bind_step(BindStep::Listen, chown) == BindStep::SetMode,
        next_bind_step(BindStep::SetMode, true) == BindStep::Chown,
        next_bind_step(BindStep::SetMode, false) == BindStep::Done,
        next_bind_step(BindStep::Chown, chown) == BindStep::Done,
        next_bind_step(BindStep::Done, chown) == BindStep::Done,
{
}

/// Every run that meets no error and gets to its end has made a probe, an unlink,
/// a listener and its mode after each other, and set the owner exactly if one is
/// configured: it took that many steps.
pub proof fn lemma_bind_run_has_all_steps(opts: BindOptions, events: Seq<BindEvent>)
    requires
        bind_run_ok(opts, events),
    ensures
        ({
            let dirs: int = if bind_parent(opts.path@) is Some {
                1
            } else {
                0
            };
            let owner: int = if opts.chown is Some {
                1
            } else {
                0
            };
            bind_step_after(opts, events) == (if events.len() < dirs {
                BindStep::CreateDirs
            } else if events.len() == dirs {
                BindStep::Probe
            } else if events.len() == dirs + 1 {
                BindStep::Unlink
            } else if events.len() == dirs + 2 {
                BindStep::Listen
            } else if events.len() == dirs + 3 {
                BindStep::SetMode
            } else if events.len() < dirs + 4 + owner {
                BindStep::Chown
            } else {
                BindStep::Done
            }) && events.len() <= dirs + 4 + owner
        }),
    decreases events.len(),
{
    if events.len() > 0 {
        lemma_bind_run_has_all_steps(opts, events.drop_last());
    }
}

/// A failed step is an error about the path that is bound, or about its parent
/// where that could not be made, and carries the cause; only a leftover that was
/// not there to unlink is none. What fails to hand the path over says so.
pub proof fn lemma_bind_failures(opts: BindOptions, step: BindStep, source: IoFailure, dir: Seq<u8>)
    ensures
        bind_failure(opts, step, BindEvent::Stepped(Ok(()))) is None,
        ({
            let failure = bind_failure(opts, step, BindEvent::Stepped(Err(source)));
            &&& step == BindStep::CreateDirs && bind_parent(opts.path@) == Some(dir) ==> failure
                == Some(BindErrorView::Io { path: dir, source: source@ })
            &&& step == BindStep::Listen || step == BindStep::SetMode ==> failure == Some(
                BindErrorView::Io { path: opts.path@, source: source@ },
            )
            &&& step == BindStep::Unlink ==> (failure is None <==> source.kind == IoKind::NotFound)
            &&& step == BindStep::Unlink && source.kind != IoKind::NotFound ==> failure == Some(
                BindErrorView::Io { path: opts.path@, source: source@ },
            )
            &&& step == BindStep::Chown ==> (failure matches Some(
                BindErrorView::Io { path, source: cause },
            ) && path == opts.path@ && cause.kind == IoKind::Other && cause.text
                == "chown socket: "@ + source.text@)
        }),
{
}

/// A probe decides the same whichever way it comes in: as an event of a run, or
/// by itself.
pub proof fn lemma_probe_decides_alike(opts: BindOptions, step: BindStep, probe: Probe)
    ensures
        bind_failure(opts, step, BindEvent::Probed(probe)) == claim_refusal(
            opts.path@,
            opts.process_name@,
            probe,
        ),
        bind_expects(BindStep::Probe, BindEvent::Probed(probe)),
        bind_expects(step, BindEvent::Probed(probe)) ==> step == BindStep::Probe,
{
}

/// Every step but the probe expects to be told how it went, and a run that is
/// done expects nothing.
pub proof fn lemma_steps_expect_their_outcome(
    step: BindStep,
    event: BindEvent,
    outcome: Result<(), IoFailure>,
)
    ensures
        bind_expects(step, BindEvent::Stepped(outcome)) <==> step != BindStep::Probe && step
            != BindStep::Done,
        !bind_expects(BindStep::Done, event),
{
}

/// Messages say who runs where, or what failed at which path.
pub proof fn lemma_bind_messages(
    process_name: Seq<char>,
    location: Seq<char>,
    path: Seq<u8>,
    pid: u32,
    source: IoFailureView,
)
    ensures
        bind_error_message(
            BindErrorView::AlreadyRunning { process_name, location, path, pid },
        ) == process_name + " already running at "@ + location,
        bind_error_message(BindErrorView::Io { path, source }) == "I/O error on "@
            + text::lossy_text(path) + ": "@ + source.text,
{
}

} // verus!
