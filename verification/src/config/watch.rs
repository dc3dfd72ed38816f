//! Configuration watching: which file events matter, when watches are attached,
//! and when a burst of changes has settled.
//!
//! Times are nanoseconds on a clock of the host that starts anywhere.

use crate::fspath::FsPath;
use crate::fspath;
use crate::text::ends_with;
use crate::text::same_bytes;
use crate::text::utf8_text;
use crate::text;
use vstd::prelude::*;
use vstd::string::*;
use vstd::utf8::*;

verus! {

/// Default debounce for atomic write+rename bursts: 300 ms.
pub const DEFAULT_DEBOUNCE: u128 = 300_000_000;

/// How long the watcher sleeps when nothing is pending: 1 s.
pub const IDLE_WAIT: u128 = 1_000_000_000;

/// Signal that watched configuration may have changed.
pub struct Reload;

/// How to filter event paths under a [`WatchSpec`].
#[derive(Debug, Clone, PartialEq, Eq)]
pub enum PathFilter {
    /// Basename equals this (single config file).
    Basename(String),
    /// Non-junk names; optional extension allow-list and extra exact names
    /// (e.g. `microinit.d`).
    Any {
        /// If non-empty, the file extension must match one of these (no dot).
        extensions: Vec<String>,
        /// Extra exact file names that always match (directories, override
        /// files).
        extra_names: Vec<String>,
        /// Suffixes that never match (e.g. `.example`).
        ignore_suffixes: Vec<String>,
    },
}

/// One watched path (file or directory).
#[derive(Debug, Clone, PartialEq, Eq)]
pub struct WatchSpec {
    /// File to watch (parent dir is registered) or directory.
    pub path: FsPath,
    /// Recursive watch (drop-in trees).
    pub recursive: bool,
    /// Event path filter.
    pub filter: PathFilter,
}

/// The name that a file is watched under: its own, or `config` where it has
/// none that is text.
pub open spec fn watched_name(path: Seq<u8>) -> Seq<u8> {
    match fspath::file_name_of(path) {
        Some(name) => if valid_utf8(name) {
            name
        } else {
            encode_utf8("config"@)
        },
        None => encode_utf8("config"@),
    }
}

impl WatchSpec {
    /// Watch a single file by basename in its parent directory.
    pub fn file(path: FsPath) -> (r: Self)
        ensures
            r.path@ == path@,
            !r.recursive,
            r.filter matches PathFilter::Basename(name) && encode_utf8(name@) == watched_name(path@),
    {
        let name = match path.file_name() {
            Some(name) => match utf8_text(name) {
                Some(text) => text.to_owned(),
                None => "config".to_owned(),
            },
            None => "config".to_owned(),
        };
        WatchSpec { path, recursive: false, filter: PathFilter::Basename(name) }
    }

    /// Watch a directory.
    pub fn dir(path: FsPath, recursive: bool) -> (r: Self)
        ensures
            r.path@ == path@,
            r.recursive == recursive,
            r.filter matches PathFilter::Any { extensions, extra_names, ignore_suffixes }
                && extensions@.len() == 0 && extra_names@.len() == 0 && ignore_suffixes@.len() == 0,
    {
        WatchSpec {
            path,
            recursive,
            filter: PathFilter::Any {
                extensions: Vec::new(),
                extra_names: Vec::new(),
                ignore_suffixes: Vec::new(),
            },
        }
    }
}

/// Whether a name is that of an editor or temp artifact: it starts with `.` or
/// ends with `~`, `.swp` or `.tmp`.
pub open spec fn junk_name(name: Seq<u8>) -> bool {
    ||| name.len() > 0 && name[0] == '.' as u8
    ||| name.len() > 0 && name.last() == '~' as u8
    ||| text::has_suffix(name, encode_utf8(".swp"@))
    ||| text::has_suffix(name, encode_utf8(".tmp"@))
}

/// Editor/temp artifacts that must not trigger reload.
pub fn is_junk_name(name: &str) -> (r: bool)
    ensures
        r == junk_name(name.spec_bytes()),
{
    let b = name.as_bytes();
    let n: usize = b.len();
    (n > 0 && b[0] == 0x2E) || (n > 0 && b[n - 1] == 0x7E) || ends_with(b, ".swp".as_bytes())
        || ends_with(b, ".tmp".as_bytes())
}

/// Whether `name` ends with one of `suffixes`.
pub open spec fn has_any_suffix(name: Seq<u8>, suffixes: Seq<String>) -> bool {
    exists|i: int| 0 <= i < suffixes.len() && text::has_suffix(name, encode_utf8(#[trigger] suffixes[i]@))
}

/// Whether `name` is one of `names`.
pub open spec fn is_any_of(name: Seq<u8>, names: Seq<String>) -> bool {
    exists|i: int| 0 <= i < names.len() && name == encode_utf8(#[trigger] names[i]@)
}

fn any_suffix(name: &[u8], suffixes: &Vec<String>) -> (r: bool)
    ensures
        r == has_any_suffix(name@, suffixes@),
{
    let mut i: usize = 0;
    while i < suffixes.len()
        invariant
            i <= suffixes@.len(),
            forall|k: int|
                0 <= k < i ==> !text::has_suffix(name@, encode_utf8(#[trigger] suffixes@[k]@)),
        decreases suffixes@.len() - i,
    {
        if ends_with(name, suffixes[i].as_str().as_bytes()) {
            return true;
        }
        i += 1;
    }
    false
}

fn any_of(name: &[u8], names: &Vec<String>) -> (r: bool)
    ensures
        r == is_any_of(name@, names@),
{
    let mut i: usize = 0;
    while i < names.len()
        invariant
            i <= names@.len(),
            forall|k: int| 0 <= k < i ==> name@ != encode_utf8(#[trigger] names@[k]@),
        decreases names@.len() - i,
    {
        if same_bytes(name, names[i].as_str().as_bytes()) {
            return true;
        }
        i += 1;
    }
    false
}

/// Whether an event at `path` matters to `filter`. Only a last name that is text
/// and no junk can.
pub open spec fn relevant(path: Seq<u8>, filter: PathFilter) -> bool {
    match fspath::file_name_of(path) {
        None => false,
        Some(name) => valid_utf8(name) && !junk_name(name) && match filter {
            PathFilter::Basename(want) => name == encode_utf8(want@),
            PathFilter::Any { extensions, extra_names, ignore_suffixes } => {
                &&& !has_any_suffix(name, ignore_suffixes@)
                &&& {
                    ||| is_any_of(name, extra_names@)
                    ||| extensions@.len() == 0
                    ||| (fspath::extension_of(path) matches Some(ext) && is_any_of(ext, extensions@))
                }
            },
        },
    }
}

/// Filter a filesystem event path against a config identity.
pub fn is_relevant_path(path: &FsPath, filter: &PathFilter) -> (r: bool)
    ensures
        r == relevant(path@, *filter),
{
    let name = match path.file_name() {
        Some(name) => name,
        None => {
            return false;
        },
    };
    let text = match utf8_text(name) {
        Some(text) => text,
        None => {
            return false;
        },
    };
    if is_junk_name(text) {
        return false;
    }
    match filter {
        PathFilter::Basename(want) => same_bytes(name, want.as_str().as_bytes()),
        PathFilter::Any { extensions, extra_names, ignore_suffixes } => {
            if any_suffix(name, ignore_suffixes) {
                false
            } else if any_of(name, extra_names) {
                true
            } else if extensions.len() == 0 {
                true
            } else {
                match path.extension() {
                    Some(ext) => any_of(ext, extensions),
                    None => false,
                }
            }
        },
    }
}

/// Editor and temp artifacts never matter, whatever the filter.
pub proof fn lemma_junk_is_never_relevant(path: Seq<u8>, filter: PathFilter)
    requires
        relevant(path, filter),
    ensures
        fspath::file_name_of(path) matches Some(name) && !junk_name(name),
{
}

/// The directory to register for `path`: itself if it is one, else its parent.
/// A path without a directory of its own is in the current one.
pub open spec fn watch_dir(path: Seq<u8>, is_dir: bool) -> Seq<u8> {
    if is_dir {
        path
    } else {
        match fspath::parent_of(path) {
            Some(parent) => if parent.len() == 0 {
                encode_utf8("."@)
            } else {
                parent
            },
            None => encode_utf8("."@),
        }
    }
}

/// The directory to register for `path`, which is one or not.
pub fn watch_dir_for(path: &FsPath, is_dir: bool) -> (r: FsPath)
    ensures
        r@ == watch_dir(path@, is_dir),
{
    if is_dir {
        path.clone()
    } else {
        match path.parent() {
            Some(parent) => {
                if parent.is_empty() {
                    FsPath::new(".")
                } else {
                    parent
                }
            },
            None => FsPath::new("."),
        }
    }
}

/// How to register one spec.
#[derive(Debug, PartialEq, Eq)]
pub struct AttachPlan {
    /// The directory to register. One that does not exist is not registered now.
    pub target: FsPath,
    /// Whether to create the directory first where it does not exist.
    pub create: bool,
    /// Whether to watch the whole tree.
    pub recursive: bool,
}

/// How to register `spec`, whose path is a directory or not. Missing recursive
/// trees are left pending (late-attach).
pub fn attach_plan(spec: &WatchSpec, path_is_dir: bool) -> (r: AttachPlan)
    ensures
        r.target@ == (if spec.recursive {
            spec.path@
        } else {
            watch_dir(spec.path@, path_is_dir)
        }),
        r.create == !spec.recursive,
        r.recursive == spec.recursive,
{
    let target = if spec.recursive {
        spec.path.clone()
    } else {
        watch_dir_for(&spec.path, path_is_dir)
    };
    AttachPlan { target, create: !spec.recursive, recursive: spec.recursive }
}

/// The kinds of file event.
#[derive(Debug, Clone, Copy, PartialEq, Eq, Structural)]
pub enum ChangeKind {
    Create,
    Modify,
    Remove,
    /// Some change, not told which.
    Any,
    Access,
    Other,
}

/// Whether events of a kind can change a configuration.
pub open spec fn changes(kind: ChangeKind) -> bool {
    kind != ChangeKind::Access && kind != ChangeKind::Other
}

/// Whether one of `paths` matters to one of `specs`.
pub open spec fn any_relevant(paths: Seq<FsPath>, specs: Seq<WatchSpec>) -> bool {
    exists|i: int, j: int|
        0 <= i < paths.len() && 0 <= j < specs.len() && #[trigger] relevant(
            paths[i]@,
            specs[j].filter,
        )
}

fn some_relevant(paths: &Vec<FsPath>, specs: &Vec<WatchSpec>) -> (r: bool)
    ensures
        r == any_relevant(paths@, specs@),
{
    let mut i: usize = 0;
    while i < paths.len()
        invariant
            i <= paths@.len(),
            forall|a: int, b: int|
                0 <= a < i && 0 <= b < specs@.len() ==> !#[trigger] relevant(
                    paths@[a]@,
                    specs@[b].filter,
                ),
        decreases paths@.len() - i,
    {
        let mut j: usize = 0;
        while j < specs.len()
            invariant
                i < paths@.len(),
                j <= specs@.len(),
                forall|b: int|
                    0 <= b < j ==> !#[trigger] relevant(paths@[i as int]@, specs@[b].filter),
            decreases specs@.len() - j,
        {
            if is_relevant_path(&paths[i], &specs[j].filter) {
                return true;
            }
            j += 1;
        }
        i += 1;
    }
    false
}

/// How long ago `then` was; never, if the clock went back.
pub open spec fn elapsed(then: int, now: int) -> int {
    if now >= then {
        now - then
    } else {
        0
    }
}

/// How long to wait for the next event: until a pending change has settled, or
/// the idle time if none is pending.
pub open spec fn wait_time(pending: Option<u128>, debounce: int, now: int) -> int {
    match pending {
        Some(then) => if elapsed(then as int, now) >= debounce {
            0
        } else {
            debounce - elapsed(then as int, now)
        },
        None => IDLE_WAIT as int,
    }
}

/// Whether a pending change has settled.
pub open spec fn settled(pending: Option<u128>, debounce: int, now: int) -> bool {
    pending matches Some(then) && elapsed(then as int, now) >= debounce
}

/// What happens to a watch loop, at a time.
pub enum WatchEvent {
    /// A change to reload for, or a new registration.
    Trigger(u128),
    /// The wait was over without an event.
    Quiet(u128),
    /// Anything else.
    Noise,
}

/// The pending change after `event`, and whether a reload is fired: a trigger
/// (re)starts the debounce time, a quiet moment fires once it is over.
pub open spec fn watch_next(pending: Option<u128>, debounce: int, event: WatchEvent) -> (
    Option<u128>,
    bool,
) {
    match event {
        WatchEvent::Trigger(now) => (Some(now), false),
        WatchEvent::Quiet(now) => if settled(pending, debounce, now as int) {
            (None, true)
        } else {
            (pending, false)
        },
        WatchEvent::Noise => (pending, false),
    }
}

/// Watches a list of specs: attaches them as they appear, and coalesces bursts of
/// changes into one reload once they have been quiet for the debounce time.
#[derive(Debug, PartialEq, Eq)]
pub struct WatchLoop {
    specs: Vec<WatchSpec>,
    attached: Vec<bool>,
    debounce: u128,
    pending: Option<u128>,
}

/// What a [`WatchLoop`] knows.
pub struct WatchLoopView {
    pub specs: Seq<WatchSpec>,
    /// Which specs are registered.
    pub attached: Seq<bool>,
    pub debounce: u128,
    /// When the last change was seen that no reload has answered yet.
    pub pending: Option<u128>,
}

impl View for WatchLoop {
    type V = WatchLoopView;

    closed spec fn view(&self) -> WatchLoopView {
        WatchLoopView {
            specs: self.specs@,
            attached: self.attached@,
            debounce: self.debounce,
            pending: self.pending,
        }
    }
}

/// Which specs are registered after some of them were tried.
pub open spec fn attached_after(attached: Seq<bool>, tried: Seq<bool>) -> Seq<bool> {
    Seq::new(attached.len(), |i: int| attached[i] || tried[i])
}

/// Whether a spec was registered that had not been.
pub open spec fn newly_attached(attached: Seq<bool>, tried: Seq<bool>) -> bool {
    exists|i: int| 0 <= i < attached.len() && !#[trigger] attached[i] && tried[i]
}

/// What a loop knows after a file event of `kind` at `paths` came in, and
/// registration came to `tried`.
pub open spec fn event_seen(
    view: WatchLoopView,
    now: u128,
    tried: Seq<bool>,
    kind: ChangeKind,
    paths: Seq<FsPath>,
) -> WatchLoopView {
    WatchLoopView {
        attached: attached_after(view.attached, tried),
        pending: watch_next(
            view.pending,
            view.debounce as int,
            if newly_attached(view.attached, tried) || (changes(kind) && any_relevant(
                paths,
                view.specs,
            )) {
                WatchEvent::Trigger(now)
            } else {
                WatchEvent::Noise
            },
        ).0,
        ..view
    }
}

/// What a loop knows after a wait was over without an event and registration
/// came to `tried`, and whether it fires a reload.
pub open spec fn quiet_seen(view: WatchLoopView, now: u128, tried: Seq<bool>) -> (
    WatchLoopView,
    bool,
) {
    let debounce = view.debounce as int;
    let pending = if newly_attached(view.attached, tried) {
        watch_next(view.pending, debounce, WatchEvent::Trigger(now)).0
    } else {
        view.pending
    };
    let (after, fires) = watch_next(pending, debounce, WatchEvent::Quiet(now));
    (
        WatchLoopView {
            attached: attached_after(view.attached, tried),
            pending: after,
            ..view
        },
        fires,
    )
}

impl WatchLoop {
    /// There is one flag for each spec.
    pub open spec fn wf(&self) -> bool {
        self@.attached.len() == self@.specs.len()
    }

    /// A loop that has registered nothing yet.
    pub fn new(specs: Vec<WatchSpec>, debounce: u128) -> (r: Self)
        ensures
            r.wf(),
            r@.specs == specs@,
            forall|i: int| 0 <= i < specs@.len() ==> !#[trigger] r@.attached[i],
            r@.debounce == debounce,
            r@.pending is None,
    {
        let mut attached: Vec<bool> = Vec::new();
        let mut i: usize = 0;
        while i < specs.len()
            invariant
                i <= specs@.len(),
                attached@.len() == i,
                forall|k: int| 0 <= k < i ==> !#[trigger] attached@[k],
            decreases specs@.len() - i,
        {
            attached.push(false);
            i += 1;
        }
        WatchLoop { specs, attached, debounce, pending: None }
    }

    /// The specs.
    pub fn specs(&self) -> (r: &Vec<WatchSpec>)
        ensures
            r@ == self@.specs,
    {
        &self.specs
    }

    /// Whether spec `i` is registered.
    pub fn is_attached(&self, i: usize) -> (r: bool)
        requires
            self.wf(),
            i < self@.specs.len(),
        ensures
            r == self@.attached[i as int],
    {
        self.attached[i]
    }

    /// Registration was tried for the specs that lacked it; `tried` tells for
    /// each spec whether it was registered. One that failed stays as it was and
    /// is tried again later.
    pub fn attach(&mut self, tried: &Vec<bool>) -> (r: bool)
        requires
            old(self).wf(),
            tried@.len() == old(self)@.specs.len(),
        ensures
            final(self).wf(),
            final(self)@ == (WatchLoopView {
                attached: attached_after(old(self)@.attached, tried@),
                ..old(self)@
            }),
            r == newly_attached(old(self)@.attached, tried@),
    {
        let mut newly = false;
        let mut i: usize = 0;
        let ghost was = self.attached@;
        while i < self.attached.len()
            invariant
                i <= self.attached@.len(),
                self.attached@.len() == was.len(),
                was == old(self)@.attached,
                tried@.len() == was.len(),
                self.specs@ == old(self)@.specs,
                self.debounce == old(self)@.debounce,
                self.pending == old(self)@.pending,
                forall|k: int| 0 <= k < i ==> #[trigger] self.attached@[k] == (was[k] || tried@[k]),
                forall|k: int| i <= k < was.len() ==> #[trigger] self.attached@[k] == was[k],
                newly == (exists|k: int| 0 <= k < i && !#[trigger] was[k] && tried@[k]),
            decreases was.len() - i,
        {
            let had = self.attached[i];
            if !had && tried[i] {
                self.attached.set(i, true);
                newly = true;
                assert(!was[i as int] && tried@[i as int]);
            }
            i += 1;
        }
        assert(self.attached@ =~= attached_after(was, tried@));
        newly
    }

    /// How long to wait for the next event.
    pub fn wait(&self, now: u128) -> (r: u128)
        ensures
            r == wait_time(self@.pending, self@.debounce as int, now as int),
    {
        match self.pending {
            Some(then) => {
                let passed: u128 = if now >= then {
                    now - then
                } else {
                    0
                };
                if passed >= self.debounce {
                    0
                } else {
                    self.debounce - passed
                }
            },
            None => IDLE_WAIT,
        }
    }

    /// A file event came in, after registration was tried as for
    /// [`WatchLoop::attach`]. A new registration and a relevant change both
    /// (re)start the debounce time.
    pub fn changed(&mut self, now: u128, tried: &Vec<bool>, kind: ChangeKind, paths: &Vec<FsPath>)
        requires
            old(self).wf(),
            tried@.len() == old(self)@.specs.len(),
        ensures
            final(self).wf(),
            final(self)@ == (WatchLoopView {
                attached: attached_after(old(self)@.attached, tried@),
                pending: watch_next(
                    old(self)@.pending,
                    old(self)@.debounce as int,
                    if newly_attached(old(self)@.attached, tried@) || (changes(kind)
                        && any_relevant(paths@, old(self)@.specs)) {
                        WatchEvent::Trigger(now)
                    } else {
                        WatchEvent::Noise
                    },
                ).0,
                ..old(self)@
            }),
            final(self)@ == event_seen(old(self)@, now, tried@, kind, paths@),
    {
        let newly = self.attach(tried);
        let matters = match kind {
            ChangeKind::Create | ChangeKind::Modify | ChangeKind::Remove | ChangeKind::Any => true,
            ChangeKind::Access | ChangeKind::Other => false,
        };
        if newly || (matters && some_relevant(paths, &self.specs)) {
            self.pending = Some(now);
        }
    }

    /// The wait was over without an event, and registration was tried as for
    /// [`WatchLoop::attach`]. Tells whether to fire a reload now.
    pub fn waited(&mut self, now: u128, tried: &Vec<bool>) -> (r: bool)
        requires
            old(self).wf(),
            tried@.len() == old(self)@.specs.len(),
        ensures
            final(self).wf(),
            ({
                let debounce = old(self)@.debounce as int;
                let pending = if newly_attached(old(self)@.attached, tried@) {
                    watch_next(old(self)@.pending, debounce, WatchEvent::Trigger(now)).0
                } else {
                    old(self)@.pending
                };
                &&& r == watch_next(pending, debounce, WatchEvent::Quiet(now)).1
                &&& final(self)@ == (WatchLoopView {
                    attached: attached_after(old(self)@.attached, tried@),
                    pending: watch_next(pending, debounce, WatchEvent::Quiet(now)).0,
                    ..old(self)@
                })
            }),
            (final(self)@, r) == quiet_seen(old(self)@, now, tried@),
    {
        if self.attach(tried) {
            self.pending = Some(now);
        }
        match self.pending {
            Some(then) => {
                let passed: u128 = if now >= then {
                    now - then
                } else {
                    0
                };
                if passed >= self.debounce {
                    self.pending = None;
                    true
                } else {
                    false
                }
            },
            None => false,
        }
    }
}

/// Specs do not get in each other's way: whatever the other tries came to, a
/// spec that was registered stays so, and one that was not becomes so exactly if
/// its own try succeeded.
pub proof fn lemma_specs_attach_independently(attached: Seq<bool>, tried: Seq<bool>, i: int)
    requires
        0 <= i < attached.len(),
    ensures
        attached[i] ==> attached_after(attached, tried)[i],
        !attached[i] ==> attached_after(attached, tried)[i] == tried[i],
{
}

/// Waiting as long as asked for is enough: a change that is pending then has
/// settled then, unless the clock went back.
pub proof fn lemma_wait_lets_change_settle(pending: Option<u128>, debounce: u128, now: u128)
    requires
        pending matches Some(then) && then <= now,
    ensures
        settled(
            pending,
            debounce as int,
            now + wait_time(pending, debounce as int, now as int),
        ),
{
}

/// The pending change, the reloads fired and the triggers seen after `events`.
pub open spec fn watch_history(debounce: int, events: Seq<WatchEvent>) -> (Option<u128>, nat, nat)
    decreases events.len(),
{
    if events.len() == 0 {
        (None, 0, 0)
    } else {
        let (pending, fired, triggers) = watch_history(debounce, events.drop_last());
        let (now_pending, fires) = watch_next(pending, debounce, events.last());
        (
            now_pending,
            fired + (if fires {
                1nat
            } else {
                0
            }),
            triggers + (if events.last() is Trigger {
                1nat
            } else {
                0
            }),
        )
    }
}

/// The time of the last trigger among `events`.
pub open spec fn latest_trigger(events: Seq<WatchEvent>) -> Option<u128>
    decreases events.len(),
{
    if events.len() == 0 {
        None
    } else {
        match events.last() {
            WatchEvent::Trigger(now) => Some(now),
            _ => latest_trigger(events.drop_last()),
        }
    }
}

/// Whether `events` are one burst: no quiet moment among them finds the latest
/// trigger before it settled.
pub open spec fn one_burst(debounce: int, events: Seq<WatchEvent>) -> bool
    decreases events.len(),
{
    events.len() > 0 ==> {
        &&& one_burst(debounce, events.drop_last())
        &&& events.last() matches WatchEvent::Quiet(now) ==> !settled(
            latest_trigger(events.drop_last()),
            debounce,
            now as int,
        )
    }
}

proof fn lemma_burst_stays_pending(
    debounce: int,
    before: Seq<WatchEvent>,
    events: Seq<WatchEvent>,
)
    requires
        watch_history(debounce, before).0 is None,
        one_burst(debounce, events),
    ensures
        watch_history(debounce, before + events).0 == latest_trigger(events),
        watch_history(debounce, before + events).1 == watch_history(debounce, before).1,
    decreases events.len(),
{
    if events.len() > 0 {
        lemma_burst_stays_pending(debounce, before, events.drop_last());
        assert((before + events).drop_last() =~= before + events.drop_last());
    } else {
        assert(before + events =~= before);
    }
}

/// Whatever went before, as long as nothing of it is pending, a burst adds
/// exactly one reload, once its last trigger has settled.
pub proof fn lemma_each_burst_adds_one_reload(
    debounce: int,
    before: Seq<WatchEvent>,
    events: Seq<WatchEvent>,
    now: u128,
)
    requires
        watch_history(debounce, before).0 is None,
        one_burst(debounce, events),
        settled(latest_trigger(events), debounce, now as int),
    ensures
        watch_history(debounce, before + events).1 == watch_history(debounce, before).1,
        watch_history(debounce, (before + events).push(WatchEvent::Quiet(now))).1 == watch_history(
            debounce,
            before,
        ).1 + 1,
        watch_history(debounce, (before + events).push(WatchEvent::Quiet(now))).0 is None,
{
    lemma_burst_stays_pending(debounce, before, events);
    assert((before + events).push(WatchEvent::Quiet(now)).drop_last() =~= before + events);
}

/// Bursts are coalesced: however many triggers a burst has, no reload is fired
/// during it, one once its last trigger has settled, and none after that.
pub proof fn lemma_burst_fires_once(
    debounce: int,
    events: Seq<WatchEvent>,
    now: u128,
    later: u128,
)
    requires
        one_burst(debounce, events),
        settled(latest_trigger(events), debounce, now as int),
    ensures
        watch_history(debounce, events).1 == 0,
        watch_history(debounce, events.push(WatchEvent::Quiet(now))).1 == 1,
        watch_history(
            debounce,
            events.push(WatchEvent::Quiet(now)).push(WatchEvent::Quiet(later)),
        ).1 == 1,
{
    let once = events.push(WatchEvent::Quiet(now));
    lemma_each_burst_adds_one_reload(debounce, Seq::empty(), events, now);
    assert(Seq::<WatchEvent>::empty() + events =~= events);
    assert(once.push(WatchEvent::Quiet(later)).drop_last() =~= once);
}

/// Reloads do not come from nowhere: those fired, and the one that is pending,
/// never outnumber the triggers.
pub proof fn lemma_reloads_do_not_outnumber_triggers(debounce: int, events: Seq<WatchEvent>)
    ensures
        ({
            let (pending, fired, triggers) = watch_history(debounce, events);
            fired + (if pending is Some {
                1int
            } else {
                0
            }) <= triggers
        }),
    decreases events.len(),
{
    if events.len() > 0 {
        lemma_reloads_do_not_outnumber_triggers(debounce, events.drop_last());
    }
}

/// No change is lost: from a trigger on, as long as no reload is fired, one is
/// pending.
pub proof fn lemma_no_trigger_is_lost(debounce: int, events: Seq<WatchEvent>, k: int)
    requires
        0 <= k < events.len(),
        events[k] is Trigger,
        watch_history(debounce, events).1 == watch_history(debounce, events.take(k + 1)).1,
    ensures
        watch_history(debounce, events).0 is Some,
    decreases events.len(),
{
    if k == events.len() - 1 {
        assert(events.take(k + 1) =~= events);
    } else {
        let before = events.drop_last();
        lemma_reloads_only_grow(debounce, before, k + 1);
        assert(before.take(k + 1) =~= events.take(k + 1));
        lemma_no_trigger_is_lost(debounce, before, k);
    }
}

proof fn lemma_reloads_only_grow(debounce: int, events: Seq<WatchEvent>, k: int)
    requires
        0 <= k <= events.len(),
    ensures
        watch_history(debounce, events.take(k)).1 <= watch_history(debounce, events).1,
    decreases events.len(),
{
    if k < events.len() {
        lemma_reloads_only_grow(debounce, events.drop_last(), k);
        assert(events.drop_last().take(k) =~= events.take(k));
    } else {
        assert(events.take(k) =~= events);
    }
}

/// A pending change is answered: the first quiet moment after the debounce time
/// fires a reload.
pub proof fn lemma_pending_change_is_answered(debounce: int, events: Seq<WatchEvent>, now: u128)
    requires
        settled(watch_history(debounce, events).0, debounce, now as int),
    ensures
        watch_history(debounce, events.push(WatchEvent::Quiet(now))).1 == watch_history(
            debounce,
            events,
        ).1 + 1,
{
    assert(events.push(WatchEvent::Quiet(now)).drop_last() =~= events);
}

/// A change that matters starts the debounce time anew: a path that one of the
/// specs asks for, created, modified, removed or changed in a way not told,
/// leaves a change pending since now.
pub proof fn lemma_relevant_change_is_pending(
    view: WatchLoopView,
    now: u128,
    tried: Seq<bool>,
    kind: ChangeKind,
    paths: Seq<FsPath>,
    i: int,
    j: int,
)
    requires
        0 <= i < paths.len(),
        0 <= j < view.specs.len(),
        relevant(paths[i]@, view.specs[j].filter),
        kind == ChangeKind::Create || kind == ChangeKind::Modify || kind == ChangeKind::Remove
            || kind == ChangeKind::Any,
    ensures
        event_seen(view, now, tried, kind, paths).pending == Some(now),
{
    assert(any_relevant(paths, view.specs));
}

/// A spec that gets registered starts the debounce time anew, whatever the event
/// was and also when there was none.
pub proof fn lemma_new_registration_is_pending(
    view: WatchLoopView,
    now: u128,
    tried: Seq<bool>,
    kind: ChangeKind,
    paths: Seq<FsPath>,
    i: int,
)
    requires
        0 <= i < view.attached.len(),
        !view.attached[i],
        tried[i],
    ensures
        event_seen(view, now, tried, kind, paths).pending == Some(now),
        view.debounce > 0 ==> quiet_seen(view, now, tried).0.pending == Some(now) && !quiet_seen(
            view,
            now,
            tried,
        ).1,
        view.debounce == 0 ==> quiet_seen(view, now, tried).0.pending is None && quiet_seen(
            view,
            now,
            tried,
        ).1,
{
    assert(newly_attached(view.attached, tried));
}

/// Nothing else touches the pending change: as long as no spec gets registered,
/// an event that only tells of reading, or of no path that a spec asks for,
/// leaves it as it was.
pub proof fn lemma_other_events_change_nothing(
    view: WatchLoopView,
    now: u128,
    tried: Seq<bool>,
    kind: ChangeKind,
    paths: Seq<FsPath>,
)
    requires
        forall|i: int| 0 <= i < view.attached.len() && #[trigger] tried[i] ==> view.attached[i],
        kind == ChangeKind::Access || kind == ChangeKind::Other || forall|i: int, j: int|
            0 <= i < paths.len() && 0 <= j < view.specs.len() ==> !#[trigger] relevant(
                paths[i]@,
                view.specs[j].filter,
            ),
    ensures
        event_seen(view, now, tried, kind, paths).pending == view.pending,
{
    assert forall|i: int| 0 <= i < view.attached.len() && !#[trigger] view.attached[i] implies
        !tried[i] by {
        assert(tried[i] ==> view.attached[i]);
    }
}

/// Events and waits never change what is watched or how long changes take to
/// settle, and treat registration alike.
pub proof fn lemma_events_keep_specs(
    view: WatchLoopView,
    now: u128,
    tried: Seq<bool>,
    kind: ChangeKind,
    paths: Seq<FsPath>,
)
    ensures
        event_seen(view, now, tried, kind, paths).specs == view.specs,
        event_seen(view, now, tried, kind, paths).debounce == view.debounce,
        quiet_seen(view, now, tried).0.specs == view.specs,
        quiet_seen(view, now, tried).0.debounce == view.debounce,
        event_seen(view, now, tried, kind, paths).attached == quiet_seen(
            view,
            now,
            tried,
        ).0.attached,
        event_seen(view, now, tried, kind, paths).attached.len() == view.attached.len(),
        forall|i: int|
            0 <= i < view.attached.len() ==> #[trigger] event_seen(
                view,
                now,
                tried,
                kind,
                paths,
            ).attached[i] == (view.attached[i] || tried[i]),
{
}

/// A wait without an event fires exactly if the pending change is as old as the
/// debounce time, and then nothing is pending any more; otherwise what was
/// pending still is.
pub proof fn lemma_quiet_fires_when_settled(view: WatchLoopView, now: u128, tried: Seq<bool>)
    requires
        forall|i: int| 0 <= i < view.attached.len() && #[trigger] tried[i] ==> view.attached[i],
    ensures
        view.pending is None ==> !quiet_seen(view, now, tried).1 && quiet_seen(
            view,
            now,
            tried,
        ).0.pending is None,
        view.pending matches Some(then) ==> {
            let (after, fires) = quiet_seen(view, now, tried);
            if now >= then + view.debounce || view.debounce == 0 {
                fires && after.pending is None
            } else {
                !fires && after.pending == Some(then)
            }
        },
{
    assert forall|i: int| 0 <= i < view.attached.len() && !#[trigger] view.attached[i] implies
        !tried[i] by {
        assert(tried[i] ==> view.attached[i]);
    }
}

/// A spec counts as newly registered exactly if trying changed which specs are
/// registered.
pub proof fn lemma_newly_attached_is_a_change(attached: Seq<bool>, tried: Seq<bool>)
    ensures
        newly_attached(attached, tried) <==> attached_after(attached, tried) != attached,
{
    if newly_attached(attached, tried) {
        let i = choose|i: int| 0 <= i < attached.len() && !#[trigger] attached[i] && tried[i];
        assert(attached_after(attached, tried)[i] != attached[i]);
    } else {
        assert(attached_after(attached, tried) =~= attached);
    }
}

/// A wait is no longer than it has to be: a pending change has settled once it is
/// over and, if it took any time, not a moment before. A clock that went back
/// starts the debounce time anew; with nothing pending the watcher looks up once
/// a second.
pub proof fn lemma_wait_is_exact(pending: Option<u128>, debounce: u128, now: u128)
    ensures
        pending matches Some(then) ==> {
            let wait = wait_time(pending, debounce as int, now as int);
            &&& 0 <= wait <= debounce
            &&& then <= now ==> (then + debounce <= now ==> wait == 0) && (now < then + debounce
                ==> now + wait == then + debounce)
            &&& now < then ==> wait == debounce
        },
        pending is None ==> wait_time(pending, debounce as int, now as int) == 1_000_000_000,
{
}

/// A change settles when it is as old as the debounce time, and stays settled.
pub proof fn lemma_settling(then: u128, debounce: u128, now: u128)
    ensures
        then <= now ==> (settled(Some(then), debounce as int, now as int) <==> now - then
            >= debounce),
        now < then ==> (settled(Some(then), debounce as int, now as int) <==> debounce == 0),
        !settled(None, debounce as int, now as int),
{
}

proof fn lemma_junk_suffixes()
    ensures
        encode_utf8(".swp"@) == seq!['.' as u8, 's' as u8, 'w' as u8, 'p' as u8],
        encode_utf8(".tmp"@) == seq!['.' as u8, 't' as u8, 'm' as u8, 'p' as u8],
{
    reveal_strlit(".swp");
    reveal_strlit(".tmp");
    is_ascii_chars_encode_utf8(".swp"@);
    is_ascii_chars_encode_utf8(".tmp"@);
}

/// Editor and temp artifacts are told by their names: whatever follows a leading
/// dot, and whatever stands before `~`, `.swp` or `.tmp`.
pub proof fn lemma_junk_names(part: Seq<u8>)
    ensures
        junk_name(seq!['.' as u8] + part),
        junk_name(part + seq!['~' as u8]),
        junk_name(part + seq!['.' as u8, 's' as u8, 'w' as u8, 'p' as u8]),
        junk_name(part + seq!['.' as u8, 't' as u8, 'm' as u8, 'p' as u8]),
{
    lemma_junk_suffixes();
    assert((seq!['.' as u8] + part)[0] == '.' as u8);
    assert((part + seq!['~' as u8]).last() == '~' as u8);
    text::lemma_suffix(part, encode_utf8(".swp"@));
    text::lemma_suffix(part, encode_utf8(".tmp"@));
}

/// No other name is junk.
pub proof fn lemma_only_those_names_are_junk(name: Seq<u8>)
    requires
        name.len() > 0 ==> name[0] != '.' as u8 && name.last() != '~' as u8,
        name.len() >= 4 ==> name.skip(name.len() - 4) != seq![
            '.' as u8,
            's' as u8,
            'w' as u8,
            'p' as u8,
        ] && name.skip(name.len() - 4) != seq!['.' as u8, 't' as u8, 'm' as u8, 'p' as u8],
    ensures
        !junk_name(name),
{
    lemma_junk_suffixes();
    if text::has_suffix(name, encode_utf8(".swp"@)) {
        text::lemma_suffix_parts(name, encode_utf8(".swp"@));
        assert(name.skip(name.len() - 4) =~= encode_utf8(".swp"@));
    }
    if text::has_suffix(name, encode_utf8(".tmp"@)) {
        text::lemma_suffix_parts(name, encode_utf8(".tmp"@));
        assert(name.skip(name.len() - 4) =~= encode_utf8(".tmp"@));
    }
}

/// Watching a file by its basename asks for that name and for no other.
pub proof fn lemma_file_spec_asks_for_its_name(path: Seq<u8>, want: String, event: Seq<u8>)
    requires
        encode_utf8(want@) == watched_name(path),
        fspath::file_name_of(path) matches Some(name) && valid_utf8(name) && !junk_name(name),
    ensures
        relevant(event, PathFilter::Basename(want)) <==> fspath::file_name_of(event)
            == fspath::file_name_of(path),
        relevant(path, PathFilter::Basename(want)),
{
}

/// A file without a name that is text is watched under the name `config`.
pub proof fn lemma_nameless_file_is_watched_as_config(path: Seq<u8>)
    requires
        fspath::file_name_of(path) matches Some(name) ==> !valid_utf8(name),
    ensures
        watched_name(path) == encode_utf8("config"@),
{
}

/// How an allow-list decides about a name that is text and no junk. A suffix to
/// ignore keeps the name out, whatever else lists it; else an extra name lets it
/// in; else an empty list of extensions does; else exactly a listed extension.
pub proof fn lemma_allow_list_decides(
    path: Seq<u8>,
    name: Seq<u8>,
    extensions: Vec<String>,
    extra_names: Vec<String>,
    ignore_suffixes: Vec<String>,
    k: int,
)
    requires
        fspath::file_name_of(path) == Some(name),
        valid_utf8(name),
        !junk_name(name),
    ensures
        ({
            let asks = relevant(path, PathFilter::Any { extensions, extra_names, ignore_suffixes });
            let ignored = exists|i: int|
                0 <= i < ignore_suffixes@.len() && text::has_suffix(
                    name,
                    encode_utf8(#[trigger] ignore_suffixes@[i]@),
                );
            &&& 0 <= k < ignore_suffixes@.len() && text::has_suffix(
                name,
                encode_utf8(ignore_suffixes@[k]@),
            ) ==> !asks
            &&& !ignored && 0 <= k < extra_names@.len() && name == encode_utf8(extra_names@[k]@)
                ==> asks
            &&& !ignored && extensions@.len() == 0 ==> asks
            &&& !ignored && 0 <= k < extensions@.len() && fspath::extension_of(path) == Some(
                encode_utf8(extensions@[k]@),
            ) ==> asks
            &&& asks && extensions@.len() > 0 ==> (exists|i: int|
                0 <= i < extra_names@.len() && name == encode_utf8(#[trigger] extra_names@[i]@))
                || (exists|i: int|
                0 <= i < extensions@.len() && fspath::extension_of(path) == Some(
                    encode_utf8(#[trigger] extensions@[i]@),
                ))
        }),
{
    if 0 <= k < ignore_suffixes@.len() && text::has_suffix(
        name,
        encode_utf8(ignore_suffixes@[k]@),
    ) {
        assert(has_any_suffix(name, ignore_suffixes@));
    }
    if 0 <= k < extra_names@.len() && name == encode_utf8(extra_names@[k]@) {
        assert(is_any_of(name, extra_names@));
    }
    if 0 <= k < extensions@.len() && fspath::extension_of(path) == Some(
        encode_utf8(extensions@[k]@),
    ) {
        assert(is_any_of(encode_utf8(extensions@[k]@), extensions@));
    }
}

/// A path whose last name is missing, is no text or is junk matters to no filter.
pub proof fn lemma_unnamed_paths_never_matter(path: Seq<u8>, filter: PathFilter)
    requires
        fspath::file_name_of(path) matches Some(name) ==> !valid_utf8(name) || junk_name(name),
    ensures
        !relevant(path, filter),
{
}

/// A directory is registered itself, a file by the directory that holds it: the
/// parent, or the current directory where the path names none. There is always a
/// directory to register.
pub proof fn lemma_watch_dir_holds_path(path: Seq<u8>, dir: Seq<u8>)
    requires
        path.len() > 0,
    ensures
        watch_dir(path, true) == path,
        watch_dir(path, true).len() > 0,
        watch_dir(path, false).len() > 0,
        fspath::parent_of(path) == Some(dir) && dir.len() > 0 ==> watch_dir(path, false) == dir,
        fspath::parent_of(path) == Some(dir) && dir.len() == 0 ==> watch_dir(path, false) == seq![
            '.' as u8,
        ],
        fspath::parent_of(path) is None ==> watch_dir(path, false) == seq!['.' as u8],
{
    reveal_strlit(".");
    is_ascii_chars_encode_utf8("."@);
    assert(encode_utf8("."@) =~= seq!['.' as u8]);
}

} // verus!
