//! The live snapshot of a configuration.

use crate::fspath::FsPath;
use crate::io::IoFailure;
use crate::io::IoFailureView;
use crate::text;
use vstd::prelude::*;
use vstd::string::*;

verus! {

/// Load a configuration snapshot from some backing store.
pub trait Load: Send + Sync {
    /// Loaded value type.
    type Value: Send + Sync;

    /// Read and parse the current snapshot.
    fn load(&self) -> Result<Self::Value, ConfigError>;
}

/// Errors from config IO / JSON.
#[derive(Debug, PartialEq, Eq)]
#[allow(inconsistent_fields)]
pub enum ConfigError {
    /// Filesystem failure, with the path involved.
    Io {
        /// Path being read or written.
        path: String,
        /// Underlying IO error.
        source: IoFailure,
    },
    /// JSON (de)serialisation failure; the codec's message.
    Json(String),
    /// Watcher / thread setup.
    Other(String),
}

/// What a [`ConfigError`] says.
#[allow(inconsistent_fields)]
pub enum ConfigErrorView {
    Io { path: Seq<char>, source: IoFailureView },
    Json(Seq<char>),
    Other(Seq<char>),
}

impl View for ConfigError {
    type V = ConfigErrorView;

    open spec fn view(&self) -> ConfigErrorView {
        match self {
            ConfigError::Io { path, source } => ConfigErrorView::Io {
                path: path@,
                source: source@,
            },
            ConfigError::Json(t) => ConfigErrorView::Json(t@),
            ConfigError::Other(t) => ConfigErrorView::Other(t@),
        }
    }
}

/// A failure at `path`, which is shown as text.
pub open spec fn failed_at(path: Seq<u8>, source: IoFailureView) -> ConfigErrorView {
    ConfigErrorView::Io { path: text::lossy_text(path), source }
}

/// The message of a configuration error.
pub open spec fn config_error_message(e: ConfigErrorView) -> Seq<char> {
    match e {
        ConfigErrorView::Io { path, source } => "I/O error on "@ + path + ": "@ + source.text,
        ConfigErrorView::Json(t) => "JSON error: "@ + t,
        ConfigErrorView::Other(t) => t,
    }
}

impl ConfigError {
    /// Wrap an IO error with a path display.
    pub fn io_at(path: &FsPath, source: IoFailure) -> (r: Self)
        ensures
            r@ == failed_at(path@, source@),
    {
        ConfigError::Io { path: path.display(), source }
    }

    /// The message of the error.
    pub fn message(&self) -> (r: String)
        ensures
            r@ == config_error_message(self@),
    {
        match self {
            ConfigError::Io { path, source } => "I/O error on ".to_owned().concat(
                path.as_str(),
            ).concat(": ").concat(source.text.as_str()),
            ConfigError::Json(t) => "JSON error: ".to_owned().concat(t.as_str()),
            ConfigError::Other(t) => t.clone(),
        }
    }
}

/// The snapshot that a load leaves behind: the loaded value, or the previous one
/// if the load failed.
pub open spec fn applied<T>(previous: T, loaded: Result<T, ConfigError>) -> T {
    match loaded {
        Ok(next) => next,
        Err(_) => previous,
    }
}

/// Live snapshot. A failed load must not replace it.
#[derive(Debug, PartialEq, Eq)]
pub struct Live<T> {
    inner: T,
}

impl<T> View for Live<T> {
    type V = T;

    closed spec fn view(&self) -> T {
        self.inner
    }
}

impl<T> Live<T> {
    /// Wrap an initial value.
    pub fn new(value: T) -> (r: Self)
        ensures
            r@ == value,
    {
        Live { inner: value }
    }

    /// Replace the snapshot (only after a successful load).
    pub fn replace(&mut self, next: T)
        ensures
            final(self)@ == next,
    {
        self.inner = next;
    }

    /// Borrow the current snapshot.
    pub fn with<R, F: FnOnce(&T) -> R>(&self, f: F) -> (r: R)
        requires
            call_requires(f, (&self@,)),
        ensures
            call_ensures(f, (&self@,), r),
    {
        f(&self.inner)
    }

    /// Clone the current snapshot.
    pub fn snapshot(&self) -> (r: T) where T: Clone
        ensures
            cloned(self@, r),
    {
        self.inner.clone()
    }

    /// A load came to `loaded`: a value replaces the snapshot, an error leaves it
    /// alone and is handed on.
    pub fn apply(&mut self, loaded: Result<T, ConfigError>) -> (r: Result<(), ConfigError>)
        ensures
            final(self)@ == applied(old(self)@, loaded),
            match loaded {
                Ok(_) => r is Ok,
                Err(e) => r == Err::<(), ConfigError>(e),
            },
    {
        match loaded {
            Ok(next) => {
                self.replace(next);
                Ok(())
            },
            Err(e) => Err(e),
        }
    }
}

/// Load `source` and swap into `live` only on success.
pub fn try_reload<L: Load>(source: &L, live: &mut Live<L::Value>) -> (r: Result<(), ConfigError>)
    ensures
        exists|loaded: Result<L::Value, ConfigError>| #[trigger]
            call_ensures(L::load, (source,), loaded) && final(live)@ == applied(old(live)@, loaded)
                && match loaded {
                Ok(_) => r is Ok,
                Err(e) => r == Err::<(), ConfigError>(e),
            },
{
    let loaded = source.load();
    live.apply(loaded)
}

/// The snapshot after `loads`, starting from `initial`.
pub open spec fn snapshot_after<T>(initial: T, loads: Seq<Result<T, ConfigError>>) -> T
    decreases loads.len(),
{
    if loads.len() == 0 {
        initial
    } else {
        applied(snapshot_after(initial, loads.drop_last()), loads.last())
    }
}

/// Failed loads change nothing: however many follow, the snapshot stays that of
/// the last load that succeeded, or the initial one if none did.
pub proof fn lemma_failed_loads_keep_previous<T>(
    initial: T,
    loads: Seq<Result<T, ConfigError>>,
    good: int,
)
    requires
        -1 <= good < loads.len(),
        good >= 0 ==> loads[good] is Ok,
        forall|i: int| good < i < loads.len() ==> (#[trigger] loads[i]) is Err,
    ensures
        snapshot_after(initial, loads) == (if good >= 0 {
            loads[good]->Ok_0
        } else {
            initial
        }),
    decreases loads.len(),
{
    if loads.len() > 0 && good < loads.len() - 1 {
        let before = loads.drop_last();
        assert(loads[loads.len() - 1] is Err);
        assert(forall|i: int| 0 <= i < before.len() ==> before[i] == loads[i]);
        lemma_failed_loads_keep_previous(initial, before, good);
    }
}

/// A failure names its path and carries its cause whole.
pub proof fn lemma_failure_names_path(path: Seq<u8>, source: IoFailureView)
    ensures
        failed_at(path, source) matches ConfigErrorView::Io { path: shown, source: cause }
            && shown == text::lossy_text(path) && cause == source && cause.kind == source.kind
            && cause.text == source.text,
{
}

/// A message says what the error carries: a JSON error or any other one its text
/// at the end, an I/O error its path and, after that, the text of its cause.
pub proof fn lemma_config_messages(path: Seq<char>, source: IoFailureView, t: Seq<char>)
    ensures
        config_error_message(ConfigErrorView::Other(t)) == t,
        config_error_message(ConfigErrorView::Json(t)) == config_error_message(
            ConfigErrorView::Json(Seq::empty()),
        ) + t,
        config_error_message(ConfigErrorView::Json(t)) == "JSON error: "@ + t,
        config_error_message(ConfigErrorView::Io { path, source }) == "I/O error on "@ + path
            + ": "@ + source.text,
{
    assert("JSON error: "@ + Seq::<char>::empty() =~= "JSON error: "@);
}

/// What was loaded replaces the snapshot, whatever it was; what failed to load
/// does not.
pub proof fn lemma_loaded_value_replaces_snapshot<T>(previous: T, next: T, e: ConfigError)
    ensures
        applied(previous, Ok(next)) == next,
        applied(previous, Err(e)) == previous,
{
}

} // verus!
