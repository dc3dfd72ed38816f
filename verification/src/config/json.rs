//! JSON file loader (`$DATA_DIR/etc/{name}.json` style).

use core::marker::PhantomData;
use crate::config::live::ConfigError;
use crate::config::live::ConfigErrorView;
use crate::config::live;
use crate::fspath::FsPath;
use crate::fspath;
use crate::io::IoFailure;
use crate::io::IoFailureView;
use crate::io::IoKind;
use vstd::prelude::*;
use vstd::string::*;

verus! {

/// What a missing file means.
#[derive(Debug, Clone, Copy, PartialEq, Eq, Structural)]
pub enum Seed {
    ErrorIfMissing,
    DefaultInMemory,
    CreateFile,
}

/// Load `T` from a JSON file; optionally seed defaults when missing.
pub struct JsonFile<T> {
    path: FsPath,
    seed: Seed,
    _ty: PhantomData<T>,
}

/// What a [`JsonFile`] says.
pub struct JsonFileView {
    pub path: Seq<u8>,
    pub seed: Seed,
}

impl<T> View for JsonFile<T> {
    type V = JsonFileView;

    closed spec fn view(&self) -> JsonFileView {
        JsonFileView { path: self.path@, seed: self.seed }
    }
}

/// What loading does after the file was read.
#[derive(Debug, PartialEq, Eq)]
pub enum LoadStep {
    /// Parse this text, see [`JsonFile::parsed`].
    Parse(String),
    /// Take the default value; write nothing.
    UseDefault,
    /// Write the default value: create this directory (if any), then the file,
    /// see [`file_text`].
    Create { parent: Option<FsPath> },
    /// Report this.
    Fail(ConfigError),
}

/// What creating the file came to.
#[derive(Debug, PartialEq, Eq)]
pub enum CreateOutcome {
    /// The directory could not be created.
    DirFailed(IoFailure),
    /// The value could not be turned to JSON; the encoder's message.
    EncodeFailed(String),
    /// The file could not be written.
    WriteFailed(IoFailure),
    /// The file is there.
    Written,
}

/// What a [`LoadStep`] says.
pub enum LoadStepView {
    Parse(Seq<char>),
    UseDefault,
    Create { parent: Option<Seq<u8>> },
    Fail(ConfigErrorView),
}

impl View for LoadStep {
    type V = LoadStepView;

    open spec fn view(&self) -> LoadStepView {
        match self {
            LoadStep::Parse(text) => LoadStepView::Parse(text@),
            LoadStep::UseDefault => LoadStepView::UseDefault,
            LoadStep::Create { parent } => LoadStepView::Create { parent: opt_path(*parent) },
            LoadStep::Fail(e) => LoadStepView::Fail(e@),
        }
    }
}

/// The bytes of an optional path.
pub open spec fn opt_path(path: Option<FsPath>) -> Option<Seq<u8>> {
    match path {
        Some(path) => Some(path@),
        None => None,
    }
}

/// What reading a file came to: its text, or why there is none.
pub open spec fn found(text: Result<String, IoFailure>) -> Result<Seq<char>, IoFailureView> {
    match text {
        Ok(text) => Ok(text@),
        Err(source) => Err(source@),
    }
}

/// What loading does once reading the file came to `text`.
pub open spec fn load_step(file: JsonFileView, text: Result<Seq<char>, IoFailureView>) -> LoadStepView {
    match text {
        Ok(text) => LoadStepView::Parse(text),
        Err(source) => if source.kind != IoKind::NotFound {
            LoadStepView::Fail(live::failed_at(file.path, source))
        } else {
            match file.seed {
                Seed::ErrorIfMissing => LoadStepView::Fail(live::failed_at(file.path, source)),
                Seed::DefaultInMemory => LoadStepView::UseDefault,
                Seed::CreateFile => LoadStepView::Create { parent: fspath::parent_of(file.path) },
            }
        },
    }
}

/// What a load came to.
pub open spec fn seen<T>(r: Result<T, ConfigError>) -> Result<T, ConfigErrorView> {
    match r {
        Ok(value) => Ok(value),
        Err(e) => Err(e@),
    }
}

/// What parsing came to: a value, or the parser's message.
pub open spec fn parse_outcome<T>(value: Result<T, String>) -> Result<T, Seq<char>> {
    match value {
        Ok(value) => Ok(value),
        Err(message) => Err(message@),
    }
}

/// The result of a load whose text was parsed. A text that does not parse is an
/// error, never a default.
pub open spec fn parsed_result<T>(value: Result<T, Seq<char>>) -> Result<T, ConfigErrorView> {
    match value {
        Ok(value) => Ok(value),
        Err(message) => Err(ConfigErrorView::Json(message)),
    }
}

/// The result of a load that wrote the default `value`.
pub open spec fn created_result<T>(
    file: JsonFileView,
    value: T,
    parent: Option<Seq<u8>>,
    outcome: CreateOutcome,
) -> Result<T, ConfigErrorView> {
    match outcome {
        CreateOutcome::DirFailed(source) => Err(live::failed_at(parent->0, source@)),
        CreateOutcome::EncodeFailed(message) => Err(ConfigErrorView::Json(message@)),
        CreateOutcome::WriteFailed(source) => Err(live::failed_at(file.path, source@)),
        CreateOutcome::Written => Ok(value),
    }
}

/// The result of a whole load: `text` is what reading came to, `value` what
/// parsing would come to, `default` the default value and `outcome` what writing
/// it would come to.
pub open spec fn load_result<T>(
    file: JsonFileView,
    text: Result<Seq<char>, IoFailureView>,
    value: Result<T, Seq<char>>,
    default: T,
    outcome: CreateOutcome,
) -> Result<T, ConfigErrorView> {
    match load_step(file, text) {
        LoadStepView::Parse(_) => parsed_result(value),
        LoadStepView::UseDefault => Ok(default),
        LoadStepView::Create { parent } => created_result(file, default, parent, outcome),
        LoadStepView::Fail(e) => Err(e),
    }
}

/// A change to the file system.
pub enum FileChange {
    /// This directory, and those above it, are created where missing.
    MakeDir(Seq<u8>),
    /// This file is written.
    Write(Seq<u8>),
}

/// The changes that a load asks for once reading the file came to `text`.
pub open spec fn load_changes(file: JsonFileView, text: Result<Seq<char>, IoFailureView>) -> Seq<
    FileChange,
> {
    match load_step(file, text) {
        LoadStepView::Create { parent: Some(parent) } => seq![
            FileChange::MakeDir(parent),
            FileChange::Write(file.path),
        ],
        LoadStepView::Create { parent: None } => seq![FileChange::Write(file.path)],
        _ => Seq::empty(),
    }
}

/// A file that exists is never changed, whatever a missing one would mean and
/// even if it cannot be read or does not parse: then the load is an error, never
/// the default.
pub proof fn lemma_existing_file_is_never_changed<T>(
    file: JsonFileView,
    text: Result<Seq<char>, IoFailureView>,
    value: Result<T, Seq<char>>,
    default: T,
    outcome: CreateOutcome,
)
    requires
        text matches Err(source) ==> source.kind != IoKind::NotFound,
    ensures
        load_changes(file, text).len() == 0,
        load_result(file, text, value, default, outcome) == (match (text, value) {
            (Ok(_), Ok(value)) => Ok(value),
            (Ok(_), Err(message)) => Err::<T, ConfigErrorView>(ConfigErrorView::Json(message)),
            (Err(source), _) => Err(live::failed_at(file.path, source)),
        }),
{
}

/// Only a loader that was told to create the file changes anything, and only when
/// the file is missing.
pub proof fn lemma_only_create_mode_changes_files(
    file: JsonFileView,
    text: Result<Seq<char>, IoFailureView>,
)
    ensures
        load_changes(file, text).len() > 0 <==> file.seed == Seed::CreateFile && (
        text matches Err(source) && source.kind == IoKind::NotFound),
{
}

/// What a missing file comes to where it is not created: an error that names the
/// path, or the default value. Nothing is changed.
pub proof fn lemma_missing_file_is_not_created<T>(
    file: JsonFileView,
    source: IoFailureView,
    value: Result<T, Seq<char>>,
    default: T,
    outcome: CreateOutcome,
)
    requires
        source.kind == IoKind::NotFound,
        file.seed != Seed::CreateFile,
    ensures
        load_changes(file, Err(source)).len() == 0,
        load_result(file, Err(source), value, default, outcome) == (if file.seed
            == Seed::ErrorIfMissing {
            Err(live::failed_at(file.path, source))
        } else {
            Ok::<T, ConfigErrorView>(default)
        }),
{
}

impl<T> JsonFile<T> {
    /// Missing file is an error.
    pub fn new(path: FsPath) -> (r: Self)
        ensures
            r@ == (JsonFileView { path: path@, seed: Seed::ErrorIfMissing }),
    {
        JsonFile { path, seed: Seed::ErrorIfMissing, _ty: PhantomData }
    }

    /// Missing file → `T::default()` in memory, do not write.
    pub fn missing_defaults(self) -> (r: Self)
        ensures
            r@ == (JsonFileView { seed: Seed::DefaultInMemory, ..self@ }),
    {
        JsonFile { path: self.path, seed: Seed::DefaultInMemory, _ty: PhantomData }
    }

    /// Missing file → write pretty `T::default()` then return it.
    pub fn create_default(self) -> (r: Self)
        ensures
            r@ == (JsonFileView { seed: Seed::CreateFile, ..self@ }),
    {
        JsonFile { path: self.path, seed: Seed::CreateFile, _ty: PhantomData }
    }

    /// Path being loaded.
    pub fn path(&self) -> (r: &FsPath)
        ensures
            r@ == self@.path,
    {
        &self.path
    }

    /// Reading the file came to `text`.
    pub fn read(&self, text: Result<String, IoFailure>) -> (r: LoadStep)
        ensures
            r@ == load_step(self@, found(text)),
            text matches Ok(text) ==> r == LoadStep::Parse(text),
            text matches Err(source) ==> (source.kind != IoKind::NotFound || self@.seed
                == Seed::ErrorIfMissing ==> (r matches LoadStep::Fail(e) && e@ == live::failed_at(
                self@.path,
                source@,
            ))),
    {
        match text {
            Ok(text) => LoadStep::Parse(text),
            Err(source) => {
                if source.kind != IoKind::NotFound {
                    return LoadStep::Fail(ConfigError::io_at(&self.path, source));
                }
                match self.seed {
                    Seed::ErrorIfMissing => LoadStep::Fail(ConfigError::io_at(&self.path, source)),
                    Seed::DefaultInMemory => LoadStep::UseDefault,
                    Seed::CreateFile => LoadStep::Create { parent: self.path.parent() },
                }
            },
        }
    }

    /// Parsing the text came to `value`, or to the parser's message.
    pub fn parsed(&self, value: Result<T, String>) -> (r: Result<T, ConfigError>)
        ensures
            seen(r) == parsed_result(parse_outcome(value)),
            match value {
                Ok(value) => r == Ok::<T, ConfigError>(value),
                Err(message) => r == Err::<T, ConfigError>(ConfigError::Json(message)),
            },
    {
        match value {
            Ok(value) => Ok(value),
            Err(message) => Err(ConfigError::Json(message)),
        }
    }

    /// Creating the file with the default `value` came to `outcome`. `parent` is
    /// the directory that [`LoadStep::Create`] named.
    pub fn created(&self, value: T, parent: Option<FsPath>, outcome: CreateOutcome) -> (r: Result<
        T,
        ConfigError,
    >)
        requires
            outcome is DirFailed ==> parent is Some,
        ensures
            seen(r) == created_result(self@, value, opt_path(parent), outcome),
            match outcome {
                CreateOutcome::Written => r == Ok::<T, ConfigError>(value),
                CreateOutcome::EncodeFailed(message) => r == Err::<T, ConfigError>(
                    ConfigError::Json(message),
                ),
                CreateOutcome::DirFailed(source) => r matches Err(e) && parent matches Some(dir)
                    && e@ == live::failed_at(dir@, source@),
                CreateOutcome::WriteFailed(source) => r matches Err(e) && e@ == live::failed_at(
                    self@.path,
                    source@,
                ),
            },
    {
        match outcome {
            CreateOutcome::DirFailed(source) => match parent {
                Some(parent) => Err(ConfigError::io_at(&parent, source)),
                None => Err(ConfigError::io_at(&self.path, source)),
            },
            CreateOutcome::EncodeFailed(message) => Err(ConfigError::Json(message)),
            CreateOutcome::WriteFailed(source) => Err(ConfigError::io_at(&self.path, source)),
            CreateOutcome::Written => Ok(value),
        }
    }
}

/// The text of a configuration file: its JSON and a line feed.
pub fn file_text(json: String) -> (r: String)
    ensures
        r@ == json@.push('\n'),
{
    let mut out = json;
    out.push('\n');
    out
}

/// A missing file that is to be created is: its directory first, where the path
/// has one, then the file, and nothing else. The load is the default value exactly
/// if that went well; else it names the directory or the file that failed, or says
/// what the encoder said.
pub proof fn lemma_missing_file_is_created<T>(
    file: JsonFileView,
    source: IoFailureView,
    value: Result<T, Seq<char>>,
    default: T,
    outcome: CreateOutcome,
)
    requires
        file.seed == Seed::CreateFile,
        source.kind == IoKind::NotFound,
        outcome is DirFailed ==> fspath::parent_of(file.path) is Some,
    ensures
        ({
            let changes = load_changes(file, Err(source));
            let r = load_result(file, Err(source), value, default, outcome);
            &&& match fspath::parent_of(file.path) {
                Some(dir) => changes.len() == 2 && changes[0] == FileChange::MakeDir(dir)
                    && changes[1] == FileChange::Write(file.path),
                None => changes.len() == 1 && changes[0] == FileChange::Write(file.path),
            }
            &&& r is Ok <==> outcome is Written
            &&& r matches Ok(loaded) ==> loaded == default
            &&& outcome matches CreateOutcome::DirFailed(failure) ==> (fspath::parent_of(file.path)
                matches Some(dir) && r == Err::<T, ConfigErrorView>(live::failed_at(dir, failure@)))
            &&& outcome matches CreateOutcome::WriteFailed(failure) ==> r == Err::<
                T,
                ConfigErrorView,
            >(live::failed_at(file.path, failure@))
            &&& outcome matches CreateOutcome::EncodeFailed(message) ==> r == Err::<
                T,
                ConfigErrorView,
            >(ConfigErrorView::Json(message@))
        }),
{
}

/// What a load came to is what it returned: values stay as they are and errors
/// say what they say; likewise for what was read, what was parsed and for paths.
pub proof fn lemma_outcomes_stay_as_they_are<T>(
    value: T,
    error: ConfigError,
    text: String,
    failure: IoFailure,
    path: FsPath,
)
    ensures
        seen(Ok::<T, ConfigError>(value)) == Ok::<T, ConfigErrorView>(value),
        seen(Err::<T, ConfigError>(error)) == Err::<T, ConfigErrorView>(error@),
        found(Ok(text)) == Ok::<Seq<char>, IoFailureView>(text@),
        found(Err(failure)) == Err::<Seq<char>, IoFailureView>(failure@),
        parse_outcome(Ok::<T, String>(value)) == Ok::<T, Seq<char>>(value),
        parse_outcome(Err::<T, String>(text)) == Err::<T, Seq<char>>(text@),
        opt_path(Some(path)) == Some(path@),
        opt_path(None) is None,
{
}

/// A text that was read is parsed as it is, whatever a missing file would mean.
pub proof fn lemma_text_is_parsed(file: JsonFileView, seed: Seed, text: Seq<char>)
    ensures
        load_step(file, Ok(text)) == LoadStepView::Parse(text),
        load_step(JsonFileView { seed, ..file }, Ok(text)) == load_step(file, Ok(text)),
{
}

} // verus!
