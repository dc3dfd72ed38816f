//! OAuth confidential-client drop-in and authorization-code exchange.

use crate::client::config::BigFredConfig;
use crate::client::error::Error;
use crate::client::error::ErrorView;
use crate::client::error::Result;
use crate::client::error;
use crate::client::http::is_success;
use crate::client::http;
use crate::client::wire::TokenResponse;
use crate::fspath::FsPath;
use crate::fspath;
use crate::io::IoFailure;
use crate::io::IoKind;
use crate::json::text_member;
use crate::json;
use crate::text::copy_list;
use crate::text::hex;
use crate::text::same_text;
use crate::text::trim;
use crate::text;
use rand::RngCore;
use vstd::prelude::*;
use vstd::string::*;
use vstd::utf8::*;

verus! {

/// Permission bits of the drop-in directory and its parent.
pub const DIR_MODE: u32 = 0o750;

/// Permission bits of the drop-in file.
pub const FILE_MODE: u32 = 0o640;

/// How many random bytes a client secret is made of.
pub const SECRET_BYTES: usize = 32;

/// One drop-in registration, as BigFred reads it.
#[derive(Debug, Clone, PartialEq, Eq)]
pub struct OAuthClientFile {
    pub client_id: String,
    pub client_secret: String,
    pub display_name: String,
    pub redirect_uris: Vec<String>,
    pub cors_enabled: bool,
    pub cors_origins: Vec<String>,
    pub enabled: bool,
    pub share_session: bool,
}

/// What an [`OAuthClientFile`] says.
pub struct OAuthClientFileView {
    pub client_id: Seq<char>,
    pub client_secret: Seq<char>,
    pub display_name: Seq<char>,
    pub redirect_uris: Seq<Seq<char>>,
    pub cors_enabled: bool,
    pub cors_origins: Seq<Seq<char>>,
    pub enabled: bool,
    pub share_session: bool,
}

impl View for OAuthClientFile {
    type V = OAuthClientFileView;

    open spec fn view(&self) -> OAuthClientFileView {
        OAuthClientFileView {
            client_id: self.client_id@,
            client_secret: self.client_secret@,
            display_name: self.display_name@,
            redirect_uris: text::texts(self.redirect_uris@),
            cors_enabled: self.cors_enabled,
            cors_origins: text::texts(self.cors_origins@),
            enabled: self.enabled,
            share_session: self.share_session,
        }
    }
}

/// rand's `RngCore::fill_bytes` on a buffer of `len` bytes. What is in it is
/// left to chance.
#[verifier::external_body]
fn random_bytes(len: usize) -> (r: Vec<u8>)
    ensures
        r@.len() == len,
{
    let mut bytes = vec![0u8; len];
    rand::thread_rng().fill_bytes(&mut bytes);
    bytes
}

/// Whether a text can be a client secret: 64 hexadecimal digits in lower case.
pub open spec fn secret_text(s: Seq<char>) -> bool {
    &&& s.len() == 2 * SECRET_BYTES
    &&& forall|i: int|
        0 <= i < s.len() ==> '0' <= #[trigger] s[i] <= '9' || 'a' <= s[i] <= 'f'
}

/// The client secret made of random `bytes`.
pub fn secret_from(bytes: &[u8]) -> (r: String)
    ensures
        r@ == text::hex_text(bytes@),
        bytes@.len() == SECRET_BYTES ==> secret_text(r@),
{
    proof {
        text::lemma_hex_text_shape(bytes@);
    }
    hex(bytes)
}

/// A new client secret.
pub fn random_secret() -> (r: String)
    ensures
        secret_text(r@),
{
    secret_from(random_bytes(SECRET_BYTES).as_slice())
}

/// The registration that a missing drop-in is seeded with.
pub open spec fn seeded(cfg: BigFredConfig, secret: Seq<char>) -> OAuthClientFileView {
    OAuthClientFileView {
        client_id: cfg.sso_client_id@,
        client_secret: secret,
        display_name: cfg.oauth_display_name@,
        redirect_uris: text::texts(cfg.redirect_uris@),
        cors_enabled: false,
        cors_origins: Seq::empty(),
        enabled: true,
        share_session: false,
    }
}

/// Makes the registration for a missing drop-in.
pub fn seed_client_file(cfg: &BigFredConfig, secret: String) -> (r: OAuthClientFile)
    ensures
        r@ == seeded(*cfg, secret@),
        r.client_id@ == cfg.sso_client_id@,
        r.client_secret@ == secret@,
        r.display_name@ == cfg.oauth_display_name@,
        r.redirect_uris@.len() == cfg.redirect_uris@.len(),
        forall|i: int|
            0 <= i < r.redirect_uris@.len() ==> (#[trigger] r.redirect_uris@[i])@
                == cfg.redirect_uris@[i]@,
{
    let file = OAuthClientFile {
        client_id: cfg.sso_client_id.clone(),
        client_secret: secret,
        display_name: cfg.oauth_display_name.clone(),
        redirect_uris: copy_list(&cfg.redirect_uris),
        cors_enabled: false,
        cors_origins: Vec::new(),
        enabled: true,
        share_session: false,
    };
    proof {
        assert(file@.cors_origins =~= Seq::<Seq<char>>::empty());
        text::lemma_texts(file.redirect_uris@);
        text::lemma_texts(cfg.redirect_uris@);
        assert forall|i: int| 0 <= i < file.redirect_uris@.len() implies (
        #[trigger] file.redirect_uris@[i])@ == cfg.redirect_uris@[i]@ by {
            assert(text::texts(file.redirect_uris@)[i] == text::texts(cfg.redirect_uris@)[i]);
        }
    }
    file
}

/// Whether a list of URIs has `uri`, not counting white space around either.
pub open spec fn has_uri(uris: Seq<Seq<char>>, uri: Seq<char>) -> bool {
    exists|i: int| 0 <= i < uris.len() && text::trimmed(#[trigger] uris[i]) == text::trimmed(uri)
}

/// `uris` and, at the end, `uri` without the white space around it, unless that
/// is empty or already there.
pub open spec fn with_uri(uris: Seq<Seq<char>>, uri: Seq<char>) -> Seq<Seq<char>> {
    if text::trimmed(uri).len() == 0 || has_uri(uris, uri) {
        uris
    } else {
        uris.push(text::trimmed(uri))
    }
}

/// `uris` with each of `configured` merged in.
pub open spec fn merged(uris: Seq<Seq<char>>, configured: Seq<Seq<char>>) -> Seq<Seq<char>>
    decreases configured.len(),
{
    if configured.len() == 0 {
        uris
    } else {
        with_uri(merged(uris, configured.drop_last()), configured.last())
    }
}

fn list_has_uri(uris: &Vec<String>, uri: &str) -> (r: bool)
    ensures
        r == has_uri(text::texts(uris@), uri@),
{
    let wanted = trim(uri);
    let mut i: usize = 0;
    while i < uris.len()
        invariant
            i <= uris@.len(),
            wanted@ == text::trimmed(uri@),
            forall|k: int| 0 <= k < i ==> text::trimmed(#[trigger] text::texts(uris@)[k]) != text::trimmed(uri@),
        decreases uris@.len() - i,
    {
        assert(text::texts(uris@)[i as int] == uris@[i as int]@);
        if same_text(trim(uris[i].as_str()), wanted) {
            return true;
        }
        i += 1;
    }
    false
}

/// Merges the configured redirect URIs into a registration. Tells whether that
/// changed it.
pub fn sync_redirect_uris(file: &mut OAuthClientFile, cfg: &BigFredConfig) -> (r: bool)
    ensures
        final(file)@ == (OAuthClientFileView {
            redirect_uris: merged(old(file)@.redirect_uris, text::texts(cfg.redirect_uris@)),
            ..old(file)@
        }),
        r == (final(file)@.redirect_uris != old(file)@.redirect_uris),
{
    let before: usize = file.redirect_uris.len();
    let ghost was = file@.redirect_uris;
    let ghost wanted = text::texts(cfg.redirect_uris@);
    let mut i: usize = 0;
    assert(wanted.take(0) =~= Seq::<Seq<char>>::empty());
    while i < cfg.redirect_uris.len()
        invariant
            i <= cfg.redirect_uris@.len(),
            wanted == text::texts(cfg.redirect_uris@),
            was == old(file)@.redirect_uris,
            file@.redirect_uris == merged(was, wanted.take(i as int)),
            file@ == (OAuthClientFileView { redirect_uris: file@.redirect_uris, ..old(file)@ }),
        decreases cfg.redirect_uris@.len() - i,
    {
        let uri = cfg.redirect_uris[i].as_str();
        let ghost now = file@.redirect_uris;
        proof {
            assert(wanted.take(i + 1).drop_last() =~= wanted.take(i as int));
            assert(wanted.take(i + 1).last() == uri@);
        }
        let added = trim(uri);
        if added.unicode_len() > 0 && !list_has_uri(&file.redirect_uris, uri) {
            file.redirect_uris.push(added.to_owned());
            assert(text::texts(file.redirect_uris@) =~= now.push(text::trimmed(uri@)));
        }
        i += 1;
    }
    proof {
        assert(wanted.take(i as int) =~= wanted);
        lemma_merge_keeps_existing(was, wanted);
        if file@.redirect_uris.len() == was.len() {
            assert(file@.redirect_uris =~= was);
        }
    }
    file.redirect_uris.len() != before
}

/// Merging keeps every URI that was there, in its place.
pub proof fn lemma_merge_keeps_existing(uris: Seq<Seq<char>>, configured: Seq<Seq<char>>)
    ensures
        uris.len() <= merged(uris, configured).len(),
        merged(uris, configured).take(uris.len() as int) =~= uris,
    decreases configured.len(),
{
    if configured.len() > 0 {
        lemma_merge_keeps_existing(uris, configured.drop_last());
    }
}

/// After merging, every configured URI that is not blank is there.
pub proof fn lemma_merge_covers_configured(
    uris: Seq<Seq<char>>,
    configured: Seq<Seq<char>>,
    k: int,
)
    requires
        0 <= k < configured.len(),
        text::trimmed(configured[k]).len() > 0,
    ensures
        has_uri(merged(uris, configured), configured[k]),
    decreases configured.len(),
{
    let before = merged(uris, configured.drop_last());
    let after = merged(uris, configured);
    if k < configured.len() - 1 {
        lemma_merge_covers_configured(uris, configured.drop_last(), k);
        let i = choose|i: int|
            0 <= i < before.len() && text::trimmed(#[trigger] before[i]) == text::trimmed(configured[k]);
        assert(after[i] == before[i]);
    } else {
        text::lemma_trimmed_idempotent(configured[k]);
        if !has_uri(before, configured[k]) {
            assert(after[before.len() as int] == text::trimmed(configured[k]));
        }
    }
}

/// Merging adds nothing but configured URIs.
pub proof fn lemma_merge_adds_only_configured(
    uris: Seq<Seq<char>>,
    configured: Seq<Seq<char>>,
    i: int,
)
    requires
        uris.len() <= i < merged(uris, configured).len(),
    ensures
        exists|k: int|
            0 <= k < configured.len() && merged(uris, configured)[i] == text::trimmed(
                #[trigger] configured[k],
            ),
    decreases configured.len(),
{
    if configured.len() > 0 {
        let before = merged(uris, configured.drop_last());
        if i < before.len() {
            lemma_merge_adds_only_configured(uris, configured.drop_last(), i);
            let k = choose|k: int|
                0 <= k < configured.len() - 1 && before[i] == text::trimmed(
                    #[trigger] configured.drop_last()[k],
                );
            assert(configured[k] == configured.drop_last()[k]);
        } else {
            assert(merged(uris, configured)[i] == text::trimmed(configured[configured.len() - 1]));
        }
    }
}

/// Merging twice is merging once: a registration that was synced stays as it is.
pub proof fn lemma_merge_idempotent(uris: Seq<Seq<char>>, configured: Seq<Seq<char>>)
    ensures
        merged(merged(uris, configured), configured) == merged(uris, configured),
{
    let all = merged(uris, configured);
    assert forall|k: int|
        0 <= k < configured.len() && text::trimmed(#[trigger] configured[k]).len() > 0 implies has_uri(
        all,
        configured[k],
    ) by {
        lemma_merge_covers_configured(uris, configured, k);
    }
    lemma_merge_of_known(all, configured);
}

/// A drop-in that was just seeded needs no merging: it is not written twice.
pub proof fn lemma_seeded_needs_no_merge(configured: Seq<Seq<char>>)
    ensures
        merged(configured, configured) == configured,
{
    assert forall|k: int|
        0 <= k < configured.len() && text::trimmed(#[trigger] configured[k]).len() > 0 implies has_uri(
        configured,
        configured[k],
    ) by {}
    lemma_merge_of_known(configured, configured);
}

proof fn lemma_merge_of_known(uris: Seq<Seq<char>>, configured: Seq<Seq<char>>)
    requires
        forall|k: int|
            0 <= k < configured.len() && text::trimmed(#[trigger] configured[k]).len() > 0 ==> has_uri(
                uris,
                configured[k],
            ),
    ensures
        merged(uris, configured) == uris,
    decreases configured.len(),
{
    if configured.len() > 0 {
        let head = configured.drop_last();
        assert forall|k: int|
            0 <= k < head.len() && text::trimmed(#[trigger] head[k]).len() > 0 implies has_uri(
            uris,
            head[k],
        ) by {
            assert(configured[k] == head[k]);
        }
        lemma_merge_of_known(uris, head);
        assert(configured[configured.len() - 1] == configured.last());
    }
}

/// The bytes of a drop-in file: its JSON and a line feed.
pub fn file_bytes(json: Vec<u8>) -> (r: Vec<u8>)
    ensures
        r@ == json@.push('\n' as u8),
{
    let mut out = json;
    out.push(0x0A);
    out
}

/// Permissions to assert on one path. Failing to is reported but changes
/// nothing else.
#[derive(Debug, PartialEq, Eq)]
pub struct Harden {
    pub path: FsPath,
    pub mode: u32,
    /// The group to hand the path to, when the `bigfred` group is known.
    pub gid: Option<u32>,
}

/// What to assert on the drop-in directory: the directory itself, then its
/// parent when it has one.
pub fn harden_dropin_dir(dir: &FsPath, gid: Option<u32>) -> (r: Vec<Harden>)
    ensures
        r@.len() == (if fspath::parent_of(dir@) is Some {
            2int
        } else {
            1
        }),
        r@[0].path@ == dir@,
        fspath::parent_of(dir@) matches Some(parent) ==> r@[1].path@ == parent,
        forall|i: int| 0 <= i < r@.len() ==> (#[trigger] r@[i]).mode == DIR_MODE && r@[i].gid == gid,
{
    let mut items: Vec<Harden> = Vec::new();
    items.push(Harden { path: dir.clone(), mode: DIR_MODE, gid });
    if let Some(parent) = dir.parent() {
        items.push(Harden { path: parent, mode: DIR_MODE, gid });
    }
    items
}

/// What to assert on the drop-in file.
pub fn harden_dropin_file(path: &FsPath, gid: Option<u32>) -> (r: Harden)
    ensures
        r.path@ == path@,
        r.mode == FILE_MODE,
        r.gid == gid,
{
    Harden { path: path.clone(), mode: FILE_MODE, gid }
}

/// Why a drop-in could not be read.
#[derive(Debug, PartialEq, Eq)]
pub enum ReadFailure {
    Io(IoFailure),
    /// The file is not a registration; the parser's message.
    Parse(String),
}

/// Why a drop-in could not be written.
#[derive(Debug, PartialEq, Eq)]
pub enum WriteFailure {
    /// The registration could not be turned to JSON; the encoder's message.
    Serialize(String),
    Io(IoFailure),
}

/// A read failure as an error about `path`.
pub open spec fn read_error(path: Seq<u8>, failure: ReadFailure) -> ErrorView {
    match failure {
        ReadFailure::Io(source) => ErrorView::Io { path, source: source@ },
        ReadFailure::Parse(source) => ErrorView::Parse { path, source: source@ },
    }
}

/// A write failure as an error about `path`.
pub open spec fn write_error(path: Seq<u8>, failure: WriteFailure) -> ErrorView {
    match failure {
        WriteFailure::Io(source) => ErrorView::Io { path, source: source@ },
        WriteFailure::Serialize(source) => ErrorView::Serialize { path, source: source@ },
    }
}

fn read_failed(path: FsPath, failure: ReadFailure) -> (r: Error)
    ensures
        r@ == read_error(path@, failure),
{
    match failure {
        ReadFailure::Io(source) => Error::Io { path, source },
        ReadFailure::Parse(source) => Error::Parse { path, source },
    }
}

fn write_failed(path: FsPath, failure: WriteFailure) -> (r: Error)
    ensures
        r@ == write_error(path@, failure),
{
    match failure {
        WriteFailure::Io(source) => Error::Io { path, source },
        WriteFailure::Serialize(source) => Error::Serialize { path, source },
    }
}

/// The client secret, given what reading the drop-in came to. A missing drop-in
/// has none.
pub fn load_secret(
    cfg: &BigFredConfig,
    read: core::result::Result<OAuthClientFile, ReadFailure>,
) -> (r: Result<Option<String>>)
    ensures
        match read {
            Ok(file) => r == Ok::<Option<String>, Error>(Some(file.client_secret)),
            Err(failure) => if failure matches ReadFailure::Io(source) && source.kind
                == IoKind::NotFound {
                r == Ok::<Option<String>, Error>(None)
            } else {
                r matches Err(e) && e@ == read_error(cfg.client_path(), failure)
            },
        },
{
    match read {
        Ok(file) => Ok(Some(file.client_secret)),
        Err(ReadFailure::Io(source)) => {
            if source.kind == IoKind::NotFound {
                Ok(None)
            } else {
                Err(read_failed(cfg.oauth_client_path(), ReadFailure::Io(source)))
            }
        },
        Err(failure) => Err(read_failed(cfg.oauth_client_path(), failure)),
    }
}

/// How far the making of a drop-in has come.
#[derive(Debug, Clone, Copy, PartialEq, Eq, Structural)]
pub enum DropinPhase {
    CreatingDir,
    HardeningDir,
    Looking,
    Reading,
    Rewriting,
    Seeding,
    HardeningFile,
    Over,
}

/// What the making of a drop-in does next.
#[derive(Debug, PartialEq, Eq)]
pub enum DropinStep {
    /// Create this directory and its parents.
    CreateDir(FsPath),
    /// Assert these permissions.
    HardenDir(Vec<Harden>),
    /// See whether this file exists.
    LookFor(FsPath),
    /// Read this file.
    Read(FsPath),
    /// Replace the contents of this file, see [`file_bytes`].
    Rewrite { path: FsPath, file: OAuthClientFile },
    /// Create this file, which must not exist, with [`FILE_MODE`].
    Seed { path: FsPath, file: OAuthClientFile },
    /// Assert these permissions; then set the modification time if `touch`.
    HardenFile { item: Harden, touch: bool },
    /// Report this.
    Done(Result<FsPath>),
}

/// Creates the drop-in when missing. An existing file keeps its secret, but the
/// configured redirect URIs are always merged in. Directory and file modes are
/// re-asserted so BigFred can read.
pub struct EnsureDropin<'a> {
    cfg: &'a BigFredConfig,
    gid: Option<u32>,
    phase: DropinPhase,
}

impl<'a> EnsureDropin<'a> {
    /// The configuration that the drop-in follows.
    pub closed spec fn cfg(&self) -> BigFredConfig {
        *self.cfg
    }

    /// The `bigfred` group, when known.
    pub closed spec fn gid(&self) -> Option<u32> {
        self.gid
    }

    /// How far this run has come.
    pub closed spec fn phase(&self) -> DropinPhase {
        self.phase
    }

    /// The same configuration and group, in another phase.
    pub open spec fn moved_to(&self, from: &Self, phase: DropinPhase) -> bool {
        &&& self.cfg() == from.cfg()
        &&& self.gid() == from.gid()
        &&& self.phase() == phase
    }

    /// Starts to make the drop-in.
    pub fn start(cfg: &'a BigFredConfig, gid: Option<u32>) -> (r: (Self, DropinStep))
        ensures
            r.0.cfg() == *cfg,
            r.0.gid() == gid,
            r.0.phase() == DropinPhase::CreatingDir,
            r.1 matches DropinStep::CreateDir(dir) && dir@ == cfg.oauth_dropin_dir@,
    {
        let run = EnsureDropin { cfg, gid, phase: DropinPhase::CreatingDir };
        (run, DropinStep::CreateDir(cfg.oauth_dropin_dir.clone()))
    }

    /// Creating the directory came to `outcome`.
    pub fn dir_created(&mut self, outcome: core::result::Result<(), IoFailure>) -> (r: DropinStep)
        requires
            old(self).phase() == DropinPhase::CreatingDir,
        ensures
            match outcome {
                Ok(_) => {
                    &&& final(self).moved_to(old(self), DropinPhase::HardeningDir)
                    &&& r matches DropinStep::HardenDir(items)
                    &&& items@.len() == (if fspath::parent_of(old(self).cfg().oauth_dropin_dir@) is Some {
                        2int
                    } else {
                        1
                    })
                    &&& items@[0].path@ == old(self).cfg().oauth_dropin_dir@
                    &&& fspath::parent_of(old(self).cfg().oauth_dropin_dir@) matches Some(parent)
                        ==> items@[1].path@ == parent
                    &&& forall|i: int|
                        0 <= i < items@.len() ==> (#[trigger] items@[i]).mode == DIR_MODE
                            && items@[i].gid == old(self).gid()
                },
                Err(source) => {
                    &&& final(self).moved_to(old(self), DropinPhase::Over)
                    &&& r matches DropinStep::Done(Err(e)) && e@ == (ErrorView::Io {
                        path: old(self).cfg().oauth_dropin_dir@,
                        source: source@,
                    })
                },
            },
    {
        match outcome {
            Ok(_) => {
                self.phase = DropinPhase::HardeningDir;
                DropinStep::HardenDir(harden_dropin_dir(&self.cfg.oauth_dropin_dir, self.gid))
            },
            Err(source) => {
                self.phase = DropinPhase::Over;
                DropinStep::Done(Err(Error::Io { path: self.cfg.oauth_dropin_dir.clone(), source }))
            },
        }
    }

    /// The directory's permissions were asserted, as far as that went.
    pub fn dir_hardened(&mut self) -> (r: DropinStep)
        requires
            old(self).phase() == DropinPhase::HardeningDir,
        ensures
            final(self).moved_to(old(self), DropinPhase::Looking),
            r matches DropinStep::LookFor(path) && path@ == old(self).cfg().client_path(),
    {
        self.phase = DropinPhase::Looking;
        DropinStep::LookFor(self.cfg.oauth_client_path())
    }

    /// It is known whether the file exists. A missing one is seeded with
    /// `secret`.
    pub fn looked_with(&mut self, present: bool, secret: String) -> (r: DropinStep)
        requires
            old(self).phase() == DropinPhase::Looking,
        ensures
            if present {
                &&& final(self).moved_to(old(self), DropinPhase::Reading)
                &&& r matches DropinStep::Read(path) && path@ == old(self).cfg().client_path()
            } else {
                &&& final(self).moved_to(old(self), DropinPhase::Seeding)
                &&& r matches DropinStep::Seed { path, file } && path@
                    == old(self).cfg().client_path() && file@ == seeded(old(self).cfg(), secret@)
            },
    {
        if present {
            self.phase = DropinPhase::Reading;
            DropinStep::Read(self.cfg.oauth_client_path())
        } else {
            self.phase = DropinPhase::Seeding;
            DropinStep::Seed {
                path: self.cfg.oauth_client_path(),
                file: seed_client_file(self.cfg, secret),
            }
        }
    }

    /// It is known whether the file exists. A missing one is seeded with a new
    /// secret.
    pub fn looked(&mut self, present: bool) -> (r: DropinStep)
        requires
            old(self).phase() == DropinPhase::Looking,
        ensures
            if present {
                &&& final(self).moved_to(old(self), DropinPhase::Reading)
                &&& r matches DropinStep::Read(path) && path@ == old(self).cfg().client_path()
            } else {
                &&& final(self).moved_to(old(self), DropinPhase::Seeding)
                &&& r matches DropinStep::Seed { path, file } && path@
                    == old(self).cfg().client_path() && secret_text(file@.client_secret) && file@
                    == seeded(old(self).cfg(), file@.client_secret)
            },
    {
        let secret = if present {
            String::new()
        } else {
            random_secret()
        };
        self.looked_with(present, secret)
    }

    /// Reading the existing file came to `read`. What it lacks of the configured
    /// redirect URIs is added; a file that lacks none is left alone.
    pub fn read(&mut self, read: core::result::Result<OAuthClientFile, ReadFailure>) -> (r:
        DropinStep)
        requires
            old(self).phase() == DropinPhase::Reading,
        ensures
            match read {
                Ok(file) => {
                    let uris = merged(
                        file@.redirect_uris,
                        text::texts(old(self).cfg().redirect_uris@),
                    );
                    if uris != file@.redirect_uris {
                        &&& final(self).moved_to(old(self), DropinPhase::Rewriting)
                        &&& r matches DropinStep::Rewrite { path, file: synced } && path@
                            == old(self).cfg().client_path() && synced@ == (OAuthClientFileView {
                            redirect_uris: uris,
                            ..file@
                        })
                    } else {
                        &&& final(self).moved_to(old(self), DropinPhase::HardeningFile)
                        &&& r matches DropinStep::HardenFile { item, touch } && !touch && item.path@
                            == old(self).cfg().client_path() && item.mode == FILE_MODE && item.gid
                            == old(self).gid()
                    }
                },
                Err(failure) => {
                    &&& final(self).moved_to(old(self), DropinPhase::Over)
                    &&& r matches DropinStep::Done(Err(e)) && e@ == read_error(
                        old(self).cfg().client_path(),
                        failure,
                    )
                },
            },
    {
        match read {
            Ok(file) => {
                let mut file = file;
                if sync_redirect_uris(&mut file, self.cfg) {
                    self.phase = DropinPhase::Rewriting;
                    DropinStep::Rewrite { path: self.cfg.oauth_client_path(), file }
                } else {
                    self.harden(false)
                }
            },
            Err(failure) => {
                self.phase = DropinPhase::Over;
                DropinStep::Done(Err(read_failed(self.cfg.oauth_client_path(), failure)))
            },
        }
    }

    fn harden(&mut self, touch: bool) -> (r: DropinStep)
        ensures
            final(self).moved_to(old(self), DropinPhase::HardeningFile),
            r matches DropinStep::HardenFile { item, touch: t } && t == touch && item.path@
                == old(self).cfg().client_path() && item.mode == FILE_MODE && item.gid
                == old(self).gid(),
    {
        self.phase = DropinPhase::HardeningFile;
        DropinStep::HardenFile {
            item: harden_dropin_file(&self.cfg.oauth_client_path(), self.gid),
            touch,
        }
    }

    /// Writing the file, new or changed, came to `outcome`. A changed one is
    /// touched so that BigFred reloads it.
    pub fn written(&mut self, outcome: core::result::Result<(), WriteFailure>) -> (r: DropinStep)
        requires
            old(self).phase() == DropinPhase::Rewriting || old(self).phase()
                == DropinPhase::Seeding,
        ensures
            match outcome {
                Ok(_) => {
                    &&& final(self).moved_to(old(self), DropinPhase::HardeningFile)
                    &&& r matches DropinStep::HardenFile { item, touch } && touch == (
                    old(self).phase() == DropinPhase::Rewriting) && item.path@
                        == old(self).cfg().client_path() && item.mode == FILE_MODE && item.gid
                        == old(self).gid()
                },
                Err(failure) => {
                    &&& final(self).moved_to(old(self), DropinPhase::Over)
                    &&& r matches DropinStep::Done(Err(e)) && e@ == write_error(
                        old(self).cfg().client_path(),
                        failure,
                    )
                },
            },
    {
        match outcome {
            Ok(_) => {
                let touch = self.phase == DropinPhase::Rewriting;
                self.harden(touch)
            },
            Err(failure) => {
                self.phase = DropinPhase::Over;
                DropinStep::Done(Err(write_failed(self.cfg.oauth_client_path(), failure)))
            },
        }
    }

    /// The file's permissions were asserted, as far as that went.
    pub fn file_hardened(&mut self) -> (r: DropinStep)
        requires
            old(self).phase() == DropinPhase::HardeningFile,
        ensures
            final(self).moved_to(old(self), DropinPhase::Over),
            r matches DropinStep::Done(Ok(path)) && path@ == old(self).cfg().client_path(),
    {
        self.phase = DropinPhase::Over;
        DropinStep::Done(Ok(self.cfg.oauth_client_path()))
    }
}

/// The body of the token request, in camel case on the wire.
#[derive(Debug, PartialEq, Eq)]
pub struct TokenRequest {
    pub grant_type: String,
    pub code: String,
    pub client_id: String,
    pub client_secret: String,
    pub redirect_uri: String,
}

/// What a token exchange does next.
#[derive(Debug, PartialEq, Eq)]
pub enum TokenStep {
    /// Make the drop-in, then load the secret again.
    Ensure,
    /// Post this.
    Post { url: String, request: TokenRequest },
    /// Report this.
    Fail(Error),
}

/// Whether `step` posts the exchange of `code` under `secret`.
pub open spec fn posts(
    step: TokenStep,
    cfg: BigFredConfig,
    code: Seq<char>,
    redirect_uri: Seq<char>,
    secret: Seq<char>,
) -> bool {
    &&& step matches TokenStep::Post { url, request }
    &&& url@ == cfg.api_base@ + "/api/v1/auth/oauth/token"@
    &&& request.grant_type@ == "authorization_code"@
    &&& request.code@ == code
    &&& request.client_id@ == cfg.sso_client_id@
    &&& request.client_secret@ == secret
    &&& request.redirect_uri@ == redirect_uri
}

fn post_token(cfg: &BigFredConfig, code: &str, redirect_uri: &str, secret: String) -> (r: TokenStep)
    ensures
        posts(r, *cfg, code@, redirect_uri@, secret@),
{
    TokenStep::Post {
        url: cfg.api_base.clone().concat("/api/v1/auth/oauth/token"),
        request: TokenRequest {
            grant_type: "authorization_code".to_owned(),
            code: code.to_owned(),
            client_id: cfg.sso_client_id.clone(),
            client_secret: secret,
            redirect_uri: redirect_uri.to_owned(),
        },
    }
}

/// The secret was looked for. Without one, missing or unreadable, the drop-in is
/// made first.
pub fn after_load(
    cfg: &BigFredConfig,
    code: &str,
    redirect_uri: &str,
    loaded: Result<Option<String>>,
) -> (r: TokenStep)
    ensures
        match loaded {
            Ok(Some(secret)) => posts(r, *cfg, code@, redirect_uri@, secret@),
            _ => r == TokenStep::Ensure,
        },
{
    match loaded {
        Ok(Some(secret)) => post_token(cfg, code, redirect_uri, secret),
        _ => TokenStep::Ensure,
    }
}

/// The drop-in was made and the secret looked for again.
pub fn after_ensure(
    cfg: &BigFredConfig,
    code: &str,
    redirect_uri: &str,
    ensured: Result<()>,
    loaded: Result<Option<String>>,
) -> (r: TokenStep)
    ensures
        match (ensured, loaded) {
            (Err(err), _) => r matches TokenStep::Fail(e) && e@
                == ErrorView::OauthClientEnsureFailed(error::error_message(err@)),
            (Ok(_), Err(err)) => r matches TokenStep::Fail(e) && e@
                == ErrorView::OauthClientUnreadable(error::error_message(err@)),
            (Ok(_), Ok(None)) => r matches TokenStep::Fail(e) && e@
                == ErrorView::OauthClientMissing,
            (Ok(_), Ok(Some(secret))) => posts(r, *cfg, code@, redirect_uri@, secret@),
        },
{
    match ensured {
        Err(err) => TokenStep::Fail(Error::OauthClientEnsureFailed(err.message())),
        Ok(_) => match loaded {
            Err(err) => TokenStep::Fail(Error::OauthClientUnreadable(err.message())),
            Ok(None) => TokenStep::Fail(Error::OauthClientMissing),
            Ok(Some(secret)) => post_token(cfg, code, redirect_uri, secret),
        },
    }
}

/// What the token request came to.
#[derive(Debug, PartialEq, Eq)]
pub enum TokenReply {
    /// No answer; the transport's message.
    Unreachable(String),
    /// An answer. `token` is the body read as a token, or why it could not be.
    Answered {
        status: u16,
        body: Vec<u8>,
        token: core::result::Result<TokenResponse, String>,
    },
}

/// The error of a refused exchange, given the `error` member of the reply.
pub open spec fn refused_exchange_view(status: u16, error: Option<Seq<char>>) -> ErrorView {
    ErrorView::BadStatus {
        status,
        code: match error {
            Some(code) => code,
            None => "oauth_exchange_failed"@,
        },
        detail: None,
    }
}

/// Makes the error of a refused exchange.
pub fn refused_exchange(status: u16, error: Option<String>) -> (r: Error)
    ensures
        r@ == refused_exchange_view(status, text::opt_text(error)),
{
    let code = match error {
        Some(code) => code,
        None => "oauth_exchange_failed".to_owned(),
    };
    Error::BadStatus { status, code, detail: None }
}

/// Turns the token reply into a token.
pub fn exchange_token(reply: TokenReply) -> (r: Result<TokenResponse>)
    ensures
        match reply {
            TokenReply::Unreachable(text) => r matches Err(e) && e@ == ErrorView::OauthUnreachable(
                text@,
            ),
            TokenReply::Answered { status, body, token } => if !http::success_status(status) {
                r matches Err(e) && e@ == refused_exchange_view(
                    status,
                    json::readable_member(body@, "error"@),
                )
            } else {
                match token {
                    Ok(token) => r == Ok::<TokenResponse, Error>(token),
                    Err(text) => r matches Err(e) && e@ == ErrorView::OauthBadResponse(text@),
                }
            },
        },
{
    match reply {
        TokenReply::Unreachable(text) => Err(Error::OauthUnreachable(text)),
        TokenReply::Answered { status, body, token } => {
            if !is_success(status) {
                let error = text_member(body.as_slice(), "error");
                Err(refused_exchange(status, error))
            } else {
                match token {
                    Ok(token) => Ok(token),
                    Err(text) => Err(Error::OauthBadResponse(text)),
                }
            }
        },
    }
}

/// A seeded drop-in is the registration that the token request later names: the
/// same client id and the same secret.
pub proof fn lemma_seeded_drop_in_is_what_is_exchanged(
    cfg: BigFredConfig,
    secret: Seq<char>,
    step: TokenStep,
    code: Seq<char>,
    redirect_uri: Seq<char>,
)
    requires
        posts(step, cfg, code, redirect_uri, secret),
    ensures
        step matches TokenStep::Post { request, .. } && {
            &&& request.client_id@ == seeded(cfg, secret).client_id
            &&& request.client_secret@ == seeded(cfg, secret).client_secret
        },
{
}

/// What a seeded drop-in says, member by member, and that its file is named after
/// the client id that it holds.
pub proof fn lemma_seeded_drop_in_follows_config(cfg: BigFredConfig, secret: Seq<char>)
    ensures
        ({
            let file = seeded(cfg, secret);
            &&& file.client_id == cfg.sso_client_id@
            &&& file.client_secret == secret
            &&& file.display_name == cfg.oauth_display_name@
            &&& file.redirect_uris.len() == cfg.redirect_uris@.len()
            &&& forall|i: int|
                0 <= i < cfg.redirect_uris@.len() ==> file.redirect_uris[i]
                    == #[trigger] cfg.redirect_uris@[i]@
            &&& !file.cors_enabled
            &&& file.cors_origins.len() == 0
            &&& file.enabled
            &&& !file.share_session
            &&& cfg.client_path() == fspath::joined(
                cfg.oauth_dropin_dir@,
                encode_utf8(file.client_id + ".json"@),
            )
        }),
{
    text::lemma_texts(cfg.redirect_uris@);
}

/// Two configurations that differ in nothing but the shown name seed drop-ins
/// that differ in nothing but the shown name, under the same path; likewise the
/// client id shows in the client id and the path only.
pub proof fn lemma_seeded_members_are_independent(
    cfg: BigFredConfig,
    shown: String,
    id: String,
    secret: Seq<char>,
)
    ensures
        seeded(BigFredConfig { oauth_display_name: shown, ..cfg }, secret) == (
        OAuthClientFileView { display_name: shown@, ..seeded(cfg, secret) }),
        (BigFredConfig { oauth_display_name: shown, ..cfg }).client_path() == cfg.client_path(),
        seeded(BigFredConfig { sso_client_id: id, ..cfg }, secret) == (OAuthClientFileView {
            client_id: id@,
            ..seeded(cfg, secret)
        }),
{
}

/// A token request says what it was given: the code and redirect URI of the
/// caller, the configured client and its secret, posted to the configured API.
pub proof fn lemma_token_request_says_what_was_given(
    step: TokenStep,
    cfg: BigFredConfig,
    code: Seq<char>,
    redirect_uri: Seq<char>,
    secret: Seq<char>,
)
    requires
        posts(step, cfg, code, redirect_uri, secret),
    ensures
        step matches TokenStep::Post { url, request } && {
            &&& url@ == cfg.api_base@ + "/api/v1/auth/oauth/token"@
            &&& request.grant_type@ == "authorization_code"@
            &&& request.code@ == code
            &&& request.redirect_uri@ == redirect_uri
            &&& request.client_id@ == cfg.sso_client_id@
            &&& request.client_secret@ == secret
        },
{
}

/// A secret spells its bytes: two secrets are the same only if their bytes are.
pub proof fn lemma_secrets_tell_bytes_apart(a: Seq<u8>, b: Seq<u8>)
    requires
        a.len() == SECRET_BYTES,
        b.len() == SECRET_BYTES,
        text::hex_text(a) == text::hex_text(b),
    ensures
        a == b,
        text::hex_text(a).len() == 64,
{
    text::lemma_hex_text_tells_bytes_apart(a, b);
    text::lemma_hex_text_shape(a);
}

/// Whether a list has a URI is a matter of the texts without the white space
/// around them.
pub proof fn lemma_has_uri(uris: Seq<Seq<char>>, uri: Seq<char>, k: int)
    ensures
        0 <= k < uris.len() && text::trimmed(uris[k]) == text::trimmed(uri) ==> has_uri(uris, uri),
        (forall|i: int|
            0 <= i < uris.len() ==> text::trimmed(#[trigger] uris[i]) != text::trimmed(uri))
            ==> !has_uri(uris, uri),
{
}

/// Merging adds nothing twice and nothing blank: what is added differs from every
/// URI before it, white space aside, and has no white space around it.
pub proof fn lemma_merge_adds_nothing_twice(
    uris: Seq<Seq<char>>,
    configured: Seq<Seq<char>>,
    i: int,
    j: int,
)
    requires
        uris.len() <= i < merged(uris, configured).len(),
        0 <= j < i,
    ensures
        merged(uris, configured)[i].len() > 0,
        text::trimmed(merged(uris, configured)[i]) == merged(uris, configured)[i],
        text::trimmed(merged(uris, configured)[j]) != merged(uris, configured)[i],
    decreases configured.len(),
{
    if configured.len() > 0 {
        let before = merged(uris, configured.drop_last());
        let last = configured.last();
        text::lemma_trimmed_idempotent(last);
        if i < before.len() {
            lemma_merge_adds_nothing_twice(uris, configured.drop_last(), i, j);
        } else {
            assert(merged(uris, configured)[j] == before[j]);
        }
    }
}

/// URIs are added in the order in which they are configured: merging more of them
/// goes on where merging fewer left off.
pub proof fn lemma_merge_goes_on(
    uris: Seq<Seq<char>>,
    first: Seq<Seq<char>>,
    more: Seq<Seq<char>>,
)
    ensures
        merged(uris, first + more) == merged(merged(uris, first), more),
        merged(uris, Seq::<Seq<char>>::empty()) == uris,
    decreases more.len(),
{
    if more.len() == 0 {
        assert(first + more =~= first);
    } else {
        lemma_merge_goes_on(uris, first, more.drop_last());
        assert((first + more).drop_last() =~= first + more.drop_last());
    }
}

/// Failing to read or write a drop-in names the path and carries the cause.
pub proof fn lemma_dropin_failures_name_their_path(
    path: Seq<u8>,
    source: IoFailure,
    message: String,
)
    ensures
        read_error(path, ReadFailure::Io(source)) == (ErrorView::Io { path, source: source@ }),
        read_error(path, ReadFailure::Parse(message)) == (ErrorView::Parse {
            path,
            source: message@,
        }),
        write_error(path, WriteFailure::Io(source)) == read_error(path, ReadFailure::Io(source)),
        write_error(path, WriteFailure::Serialize(message)) == (ErrorView::Serialize {
            path,
            source: message@,
        }),
        error::error_code(read_error(path, ReadFailure::Parse(message))) == error::error_code(
            write_error(path, WriteFailure::Serialize(message)),
        ),
{
}

/// Going from phase to phase keeps the configuration and the group.
pub proof fn lemma_phases_keep_config(run: EnsureDropin, from: EnsureDropin, phase: DropinPhase)
    requires
        run.moved_to(&from, phase),
    ensures
        run.cfg() == from.cfg(),
        run.gid() == from.gid(),
        run.phase() == phase,
{
}

/// A refused exchange keeps its status, whatever that is, and is told by the code
/// that the reply names, or by the same one for every reply that names none.
pub proof fn lemma_refused_exchange_keeps_status(status: u16, other: u16, code: Seq<char>)
    ensures
        error::error_code(refused_exchange_view(status, Some(code))) == code,
        error::error_code(refused_exchange_view(status, None)) == error::error_code(
            refused_exchange_view(other, None),
        ),
        error::error_code(refused_exchange_view(status, None)) == "oauth_exchange_failed"@,
        refused_exchange_view(status, Some(code)) matches ErrorView::BadStatus {
            status: s,
            detail,
            ..
        } && s == status && detail is None,
        refused_exchange_view(status, None) matches ErrorView::BadStatus { status: s, detail, .. }
            && s == status && detail is None,
{
}

} // verus!
