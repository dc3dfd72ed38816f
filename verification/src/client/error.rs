//! Typed errors with stable string codes the host maps onto HTTP.

use crate::fspath::FsPath;
use crate::io::IoFailure;
use crate::io::IoFailureView;
use crate::text;
use vstd::prelude::*;
use vstd::string::*;

verus! {

/// Failures talking to BigFred or maintaining the OAuth drop-in.
#[derive(Debug, PartialEq, Eq)]
#[allow(inconsistent_fields)]
pub enum Error {
    OauthUnreachable(String),
    ProxyUnreachable(String),
    ProxyReadFailed(String),
    DccBusUnreachable(String),
    Unauthorized,
    ProgrammingTimeout,
    FunctionOffTimeout,
    BadStatus { status: u16, code: String, detail: Option<String> },
    OauthBadResponse(String),
    CatalogueUnavailable(String),
    CatalogueBadResponse(String),
    OauthClientEnsureFailed(String),
    OauthClientUnreadable(String),
    OauthClientMissing,
    NoProgrammingStation,
    DccBusSessionLost,
    DccBusDriveSessionLost,
    DccBusPendingPoisoned,
    DccBusBadUrl(String),
    FrameEncodeFailed(String),
    ImpersonateRequired,
    InvalidImpersonateLogin,
    Io { path: FsPath, source: IoFailure },
    Parse { path: FsPath, source: String },
    Serialize { path: FsPath, source: String },
}

/// What an [`Error`] says.
#[allow(inconsistent_fields)]
pub enum ErrorView {
    OauthUnreachable(Seq<char>),
    ProxyUnreachable(Seq<char>),
    ProxyReadFailed(Seq<char>),
    DccBusUnreachable(Seq<char>),
    Unauthorized,
    ProgrammingTimeout,
    FunctionOffTimeout,
    BadStatus { status: u16, code: Seq<char>, detail: Option<Seq<char>> },
    OauthBadResponse(Seq<char>),
    CatalogueUnavailable(Seq<char>),
    CatalogueBadResponse(Seq<char>),
    OauthClientEnsureFailed(Seq<char>),
    OauthClientUnreadable(Seq<char>),
    OauthClientMissing,
    NoProgrammingStation,
    DccBusSessionLost,
    DccBusDriveSessionLost,
    DccBusPendingPoisoned,
    DccBusBadUrl(Seq<char>),
    FrameEncodeFailed(Seq<char>),
    ImpersonateRequired,
    InvalidImpersonateLogin,
    Io { path: Seq<u8>, source: IoFailureView },
    Parse { path: Seq<u8>, source: Seq<char> },
    Serialize { path: Seq<u8>, source: Seq<char> },
}

impl View for Error {
    type V = ErrorView;

    open spec fn view(&self) -> ErrorView {
        match self {
            Error::OauthUnreachable(t) => ErrorView::OauthUnreachable(t@),
            Error::ProxyUnreachable(t) => ErrorView::ProxyUnreachable(t@),
            Error::ProxyReadFailed(t) => ErrorView::ProxyReadFailed(t@),
            Error::DccBusUnreachable(t) => ErrorView::DccBusUnreachable(t@),
            Error::Unauthorized => ErrorView::Unauthorized,
            Error::ProgrammingTimeout => ErrorView::ProgrammingTimeout,
            Error::FunctionOffTimeout => ErrorView::FunctionOffTimeout,
            Error::BadStatus { status, code, detail } => ErrorView::BadStatus {
                status: *status,
                code: code@,
                detail: text::opt_text(*detail),
            },
            Error::OauthBadResponse(t) => ErrorView::OauthBadResponse(t@),
            Error::CatalogueUnavailable(t) => ErrorView::CatalogueUnavailable(t@),
            Error::CatalogueBadResponse(t) => ErrorView::CatalogueBadResponse(t@),
            Error::OauthClientEnsureFailed(t) => ErrorView::OauthClientEnsureFailed(t@),
            Error::OauthClientUnreadable(t) => ErrorView::OauthClientUnreadable(t@),
            Error::OauthClientMissing => ErrorView::OauthClientMissing,
            Error::NoProgrammingStation => ErrorView::NoProgrammingStation,
            Error::DccBusSessionLost => ErrorView::DccBusSessionLost,
            Error::DccBusDriveSessionLost => ErrorView::DccBusDriveSessionLost,
            Error::DccBusPendingPoisoned => ErrorView::DccBusPendingPoisoned,
            Error::DccBusBadUrl(t) => ErrorView::DccBusBadUrl(t@),
            Error::FrameEncodeFailed(t) => ErrorView::FrameEncodeFailed(t@),
            Error::ImpersonateRequired => ErrorView::ImpersonateRequired,
            Error::InvalidImpersonateLogin => ErrorView::InvalidImpersonateLogin,
            Error::Io { path, source } => ErrorView::Io { path: path@, source: source@ },
            Error::Parse { path, source } => ErrorView::Parse { path: path@, source: source@ },
            Error::Serialize { path, source } => ErrorView::Serialize {
                path: path@,
                source: source@,
            },
        }
    }
}

/// A result of this crate's client.
pub type Result<T> = core::result::Result<T, Error>;

/// The stable machine code of an error.
pub open spec fn error_code(e: ErrorView) -> Seq<char> {
    match e {
        ErrorView::OauthUnreachable(_) | ErrorView::ProxyUnreachable(_) => "bigfred_unreachable"@,
        ErrorView::ProxyReadFailed(_) => "bigfred_read_failed"@,
        ErrorView::DccBusUnreachable(_) => "dcc_bus_unavailable"@,
        ErrorView::Unauthorized => "unauthorized"@,
        ErrorView::ProgrammingTimeout => "programming_timeout"@,
        ErrorView::FunctionOffTimeout => "function_off_timeout"@,
        ErrorView::BadStatus { code, .. } => code,
        ErrorView::OauthBadResponse(_) => "oauth_bad_response"@,
        ErrorView::CatalogueUnavailable(_) => "catalogue_unavailable"@,
        ErrorView::CatalogueBadResponse(_) => "catalogue_bad_response"@,
        ErrorView::OauthClientEnsureFailed(_) => "oauth_client_ensure_failed"@,
        ErrorView::OauthClientUnreadable(_) => "oauth_client_unreadable"@,
        ErrorView::OauthClientMissing => "oauth_client_missing"@,
        ErrorView::NoProgrammingStation => "no_programming_station"@,
        ErrorView::DccBusSessionLost => "dcc_bus_session_lost"@,
        ErrorView::DccBusDriveSessionLost => "dcc_bus_drive_session_lost"@,
        ErrorView::DccBusPendingPoisoned => "dcc_bus_pending_poisoned"@,
        ErrorView::DccBusBadUrl(_) => "dcc_bus_bad_url"@,
        ErrorView::FrameEncodeFailed(_) => "frame_encode_failed"@,
        ErrorView::ImpersonateRequired => "impersonate_required"@,
        ErrorView::InvalidImpersonateLogin => "invalid_impersonate_login"@,
        ErrorView::Io { .. } | ErrorView::Parse { .. } | ErrorView::Serialize { .. } =>
        "oauth_client_unreadable"@,
    }
}

/// The message of an error, as shown to people and logs.
pub open spec fn error_message(e: ErrorView) -> Seq<char> {
    match e {
        ErrorView::OauthUnreachable(t) => "oauth unreachable: "@ + t,
        ErrorView::ProxyUnreachable(t) => "proxy unreachable: "@ + t,
        ErrorView::ProxyReadFailed(t) => "proxy read failed: "@ + t,
        ErrorView::DccBusUnreachable(t) => "dcc-bus unreachable: "@ + t,
        ErrorView::Unauthorized => "unauthorized"@,
        ErrorView::ProgrammingTimeout => "programming timeout"@,
        ErrorView::FunctionOffTimeout => "function off timeout"@,
        ErrorView::BadStatus { code, .. } => code,
        ErrorView::OauthBadResponse(t) => "oauth bad response: "@ + t,
        ErrorView::CatalogueUnavailable(t) => "catalogue unavailable: "@ + t,
        ErrorView::CatalogueBadResponse(t) => "catalogue bad response: "@ + t,
        ErrorView::OauthClientEnsureFailed(t) => "oauth client ensure failed: "@ + t,
        ErrorView::OauthClientUnreadable(t) => "oauth client unreadable: "@ + t,
        ErrorView::OauthClientMissing => "oauth client missing"@,
        ErrorView::NoProgrammingStation => "no programming station"@,
        ErrorView::DccBusSessionLost => "dcc-bus session lost"@,
        ErrorView::DccBusDriveSessionLost => "dcc-bus drive session lost"@,
        ErrorView::DccBusPendingPoisoned => "dcc-bus pending poisoned"@,
        ErrorView::DccBusBadUrl(t) => "dcc-bus bad url: "@ + t,
        ErrorView::FrameEncodeFailed(t) => "frame encode failed: "@ + t,
        ErrorView::ImpersonateRequired => "impersonate required"@,
        ErrorView::InvalidImpersonateLogin => "invalid impersonate login"@,
        ErrorView::Io { path, source } => "io "@ + text::lossy_text(path) + ": "@ + source.text,
        ErrorView::Parse { path, source } => "parse "@ + text::lossy_text(path) + ": "@ + source,
        ErrorView::Serialize { path, source } => "serialize "@ + text::lossy_text(path) + ": "@ + source,
    }
}

fn labelled(label: &str, text: &String) -> (r: String)
    ensures
        r@ == label@ + text@,
{
    label.to_owned().concat(text.as_str())
}

fn labelled_path(label: &str, path: &FsPath, text: &String) -> (r: String)
    ensures
        r@ == label@ + text::lossy_text(path@) + ": "@ + text@,
{
    label.to_owned().concat(path.display().as_str()).concat(": ").concat(text.as_str())
}

impl Error {
    /// Stable machine code used by the host HTTP envelope and status logs.
    pub fn code(&self) -> (r: String)
        ensures
            r@ == error_code(self@),
    {
        match self {
            Error::OauthUnreachable(_) | Error::ProxyUnreachable(_) => {
                "bigfred_unreachable".to_owned()
            },
            Error::ProxyReadFailed(_) => "bigfred_read_failed".to_owned(),
            Error::DccBusUnreachable(_) => "dcc_bus_unavailable".to_owned(),
            Error::Unauthorized => "unauthorized".to_owned(),
            Error::ProgrammingTimeout => "programming_timeout".to_owned(),
            Error::FunctionOffTimeout => "function_off_timeout".to_owned(),
            Error::BadStatus { code, .. } => code.clone(),
            Error::OauthBadResponse(_) => "oauth_bad_response".to_owned(),
            Error::CatalogueUnavailable(_) => "catalogue_unavailable".to_owned(),
            Error::CatalogueBadResponse(_) => "catalogue_bad_response".to_owned(),
            Error::OauthClientEnsureFailed(_) => "oauth_client_ensure_failed".to_owned(),
            Error::OauthClientUnreadable(_) => "oauth_client_unreadable".to_owned(),
            Error::OauthClientMissing => "oauth_client_missing".to_owned(),
            Error::NoProgrammingStation => "no_programming_station".to_owned(),
            Error::DccBusSessionLost => "dcc_bus_session_lost".to_owned(),
            Error::DccBusDriveSessionLost => "dcc_bus_drive_session_lost".to_owned(),
            Error::DccBusPendingPoisoned => "dcc_bus_pending_poisoned".to_owned(),
            Error::DccBusBadUrl(_) => "dcc_bus_bad_url".to_owned(),
            Error::FrameEncodeFailed(_) => "frame_encode_failed".to_owned(),
            Error::ImpersonateRequired => "impersonate_required".to_owned(),
            Error::InvalidImpersonateLogin => "invalid_impersonate_login".to_owned(),
            Error::Io { .. } | Error::Parse { .. } | Error::Serialize { .. } => {
                "oauth_client_unreadable".to_owned()
            },
        }
    }

    /// The message of the error.
    pub fn message(&self) -> (r: String)
        ensures
            r@ == error_message(self@),
    {
        match self {
            Error::OauthUnreachable(t) => labelled("oauth unreachable: ", t),
            Error::ProxyUnreachable(t) => labelled("proxy unreachable: ", t),
            Error::ProxyReadFailed(t) => labelled("proxy read failed: ", t),
            Error::DccBusUnreachable(t) => labelled("dcc-bus unreachable: ", t),
            Error::Unauthorized => "unauthorized".to_owned(),
            Error::ProgrammingTimeout => "programming timeout".to_owned(),
            Error::FunctionOffTimeout => "function off timeout".to_owned(),
            Error::BadStatus { code, .. } => code.clone(),
            Error::OauthBadResponse(t) => labelled("oauth bad response: ", t),
            Error::CatalogueUnavailable(t) => labelled("catalogue unavailable: ", t),
            Error::CatalogueBadResponse(t) => labelled("catalogue bad response: ", t),
            Error::OauthClientEnsureFailed(t) => labelled("oauth client ensure failed: ", t),
            Error::OauthClientUnreadable(t) => labelled("oauth client unreadable: ", t),
            Error::OauthClientMissing => "oauth client missing".to_owned(),
            Error::NoProgrammingStation => "no programming station".to_owned(),
            Error::DccBusSessionLost => "dcc-bus session lost".to_owned(),
            Error::DccBusDriveSessionLost => "dcc-bus drive session lost".to_owned(),
            Error::DccBusPendingPoisoned => "dcc-bus pending poisoned".to_owned(),
            Error::DccBusBadUrl(t) => labelled("dcc-bus bad url: ", t),
            Error::FrameEncodeFailed(t) => labelled("frame encode failed: ", t),
            Error::ImpersonateRequired => "impersonate required".to_owned(),
            Error::InvalidImpersonateLogin => "invalid impersonate login".to_owned(),
            Error::Io { path, source } => labelled_path("io ", path, &source.text),
            Error::Parse { path, source } => labelled_path("parse ", path, source),
            Error::Serialize { path, source } => labelled_path("serialize ", path, source),
        }
    }

    /// Whether the dcc-bus socket is what failed.
    pub fn is_dcc_bus_unavailable(&self) -> (r: bool)
        ensures
            r == (self@ is DccBusUnreachable),
    {
        matches!(self, Error::DccBusUnreachable(_))
    }
}

/// The code of an error depends on its kind alone, not on the text, path or cause
/// that it carries; only a status has the code that it was given.
pub proof fn lemma_code_depends_on_kind(
    a: Seq<char>,
    b: Seq<char>,
    p: Seq<u8>,
    q: Seq<u8>,
    f: IoFailureView,
    g: IoFailureView,
    status: u16,
    detail: Option<Seq<char>>,
)
    ensures
        error_code(ErrorView::OauthUnreachable(a)) == error_code(ErrorView::OauthUnreachable(b)),
        error_code(ErrorView::ProxyUnreachable(a)) == error_code(ErrorView::OauthUnreachable(b)),
        error_code(ErrorView::ProxyReadFailed(a)) == error_code(ErrorView::ProxyReadFailed(b)),
        error_code(ErrorView::DccBusUnreachable(a)) == error_code(ErrorView::DccBusUnreachable(b)),
        error_code(ErrorView::OauthBadResponse(a)) == error_code(ErrorView::OauthBadResponse(b)),
        error_code(ErrorView::CatalogueUnavailable(a)) == error_code(
            ErrorView::CatalogueUnavailable(b),
        ),
        error_code(ErrorView::CatalogueBadResponse(a)) == error_code(
            ErrorView::CatalogueBadResponse(b),
        ),
        error_code(ErrorView::OauthClientEnsureFailed(a)) == error_code(
            ErrorView::OauthClientEnsureFailed(b),
        ),
        error_code(ErrorView::OauthClientUnreadable(a)) == error_code(
            ErrorView::OauthClientUnreadable(b),
        ),
        error_code(ErrorView::DccBusBadUrl(a)) == error_code(ErrorView::DccBusBadUrl(b)),
        error_code(ErrorView::FrameEncodeFailed(a)) == error_code(ErrorView::FrameEncodeFailed(b)),
        error_code(ErrorView::Io { path: p, source: f }) == error_code(
            ErrorView::Io { path: q, source: g },
        ),
        error_code(ErrorView::Io { path: p, source: f }) == error_code(
            ErrorView::OauthClientUnreadable(a),
        ),
        error_code(ErrorView::Parse { path: p, source: a }) == error_code(
            ErrorView::OauthClientUnreadable(b),
        ),
        error_code(ErrorView::Serialize { path: p, source: a }) == error_code(
            ErrorView::OauthClientUnreadable(b),
        ),
        error_code(ErrorView::BadStatus { status, code: a, detail }) == a,
{
}

/// The code that tells of a dead dcc-bus socket is told by no other kind of
/// error, save a status that was given it.
pub proof fn lemma_only_dead_socket_is_unavailable(e: ErrorView)
    requires
        error_code(e) == "dcc_bus_unavailable"@,
        !(e is BadStatus),
    ensures
        e is DccBusUnreachable,
{
    reveal_strlit("dcc_bus_unavailable");
    reveal_strlit("bigfred_unreachable");
    reveal_strlit("bigfred_read_failed");
    reveal_strlit("unauthorized");
    reveal_strlit("programming_timeout");
    reveal_strlit("function_off_timeout");
    reveal_strlit("oauth_bad_response");
    reveal_strlit("catalogue_unavailable");
    reveal_strlit("catalogue_bad_response");
    reveal_strlit("oauth_client_ensure_failed");
    reveal_strlit("oauth_client_unreadable");
    reveal_strlit("oauth_client_missing");
    reveal_strlit("no_programming_station");
    reveal_strlit("dcc_bus_session_lost");
    reveal_strlit("dcc_bus_drive_session_lost");
    reveal_strlit("dcc_bus_pending_poisoned");
    reveal_strlit("dcc_bus_bad_url");
    reveal_strlit("frame_encode_failed");
    reveal_strlit("impersonate_required");
    reveal_strlit("invalid_impersonate_login");
    let code = error_code(e);
    assert(code.len() == 19 && code[0] == 'd' && code[8] == 'u');
}

/// Messages end with what the error carries, word for word; those about a path
/// name it before that.
pub proof fn lemma_messages_carry_text(
    t: Seq<char>,
    path: Seq<u8>,
    source: IoFailureView,
    status: u16,
    detail: Option<Seq<char>>,
)
    ensures
        error_message(ErrorView::OauthUnreachable(t)) == "oauth unreachable: "@ + t,
        error_message(ErrorView::ProxyUnreachable(t)) == "proxy unreachable: "@ + t,
        error_message(ErrorView::ProxyReadFailed(t)) == "proxy read failed: "@ + t,
        error_message(ErrorView::DccBusUnreachable(t)) == "dcc-bus unreachable: "@ + t,
        error_message(ErrorView::OauthBadResponse(t)) == "oauth bad response: "@ + t,
        error_message(ErrorView::CatalogueUnavailable(t)) == "catalogue unavailable: "@ + t,
        error_message(ErrorView::CatalogueBadResponse(t)) == "catalogue bad response: "@ + t,
        error_message(ErrorView::OauthClientEnsureFailed(t)) == "oauth client ensure failed: "@ + t,
        error_message(ErrorView::OauthClientUnreadable(t)) == "oauth client unreadable: "@ + t,
        error_message(ErrorView::DccBusBadUrl(t)) == "dcc-bus bad url: "@ + t,
        error_message(ErrorView::FrameEncodeFailed(t)) == "frame encode failed: "@ + t,
        error_message(ErrorView::BadStatus { status, code: t, detail }) == t,
        error_message(ErrorView::BadStatus { status, code: t, detail }) == error_code(
            ErrorView::BadStatus { status, code: t, detail },
        ),
        error_message(ErrorView::Io { path, source }) == "io "@ + text::lossy_text(path) + ": "@
            + source.text,
        error_message(ErrorView::Parse { path, source: t }) == "parse "@ + text::lossy_text(path)
            + ": "@ + t,
        error_message(ErrorView::Serialize { path, source: t }) == "serialize "@
            + text::lossy_text(path) + ": "@ + t,
{
}

} // verus!
