use bigfred_commons::client::Error;
use bigfred_commons::config::ConfigError;
use bigfred_commons::fspath::FsPath;
use bigfred_commons::io::IoFailure;
use bigfred_commons::io::IoKind;

fn text() -> String {
    "why".to_string()
}

fn failure() -> IoFailure {
    IoFailure {
        kind: IoKind::Other,
        text: text(),
    }
}

#[test]
fn client_errors_have_codes_and_messages() {
    let cases = vec![
        (Error::OauthUnreachable(text()), "bigfred_unreachable", "oauth unreachable: why"),
        (Error::ProxyUnreachable(text()), "bigfred_unreachable", "proxy unreachable: why"),
        (Error::ProxyReadFailed(text()), "bigfred_read_failed", "proxy read failed: why"),
        (Error::DccBusUnreachable(text()), "dcc_bus_unavailable", "dcc-bus unreachable: why"),
        (Error::Unauthorized, "unauthorized", "unauthorized"),
        (Error::ProgrammingTimeout, "programming_timeout", "programming timeout"),
        (Error::FunctionOffTimeout, "function_off_timeout", "function off timeout"),
        (
            Error::BadStatus { status: 404, code: "gone".to_string(), detail: None },
            "gone",
            "gone",
        ),
        (Error::OauthBadResponse(text()), "oauth_bad_response", "oauth bad response: why"),
        (
            Error::CatalogueUnavailable(text()),
            "catalogue_unavailable",
            "catalogue unavailable: why",
        ),
        (
            Error::CatalogueBadResponse(text()),
            "catalogue_bad_response",
            "catalogue bad response: why",
        ),
        (
            Error::OauthClientEnsureFailed(text()),
            "oauth_client_ensure_failed",
            "oauth client ensure failed: why",
        ),
        (
            Error::OauthClientUnreadable(text()),
            "oauth_client_unreadable",
            "oauth client unreadable: why",
        ),
        (Error::OauthClientMissing, "oauth_client_missing", "oauth client missing"),
        (Error::NoProgrammingStation, "no_programming_station", "no programming station"),
        (Error::DccBusSessionLost, "dcc_bus_session_lost", "dcc-bus session lost"),
        (
            Error::DccBusDriveSessionLost,
            "dcc_bus_drive_session_lost",
            "dcc-bus drive session lost",
        ),
        (Error::DccBusPendingPoisoned, "dcc_bus_pending_poisoned", "dcc-bus pending poisoned"),
        (Error::DccBusBadUrl(text()), "dcc_bus_bad_url", "dcc-bus bad url: why"),
        (Error::FrameEncodeFailed(text()), "frame_encode_failed", "frame encode failed: why"),
        (Error::ImpersonateRequired, "impersonate_required", "impersonate required"),
        (
            Error::InvalidImpersonateLogin,
            "invalid_impersonate_login",
            "invalid impersonate login",
        ),
        (
            Error::Io { path: FsPath::new("/a"), source: failure() },
            "oauth_client_unreadable",
            "io /a: why",
        ),
        (
            Error::Parse { path: FsPath::new("/a"), source: text() },
            "oauth_client_unreadable",
            "parse /a: why",
        ),
        (
            Error::Serialize { path: FsPath::from_bytes(b"/\xff"), source: text() },
            "oauth_client_unreadable",
            "serialize /\u{fffd}: why",
        ),
    ];
    for (error, code, message) in cases {
        assert_eq!(error.code(), code);
        assert_eq!(error.message(), message);
        assert_eq!(
            error.is_dcc_bus_unavailable(),
            code == "dcc_bus_unavailable"
        );
    }
}

#[test]
fn config_errors_have_messages() {
    let at = ConfigError::io_at(&FsPath::new("/etc/x.json"), failure());
    assert_eq!(at.message(), "I/O error on /etc/x.json: why");
    assert_eq!(ConfigError::Json(text()).message(), "JSON error: why");
    assert_eq!(ConfigError::Other(text()).message(), "why");
}
