use bigfred_commons::client::config::BigFredConfig;
use bigfred_commons::client::groupfile::bigfred_gid;
use bigfred_commons::client::groupfile::parse_number;
use bigfred_commons::client::oauth::after_ensure;
use bigfred_commons::client::oauth::after_load;
use bigfred_commons::client::oauth::exchange_token;
use bigfred_commons::client::oauth::file_bytes;
use bigfred_commons::client::oauth::harden_dropin_dir;
use bigfred_commons::client::oauth::load_secret;
use bigfred_commons::client::oauth::random_secret;
use bigfred_commons::client::oauth::refused_exchange;
use bigfred_commons::client::oauth::secret_from;
use bigfred_commons::client::oauth::sync_redirect_uris;
use bigfred_commons::client::oauth::DropinStep;
use bigfred_commons::client::oauth::EnsureDropin;
use bigfred_commons::client::oauth::Harden;
use bigfred_commons::client::oauth::OAuthClientFile;
use bigfred_commons::client::oauth::ReadFailure;
use bigfred_commons::client::oauth::TokenReply;
use bigfred_commons::client::oauth::TokenStep;
use bigfred_commons::client::oauth::WriteFailure;
use bigfred_commons::client::wire::TokenResponse;
use bigfred_commons::client::Error;
use bigfred_commons::fspath::FsPath;
use bigfred_commons::io::IoFailure;
use bigfred_commons::io::IoKind;

const DIR: &str = "/tmp/bf-oauth/oauth-clients";
const FILE: &str = "/tmp/bf-oauth/oauth-clients/bigfred-wizard.json";

fn config() -> BigFredConfig {
    BigFredConfig {
        api_base: "http://127.0.0.1:8080".to_string(),
        ws_base: "ws://127.0.0.1:8080".to_string(),
        sso_client_id: "bigfred-wizard".to_string(),
        redirect_uris: vec![
            "http://bigfred.local:8091/auth/callback".to_string(),
            "http://localhost:8091/auth/callback".to_string(),
        ],
        oauth_dropin_dir: FsPath::new(DIR),
        oauth_display_name: "BigFred Wizard".to_string(),
        fixed_dcc_bus: None,
    }
}

fn existing(uris: &[&str]) -> OAuthClientFile {
    OAuthClientFile {
        client_id: "bigfred-wizard".to_string(),
        client_secret: "aabbccdd".repeat(8),
        display_name: "BigFred Wizard".to_string(),
        redirect_uris: uris.iter().map(|u| u.to_string()).collect(),
        cors_enabled: false,
        cors_origins: Vec::new(),
        enabled: true,
        share_session: true,
    }
}

fn failure(kind: IoKind) -> IoFailure {
    IoFailure {
        kind,
        text: "denied".to_string(),
    }
}

fn up_to_look(run: &mut EnsureDropin) {
    let step = run.dir_created(Ok(()));
    assert!(matches!(step, DropinStep::HardenDir(items) if items.len() == 2));
    assert_eq!(run.dir_hardened(), DropinStep::LookFor(FsPath::new(FILE)));
}

#[test]
fn secret_is_64_hex_chars() {
    let s = random_secret();
    assert_eq!(s.len(), 64);
    assert!(s.chars().all(|c| c.is_ascii_hexdigit()));
    assert_ne!(s, random_secret());
}

#[test]
fn secret_is_lower_case_hex_of_its_bytes() {
    assert_eq!(secret_from(&[0x00, 0x0f, 0xa5, 0xff]), "000fa5ff");
}

#[test]
fn drop_in_path_is_named_after_the_client() {
    assert_eq!(config().oauth_client_path(), FsPath::new(FILE));
}

#[test]
fn ensure_writes_once_and_reads_back() {
    let cfg = config();
    let (mut run, step) = EnsureDropin::start(&cfg, Some(12));
    assert_eq!(step, DropinStep::CreateDir(FsPath::new(DIR)));
    up_to_look(&mut run);
    let seeded = match run.looked(false) {
        DropinStep::Seed { path, file } => {
            assert_eq!(path, FsPath::new(FILE));
            file
        }
        other => panic!("seed: {other:?}"),
    };
    let harden = Harden {
        path: FsPath::new(FILE),
        mode: 0o640,
        gid: Some(12),
    };
    assert_eq!(
        run.written(Ok(())),
        DropinStep::HardenFile {
            item: harden,
            touch: false
        }
    );
    assert_eq!(run.file_hardened(), DropinStep::Done(Ok(FsPath::new(FILE))));
    let first = seeded.client_secret.clone();
    assert_eq!(first.len(), 64);
    assert_eq!(seeded.redirect_uris, cfg.redirect_uris);
    assert!(seeded.enabled && !seeded.share_session && !seeded.cors_enabled);

    let (mut again, _) = EnsureDropin::start(&cfg, None);
    up_to_look(&mut again);
    assert_eq!(again.looked(true), DropinStep::Read(FsPath::new(FILE)));
    let step = again.read(Ok(seeded));
    assert!(
        matches!(step, DropinStep::HardenFile { touch: false, .. }),
        "an unchanged file is not rewritten"
    );
    let mut file = existing(&[]);
    file.client_secret = first.clone();
    assert_eq!(load_secret(&cfg, Ok(file)), Ok(Some(first)));
}

#[test]
fn sync_redirect_uris_preserves_share_session() {
    let cfg = config();
    let (mut run, _) = EnsureDropin::start(&cfg, None);
    up_to_look(&mut run);
    run.looked(true);
    let parsed = match run.read(Ok(existing(&["http://example.test/cb"]))) {
        DropinStep::Rewrite { path, file } => {
            assert_eq!(path, FsPath::new(FILE));
            file
        }
        other => panic!("ensure: {other:?}"),
    };
    assert!(
        parsed.share_session,
        "shareSession must survive redirect URI merge"
    );
    assert!(parsed
        .redirect_uris
        .iter()
        .any(|u| u == "http://example.test/cb"));
    assert_eq!(parsed.redirect_uris.len(), 3);
    assert_eq!(parsed.client_secret, "aabbccdd".repeat(8));
    let step = run.written(Ok(()));
    assert!(matches!(step, DropinStep::HardenFile { touch: true, .. }));
}

#[test]
fn merge_ignores_blanks_and_white_space() {
    let mut cfg = config();
    cfg.redirect_uris = vec![
        " http://a ".to_string(),
        "".to_string(),
        " \t".to_string(),
        "http://b".to_string(),
        "http://b\n".to_string(),
    ];
    let mut file = existing(&["http://a\n"]);
    assert!(sync_redirect_uris(&mut file, &cfg));
    assert_eq!(file.redirect_uris, vec!["http://a\n", "http://b"]);
    assert!(!sync_redirect_uris(&mut file, &cfg));
    assert_eq!(file.redirect_uris, vec!["http://a\n", "http://b"]);
}

#[test]
fn ensure_reports_each_failure() {
    let cfg = config();
    let (mut run, _) = EnsureDropin::start(&cfg, None);
    assert_eq!(
        run.dir_created(Err(failure(IoKind::Other))),
        DropinStep::Done(Err(Error::Io {
            path: FsPath::new(DIR),
            source: failure(IoKind::Other),
        }))
    );
    let (mut run, _) = EnsureDropin::start(&cfg, None);
    up_to_look(&mut run);
    run.looked(true);
    assert_eq!(
        run.read(Err(ReadFailure::Parse("bad json".to_string()))),
        DropinStep::Done(Err(Error::Parse {
            path: FsPath::new(FILE),
            source: "bad json".to_string(),
        }))
    );
    let (mut run, _) = EnsureDropin::start(&cfg, None);
    up_to_look(&mut run);
    run.looked(false);
    assert_eq!(
        run.written(Err(WriteFailure::Serialize("no".to_string()))),
        DropinStep::Done(Err(Error::Serialize {
            path: FsPath::new(FILE),
            source: "no".to_string(),
        }))
    );
}

#[test]
fn hardening_covers_directory_and_parent() {
    let items = harden_dropin_dir(&FsPath::new("/a/b"), Some(7));
    let want = |path: &str| Harden {
        path: FsPath::new(path),
        mode: 0o750,
        gid: Some(7),
    };
    assert_eq!(items, vec![want("/a/b"), want("/a")]);
    assert_eq!(harden_dropin_dir(&FsPath::new("/"), None).len(), 1);
}

#[test]
fn missing_drop_in_has_no_secret() {
    let cfg = config();
    assert_eq!(
        load_secret(&cfg, Err(ReadFailure::Io(failure(IoKind::NotFound)))),
        Ok(None)
    );
    assert_eq!(
        load_secret(&cfg, Err(ReadFailure::Io(failure(IoKind::Other)))),
        Err(Error::Io {
            path: FsPath::new(FILE),
            source: failure(IoKind::Other),
        })
    );
    assert!(load_secret(&cfg, Err(ReadFailure::Parse("x".to_string()))).is_err());
}

#[test]
fn file_ends_with_a_line_feed() {
    assert_eq!(file_bytes(b"{}".to_vec()), b"{}\n".to_vec());
}

#[test]
fn exchange_posts_the_secret_it_has() {
    let cfg = config();
    let step = after_load(&cfg, "c0de", "http://cb", Ok(Some("s3cret".to_string())));
    match step {
        TokenStep::Post { url, request } => {
            assert_eq!(url, "http://127.0.0.1:8080/api/v1/auth/oauth/token");
            assert_eq!(request.grant_type, "authorization_code");
            assert_eq!(request.code, "c0de");
            assert_eq!(request.client_id, "bigfred-wizard");
            assert_eq!(request.client_secret, "s3cret");
            assert_eq!(request.redirect_uri, "http://cb");
        }
        other => panic!("post: {other:?}"),
    }
    assert_eq!(after_load(&cfg, "c", "u", Ok(None)), TokenStep::Ensure);
    assert_eq!(
        after_load(&cfg, "c", "u", Err(Error::Unauthorized)),
        TokenStep::Ensure
    );
}

#[test]
fn exchange_reports_why_it_has_no_secret() {
    let cfg = config();
    assert_eq!(
        after_ensure(&cfg, "c", "u", Err(Error::Unauthorized), Ok(None)),
        TokenStep::Fail(Error::OauthClientEnsureFailed("unauthorized".to_string()))
    );
    assert_eq!(
        after_ensure(&cfg, "c", "u", Ok(()), Err(Error::ProgrammingTimeout)),
        TokenStep::Fail(Error::OauthClientUnreadable(
            "programming timeout".to_string()
        ))
    );
    assert_eq!(
        after_ensure(&cfg, "c", "u", Ok(()), Ok(None)),
        TokenStep::Fail(Error::OauthClientMissing)
    );
    let step = after_ensure(&cfg, "c", "u", Ok(()), Ok(Some("s".to_string())));
    assert!(matches!(step, TokenStep::Post { .. }));
}

#[test]
fn token_replies_are_classified() {
    let token = || TokenResponse {
        access_token: "jwt".to_string(),
        token_type: "Bearer".to_string(),
        expires_at: "later".to_string(),
    };
    let answered = |status: u16, body: &str| TokenReply::Answered {
        status,
        body: body.as_bytes().to_vec(),
        token: Ok(token()),
    };
    assert_eq!(exchange_token(answered(200, "")), Ok(token()));
    let refused = |status: u16, code: &str| {
        Err(Error::BadStatus {
            status,
            code: code.to_string(),
            detail: None,
        })
    };
    assert_eq!(
        exchange_token(answered(400, r#"{"error":"invalid_grant","x":1}"#)),
        refused(400, "invalid_grant")
    );
    for body in ["", "{", "[]", "{}", r#"{"error":7}"#] {
        assert_eq!(
            exchange_token(answered(500, body)),
            refused(500, "oauth_exchange_failed")
        );
    }
    assert_eq!(
        exchange_token(TokenReply::Unreachable("refused".to_string())),
        Err(Error::OauthUnreachable("refused".to_string()))
    );
    let garbled = TokenReply::Answered {
        status: 200,
        body: Vec::new(),
        token: Err("EOF".to_string()),
    };
    assert_eq!(
        exchange_token(garbled),
        Err(Error::OauthBadResponse("EOF".to_string()))
    );
    assert_eq!(
        refused_exchange(418, Some("teapot".to_string())).code(),
        "teapot"
    );
}

#[test]
fn group_id_is_found() {
    assert_eq!(
        bigfred_gid("root:x:0:\nbigfred:x:990:ann,bob\nusers:x:100:"),
        Some(990)
    );
    assert_eq!(bigfred_gid("bigfred:x:990"), Some(990));
    assert_eq!(bigfred_gid("bigfred:x:990\r\n"), Some(990));
    assert_eq!(bigfred_gid("bigfred:x:+07:\r\n"), Some(7));
}

#[test]
fn malformed_group_lines_are_passed_over() {
    assert_eq!(
        bigfred_gid("bigfred\nbigfred:x\nbigfred:x:no:\nbigfred:x::\nbigfred:x:5:"),
        Some(5)
    );
    assert_eq!(bigfred_gid("bigfred2:x:5:\n bigfred:x:6:"), None);
    assert_eq!(bigfred_gid("bigfred:x:4294967296:"), None);
    assert_eq!(bigfred_gid("bigfred:x:990\r"), None);
    assert_eq!(bigfred_gid(""), None);
}

#[test]
fn numbers_parse_as_std_does() {
    for text in [
        "", "+", "-", "-1", "0", "007", "+5", "++5", "4294967295", "4294967296", "1a", " 1",
        "99999999999999999999",
    ] {
        assert_eq!(
            parse_number(text.as_bytes()),
            text.parse::<u32>().ok(),
            "{text:?}"
        );
    }
}

#[test]
fn lines_split_as_std_does() {
    for text in [
        "bigfred:x:1\nbigfred:x:2",
        "bigfred:x:\r\nbigfred:x:2\r\n",
        "a\r\rbigfred:x:3\n",
        "\n\nbigfred:x:4",
        "bigfred:x:5\r\r\n",
    ] {
        let want = text
            .lines()
            .filter_map(|line| {
                let mut parts = line.split(':');
                if parts.next() != Some("bigfred") {
                    return None;
                }
                parts.next();
                parts.next().and_then(|gid| gid.parse::<u32>().ok())
            })
            .next();
        assert_eq!(bigfred_gid(text), want, "{text:?}");
    }
}
