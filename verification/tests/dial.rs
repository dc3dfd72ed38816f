use bigfred_commons::client::config::BigFredConfig;
use bigfred_commons::client::dccbus::dial::backoff_delay;
use bigfred_commons::client::dccbus::dial::backoff_delay_with;
use bigfred_commons::client::dccbus::dial::dial_plan;
use bigfred_commons::client::dccbus::dial::dial_plan_for;
use bigfred_commons::client::dccbus::dial::dialled;
use bigfred_commons::client::dccbus::dial::urlencode;
use bigfred_commons::client::dccbus::dial::ws_url;
use bigfred_commons::client::dccbus::dial::ConnectRun;
use bigfred_commons::client::dccbus::dial::BACKOFF_BASE_MS;
use bigfred_commons::client::dccbus::dial::BACKOFF_MAX_MS;
use bigfred_commons::client::dccbus::dial::CONNECT_ATTEMPTS;
use bigfred_commons::client::wire::CommandStation;
use bigfred_commons::client::wire::Status;
use bigfred_commons::client::Error;
use bigfred_commons::fspath::FsPath;

fn config() -> BigFredConfig {
    BigFredConfig {
        api_base: "http://127.0.0.1:8080".to_string(),
        ws_base: "ws://127.0.0.1:8080".to_string(),
        sso_client_id: "bigfred-wizard".to_string(),
        redirect_uris: Vec::new(),
        oauth_dropin_dir: FsPath::new("/data/etc/bigfred/oauth-clients"),
        oauth_display_name: "BigFred Wizard".to_string(),
        fixed_dcc_bus: None,
    }
}

fn station() -> CommandStation {
    CommandStation {
        id: 7,
        name: "Z21".to_string(),
        kind: "z21".to_string(),
        programming: true,
        hide_in_throttle: false,
        default_programming_track_output: "prog".to_string(),
    }
}

#[test]
fn urlencode_keeps_jwt_alphabet() {
    assert_eq!(urlencode("abcABC123-_.~"), "abcABC123-_.~");
    assert_eq!(urlencode("a+b/c=d"), "a%2Bb%2Fc%3Dd");
}

#[test]
fn urlencode_works_on_utf8_bytes() {
    assert_eq!(urlencode(""), "");
    assert_eq!(urlencode(" %"), "%20%25");
    assert_eq!(urlencode("\u{17c}"), "%C5%BC");
    assert_eq!(urlencode("a b/c"), urlencode("a b") + &urlencode("/c"));
}

#[test]
fn backoff_grows_and_is_capped() {
    for attempt in 0..8 {
        let delay = backoff_delay(attempt);
        assert!(delay <= BACKOFF_MAX_MS, "attempt {attempt} → {delay}ms");
    }
    assert!(backoff_delay(0) >= BACKOFF_BASE_MS / 2);
}

#[test]
fn backoff_has_exact_values_for_a_given_jitter() {
    let halves: [u64; 8] = [125, 250, 500, 1_000, 2_000, 2_000, 2_000, 2_000];
    for (attempt, half) in halves.iter().enumerate() {
        assert_eq!(backoff_delay_with(attempt as u32, 0), *half);
        assert_eq!(backoff_delay_with(attempt as u32, *half), 2 * half);
    }
    assert_eq!(backoff_delay_with(u32::MAX, 17), 2_017);
}

#[test]
fn backoff_jitter_varies() {
    let first = backoff_delay(6);
    assert!((0..200).any(|_| backoff_delay(6) != first));
}

#[test]
fn socket_url_has_station_and_token() {
    assert_eq!(
        ws_url("ws://hub:1", 12, "a/b"),
        "ws://hub:1/api/v1/dcc-bus/12/ws?token=a%2Fb"
    );
}

#[test]
fn dial_plan_accepts_a_good_url_and_login() {
    let plan = dial_plan(&config(), 7, "tok", None).unwrap();
    assert_eq!(plan.url, "ws://127.0.0.1:8080/api/v1/dcc-bus/7/ws?token=tok");
    assert_eq!(plan.impersonate, None);
    let plan = dial_plan(&config(), 7, "tok", Some("ann")).unwrap();
    assert_eq!(plan.impersonate, Some("ann".to_string()));
}

#[test]
fn dial_plan_rejects_a_bad_url() {
    let mut cfg = config();
    cfg.ws_base = "ws://bad host".to_string();
    let err = dial_plan(&cfg, 7, "tok", None).unwrap_err();
    assert_eq!(err.code(), "dcc_bus_bad_url");
    assert!(matches!(err, Error::DccBusBadUrl(text) if !text.is_empty()));
}

#[test]
fn dial_plan_rejects_a_bad_login() {
    let err = dial_plan(&config(), 7, "tok", Some("a\nb")).unwrap_err();
    assert_eq!(err, Error::InvalidImpersonateLogin);
    assert!(dial_plan(&config(), 7, "tok", Some("a\u{7f}")).is_err());
    assert!(dial_plan(&config(), 7, "tok", Some("a\tb\u{e9}")).is_ok());
}

#[test]
fn dial_plan_reports_the_refusal_first() {
    let err = dial_plan_for("u".to_string(), Some("why".to_string()), Some("a\nb")).unwrap_err();
    assert_eq!(err, Error::DccBusBadUrl("why".to_string()));
}

#[test]
fn programming_run_reports_status_and_gives_up() {
    let mut status = Status::default();
    let mut run = ConnectRun::start(None);
    assert_eq!(run.attempt(), 0);
    run.picked(&mut status, &station());
    assert_eq!(status.command_station_id, Some(7));
    assert_eq!(status.command_station_name, Some("Z21".to_string()));
    assert_eq!(
        status.default_programming_track_output,
        Some("prog".to_string())
    );
    for attempt in 1..CONNECT_ATTEMPTS {
        assert_eq!(run.failed(&mut status, Error::Unauthorized), None);
        assert_eq!(run.attempt(), attempt);
        assert_eq!(status.last_error, Some("unauthorized".to_string()));
    }
    assert_eq!(
        run.failed(&mut status, Error::NoProgrammingStation),
        Some(Error::NoProgrammingStation)
    );
    assert!(!status.connected);
    assert_eq!(status.last_error, Some("no_programming_station".to_string()));
}

#[test]
fn reconnects_count_only_successes_after_a_failure() {
    let mut status = Status::default();
    let run = ConnectRun::start(None);
    run.connected(&mut status);
    assert!(status.connected);
    assert_eq!(status.reconnects, 0);

    let mut run = ConnectRun::start(None);
    assert_eq!(run.failed(&mut status, Error::Unauthorized), None);
    assert!(!status.connected);
    run.connected(&mut status);
    assert!(status.connected);
    assert_eq!(status.reconnects, 1);
    assert_eq!(status.last_error, None);
}

#[test]
fn drive_run_leaves_programming_status_alone() {
    let mut status = Status::default();
    let mut run = ConnectRun::start(Some("ann"));
    run.picked(&mut status, &station());
    assert_eq!(run.failed(&mut status, Error::Unauthorized), None);
    run.connected(&mut status);
    assert_eq!(status, Status::default());
}

#[test]
fn failed_dial_is_unavailable() {
    assert_eq!(dialled(Ok(5)), Ok(5));
    let err = dialled::<u8>(Err("HTTP error: 503".to_string())).unwrap_err();
    assert!(err.is_dcc_bus_unavailable());
    assert_eq!(err.message(), "dcc-bus unreachable: HTTP error: 503");
}
