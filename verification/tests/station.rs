use bigfred_commons::client::config::BigFredConfig;
use bigfred_commons::client::dccbus::station::lowest_programming;
use bigfred_commons::client::dccbus::station::pick_station;
use bigfred_commons::client::dccbus::station::station_from_catalogue;
use bigfred_commons::client::dccbus::station::CatalogueReply;
use bigfred_commons::client::dccbus::station::PickStep;
use bigfred_commons::client::wire::CommandStation;
use bigfred_commons::client::Error;
use bigfred_commons::fspath::FsPath;

fn config(fixed: Option<(u64, u64)>) -> BigFredConfig {
    BigFredConfig {
        api_base: "http://127.0.0.1:8080".to_string(),
        ws_base: "ws://127.0.0.1:8080".to_string(),
        sso_client_id: "bigfred-wizard".to_string(),
        redirect_uris: vec![
            "http://bigfred.local:8091/auth/callback".to_string(),
            "http://localhost:8091/auth/callback".to_string(),
        ],
        oauth_dropin_dir: FsPath::new("/tmp/bf-dcc"),
        oauth_display_name: "BigFred Wizard".to_string(),
        fixed_dcc_bus: fixed,
    }
}

fn station(id: u64, name: &str, programming: bool) -> CommandStation {
    CommandStation {
        id,
        name: name.to_string(),
        kind: String::new(),
        programming,
        hide_in_throttle: false,
        default_programming_track_output: String::new(),
    }
}

fn answered(status: u16, body: &[u8], list: Vec<CommandStation>) -> CatalogueReply {
    CatalogueReply::Answered {
        status,
        body: body.to_vec(),
        stations: Ok(list),
    }
}

#[test]
fn pick_station_uses_fixed_dcc_bus() {
    let cfg = config(Some((7, 1)));
    let station = match pick_station(&cfg, "token") {
        PickStep::Fixed(station) => station,
        other => panic!("fixed: {other:?}"),
    };
    assert_eq!(station.id, 7);
    assert!(station.programming);
    assert_eq!(station.name, "dcc-bus #7");
}

#[test]
fn catalogue_is_asked_with_the_token() {
    assert_eq!(
        pick_station(&config(None), "tok"),
        PickStep::Fetch {
            url: "http://127.0.0.1:8080/api/v1/command-stations/catalogue".to_string(),
            authorization: "Bearer tok".to_string(),
        }
    );
}

#[test]
fn lowest_programming_station_wins() {
    let list = vec![
        station(1, "plain", false),
        station(9, "late", true),
        station(4, "first four", true),
        station(4, "second four", true),
    ];
    assert_eq!(lowest_programming(list).unwrap().name, "first four");
}

#[test]
fn without_programming_station_there_is_none() {
    let err = lowest_programming(vec![station(1, "plain", false)]).unwrap_err();
    assert_eq!(err, Error::NoProgrammingStation);
    assert_eq!(lowest_programming(Vec::new()).unwrap_err(), err);
}

#[test]
fn catalogue_replies_are_classified() {
    let list = || vec![station(3, "ok", true)];
    assert_eq!(
        station_from_catalogue(answered(200, b"", list())).unwrap().id,
        3
    );
    for status in [401, 403] {
        assert_eq!(
            station_from_catalogue(answered(status, b"", list())).unwrap_err(),
            Error::Unauthorized
        );
    }
    assert_eq!(
        station_from_catalogue(answered(503, b"down\xff", list())).unwrap_err(),
        Error::CatalogueUnavailable("down\u{fffd}".to_string())
    );
    assert_eq!(
        station_from_catalogue(CatalogueReply::Unreachable("no route".to_string())).unwrap_err(),
        Error::OauthUnreachable("no route".to_string())
    );
    let bad = CatalogueReply::Answered {
        status: 204,
        body: Vec::new(),
        stations: Err("EOF".to_string()),
    };
    assert_eq!(
        station_from_catalogue(bad).unwrap_err(),
        Error::CatalogueBadResponse("EOF".to_string())
    );
}
