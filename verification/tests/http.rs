use bigfred_commons::client::config::BigFredConfig;
use bigfred_commons::client::pin::login_request;
use bigfred_commons::client::pin::login_url;
use bigfred_commons::client::pin::refused_login;
use bigfred_commons::client::pin::verify_pin;
use bigfred_commons::client::pin::PinReply;
use bigfred_commons::client::proxy::forward_request;
use bigfred_commons::client::proxy::forward_response;
use bigfred_commons::client::proxy::forwarded_request_header_names;
use bigfred_commons::client::proxy::ForwardReply;
use bigfred_commons::client::Error;
use bigfred_commons::fspath::FsPath;

fn refused(status: u16, code: &str, detail: Option<&str>) -> Result<(), Error> {
    Err(Error::BadStatus {
        status,
        code: code.to_string(),
        detail: detail.map(str::to_string),
    })
}

fn answer(status: u16, text: &str) -> PinReply {
    PinReply::Answered {
        status,
        text: text.to_string(),
    }
}

fn header(name: &str, value: &[u8]) -> (String, Vec<u8>) {
    (name.to_string(), value.to_vec())
}

#[test]
fn login_is_posted_to_the_api() {
    let cfg = BigFredConfig {
        api_base: "http://hub".to_string(),
        ws_base: String::new(),
        sso_client_id: String::new(),
        redirect_uris: Vec::new(),
        oauth_dropin_dir: FsPath::new("/"),
        oauth_display_name: String::new(),
        fixed_dcc_bus: None,
    };
    assert_eq!(login_url(&cfg), "http://hub/api/v1/auth/login");
    let body = login_request("ann", "1234", 9);
    assert_eq!(
        (body.login.as_str(), body.pin.as_str(), body.layout_id),
        ("ann", "1234", 9)
    );
}

#[test]
fn pin_replies_are_classified() {
    assert_eq!(verify_pin(answer(200, "{\"token\":1}")), Ok(()));
    assert_eq!(verify_pin(answer(299, "")), Ok(()));
    assert_eq!(
        verify_pin(answer(401, "")),
        refused(401, "invalid_credentials", None)
    );
    assert_eq!(
        verify_pin(answer(500, "oops")),
        refused(500, "http_500", None)
    );
    assert_eq!(
        verify_pin(answer(401, r#"{"error":"locked","detail":"later"}"#)),
        refused(401, "locked", Some("later"))
    );
    assert_eq!(
        verify_pin(answer(300, r#"{"detail":"only"}"#)),
        refused(300, "http_300", Some("only"))
    );
    assert_eq!(
        verify_pin(PinReply::Unreachable("down".to_string())),
        Err(Error::OauthUnreachable("down".to_string()))
    );
    assert_eq!(refused_login(404, None, None).code(), "http_404");
}

#[test]
fn request_headers_to_forward() {
    assert_eq!(
        forwarded_request_header_names(),
        vec![
            "authorization",
            "content-type",
            "accept",
            "x-bigfred-impersonate-as"
        ]
    );
}

#[test]
fn requests_are_forwarded_as_they_are() {
    let req = forward_request(
        "http://hub",
        "PATCH",
        "/api/x",
        Some("a=1&b"),
        &[("accept", b"*/*"), ("accept", b"\xff")],
        b"body",
    );
    assert_eq!(req.method, "PATCH");
    assert_eq!(req.url, "http://hub/api/x?a=1&b");
    assert_eq!(
        req.headers,
        vec![header("accept", b"*/*"), header("accept", b"\xff")]
    );
    assert_eq!(req.body, Some(b"body".to_vec()));
}

#[test]
fn empty_body_and_bad_method() {
    let req = forward_request("http://hub", "no good", "/", None, &[], b"");
    assert_eq!(req.method, "GET");
    assert_eq!(req.url, "http://hub/");
    assert_eq!(req.body, None);
    assert_eq!(forward_request("", "", "", None, &[], b"").method, "GET");
    assert_eq!(forward_request("", "wOw!!", "", None, &[], b"").method, "wOw!!");
    let long = "A_very_long_method_name.Of_token_characters~";
    assert_eq!(forward_request("", long, "", None, &[], b"").method, long);
}

#[test]
fn only_two_response_headers_come_back() {
    let reply = ForwardReply::Answered {
        status: 201,
        headers: vec![
            header("set-cookie", b"x"),
            header("cache-control", b"no-store"),
            header("content-type", b"text/html"),
            header("content-type", b"text/plain"),
        ],
        body: Ok(b"hi".to_vec()),
    };
    let res = forward_response(reply).unwrap();
    assert_eq!(res.status, 201);
    assert_eq!(
        res.headers,
        vec![
            header("content-type", b"text/html"),
            header("cache-control", b"no-store")
        ]
    );
    assert_eq!(res.body, b"hi".to_vec());
}

#[test]
fn proxy_failures_are_told_apart() {
    assert_eq!(
        forward_response(ForwardReply::Unreachable("down".to_string())).unwrap_err(),
        Error::ProxyUnreachable("down".to_string())
    );
    let cut = ForwardReply::Answered {
        status: 200,
        headers: Vec::new(),
        body: Err("cut".to_string()),
    };
    assert_eq!(
        forward_response(cut).unwrap_err(),
        Error::ProxyReadFailed("cut".to_string())
    );
}
