//! `POST /api/v1/auth/login`: verify a participant PIN and drop the JWT.

use crate::client::config::BigFredConfig;
use crate::client::error::Error;
use crate::client::error::ErrorView;
use crate::client::error::Result;
use crate::client::http::is_success;
use crate::client::http;
use crate::json::text_member;
use crate::json;
use crate::text::decimal;
use crate::text;
use vstd::prelude::*;
use vstd::string::*;
use vstd::utf8::*;

verus! {

/// The body of the login request: `{"login", "pin", "layoutId"}`.
#[derive(Debug, PartialEq, Eq)]
pub struct LoginRequest {
    pub login: String,
    pub pin: String,
    pub layout_id: u64,
}

/// Where to post a login.
pub fn login_url(cfg: &BigFredConfig) -> (r: String)
    ensures
        r@ == cfg.api_base@ + "/api/v1/auth/login"@,
{
    cfg.api_base.clone().concat("/api/v1/auth/login")
}

/// What to post.
pub fn login_request(login: &str, pin: &str, layout_id: u64) -> (r: LoginRequest)
    ensures
        r.login@ == login@,
        r.pin@ == pin@,
        r.layout_id == layout_id,
{
    LoginRequest { login: login.to_owned(), pin: pin.to_owned(), layout_id }
}

/// What the login request came to.
#[derive(Debug, PartialEq, Eq)]
pub enum PinReply {
    /// No answer; the transport's message.
    Unreachable(String),
    /// An answer. A successful one carries a session, whose body is not read.
    Answered { status: u16, text: String },
}

/// The code of a refused login, given the `error` member of the reply.
pub open spec fn refusal_code(status: u16, error: Option<Seq<char>>) -> Seq<char> {
    match error {
        Some(code) => code,
        None => if status == 401 {
            "invalid_credentials"@
        } else {
            "http_"@ + text::decimal_text(status as nat)
        },
    }
}

/// The error of a refused login, given the members `error` and `detail` of the
/// reply.
pub fn refused_login(status: u16, error: Option<String>, detail: Option<String>) -> (r: Error)
    ensures
        r@ == (ErrorView::BadStatus {
            status,
            code: refusal_code(status, text::opt_text(error)),
            detail: text::opt_text(detail),
        }),
{
    let code = match error {
        Some(code) => code,
        None => {
            if status == 401 {
                "invalid_credentials".to_owned()
            } else {
                "http_".to_owned().concat(decimal(status as u64).as_str())
            }
        },
    };
    Error::BadStatus { status, code, detail }
}

/// Whether the PIN was right. On success the minted session is discarded, so a
/// kiosk never keeps a driver JWT.
pub fn verify_pin(reply: PinReply) -> (r: Result<()>)
    ensures
        match reply {
            PinReply::Unreachable(text) => r matches Err(e) && e@ == ErrorView::OauthUnreachable(
                text@,
            ),
            PinReply::Answered { status, text } => if http::success_status(status) {
                r is Ok
            } else {
                r matches Err(e) && e@ == (ErrorView::BadStatus {
                    status,
                    code: refusal_code(status, json::readable_member(encode_utf8(text@), "error"@)),
                    detail: json::readable_member(encode_utf8(text@), "detail"@),
                })
            },
        },
{
    match reply {
        PinReply::Unreachable(text) => Err(Error::OauthUnreachable(text)),
        PinReply::Answered { status, text } => {
            if is_success(status) {
                Ok(())
            } else {
                let error = text_member(text.as_str().as_bytes(), "error");
                let detail = text_member(text.as_str().as_bytes(), "detail");
                Err(refused_login(status, error, detail))
            }
        },
    }
}

/// A refused login is told by the code that the reply names, whatever the status;
/// else by the status, each by a code of its own: wrong credentials by name, any
/// other by number.
pub proof fn lemma_refusal_codes(status: u16, other: u16, code: Seq<char>)
    ensures
        refusal_code(status, Some(code)) == code,
        refusal_code(401, None) == "invalid_credentials"@,
        status != 401 ==> refusal_code(status, None) == "http_"@ + text::decimal_text(
            status as nat,
        ),
        refusal_code(status, None) == refusal_code(other, None) ==> status == other,
{
    reveal_strlit("invalid_credentials");
    reveal_strlit("http_");
    let a = refusal_code(status, None);
    let b = refusal_code(other, None);
    assert("invalid_credentials"@[0] == 'i' && "http_"@[0] == 'h');
    if a == b && status != 401 && other != 401 {
        assert(a.skip(5) =~= text::decimal_text(status as nat));
        assert(b.skip(5) =~= text::decimal_text(other as nat));
        text::lemma_decimal_text_tells_numbers_apart(status as nat, other as nat);
    } else if a == b && status != other {
        assert(a[0] == b[0]);
    }
}

} // verus!
