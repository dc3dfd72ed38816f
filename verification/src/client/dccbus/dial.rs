//! Dialling a dcc-bus socket: the URL, the impersonation header, the backoff
//! between attempts and what each attempt does to the status.

use crate::client::config::BigFredConfig;
use crate::client::error::Error;
use crate::client::error::ErrorView;
use crate::client::error::Result;
use crate::client::error;
use crate::client::wire::CommandStation;
use crate::client::wire::CommandStationView;
use crate::client::wire::Status;
use crate::client::wire::StatusView;
use crate::text::decimal;
use crate::text;
use rand::Rng;
use tokio_tungstenite::tungstenite::client::IntoClientRequest;
use tokio_tungstenite::tungstenite::http::HeaderValue;
use vstd::prelude::*;
use vstd::string::*;
use vstd::utf8::*;

verus! {

/// Keep-alive for both permanent sockets. Must stay below dcc-bus deadman
/// (default 6s; BigFred heartbeat is 2s).
pub const PING_INTERVAL_MS: u64 = 2_000;

/// How often a connection is tried before giving up.
pub const CONNECT_ATTEMPTS: u32 = 3;

/// The delay that the first retry is derived from.
pub const BACKOFF_BASE_MS: u64 = 250;

/// The longest delay between two attempts.
pub const BACKOFF_MAX_MS: u64 = 4_000;

/// How many doublings of the base delay are ever applied.
pub const BACKOFF_DOUBLINGS: u32 = 6;

/// Whether a byte stands for itself in a query value.
pub open spec fn unreserved(b: u8) -> bool {
    ||| 'A' as u8 <= b <= 'Z' as u8
    ||| 'a' as u8 <= b <= 'z' as u8
    ||| '0' as u8 <= b <= '9' as u8
    ||| b == '-' as u8
    ||| b == '_' as u8
    ||| b == '.' as u8
    ||| b == '~' as u8
}

/// The upper-case hexadecimal character of a value below sixteen.
pub open spec fn upper_hex_char(n: int) -> char {
    if n < 10 {
        (0x30 + n) as char
    } else {
        (0x41 + n - 10) as char
    }
}

/// One byte of a query value: itself, or `%` and two hexadecimal digits.
pub open spec fn encoded_byte(b: u8) -> Seq<char> {
    if unreserved(b) {
        seq![b as char]
    } else {
        seq!['%', upper_hex_char(b as int / 16), upper_hex_char(b as int % 16)]
    }
}

/// A byte string as a query value.
pub open spec fn encoded(bytes: Seq<u8>) -> Seq<char>
    decreases bytes.len(),
{
    if bytes.len() == 0 {
        Seq::empty()
    } else {
        encoded(bytes.drop_last()) + encoded_byte(bytes.last())
    }
}

fn upper_hex_digit(n: u8) -> (c: char)
    requires
        n < 16,
    ensures
        c == upper_hex_char(n as int),
{
    if n < 10 {
        (0x30 + n) as char
    } else {
        (0x41 + (n - 10)) as char
    }
}

/// Percent-encodes everything but letters, digits, `-`, `_`, `.` and `~`.
pub fn urlencode(value: &str) -> (r: String)
    ensures
        r@ == encoded(value.spec_bytes()),
{
    let bytes = value.as_bytes();
    let mut out = String::new();
    let mut i: usize = 0;
    while i < bytes.len()
        invariant
            i <= bytes@.len(),
            out@ == encoded(bytes@.take(i as int)),
        decreases bytes@.len() - i,
    {
        let b = bytes[i];
        let ghost before = out@;
        if (0x41 <= b && b <= 0x5A) || (0x61 <= b && b <= 0x7A) || (0x30 <= b && b <= 0x39) || b
            == 0x2D || b == 0x5F || b == 0x2E || b == 0x7E {
            out.push(b as char);
        } else {
            out.push('%');
            out.push(upper_hex_digit(b / 16));
            out.push(upper_hex_digit(b % 16));
        }
        assert(out@ =~= before + encoded_byte(b));
        assert(bytes@.take(i + 1).drop_last() =~= bytes@.take(i as int));
        i += 1;
    }
    assert(bytes@.take(i as int) =~= bytes@);
    out
}

/// The decoded form of a query value: `%` takes the next two characters with it.
pub open spec fn decoded(text: Seq<char>) -> Seq<u8>
    decreases text.len(),
{
    if text.len() == 0 {
        Seq::empty()
    } else if text.len() >= 3 && text[0] == '%' {
        seq![(hex_value(text[1]) * 16 + hex_value(text[2])) as u8] + decoded(text.skip(3))
    } else {
        seq![text[0] as u8] + decoded(text.skip(1))
    }
}

/// The value of an upper-case hexadecimal character.
pub open spec fn hex_value(c: char) -> int {
    if '0' <= c <= '9' {
        c as int - 0x30
    } else {
        c as int - 0x41 + 10
    }
}

proof fn lemma_encoded_first(bytes: Seq<u8>)
    requires
        bytes.len() > 0,
    ensures
        encoded(bytes) == encoded_byte(bytes[0]) + encoded(bytes.skip(1)),
    decreases bytes.len(),
{
    if bytes.len() == 1 {
        assert(bytes.drop_last() =~= Seq::<u8>::empty());
        assert(bytes.skip(1) =~= Seq::<u8>::empty());
        assert(encoded(bytes) =~= encoded_byte(bytes[0]) + encoded(bytes.skip(1)));
    } else {
        let head = bytes.drop_last();
        lemma_encoded_first(head);
        assert(head.skip(1) =~= bytes.skip(1).drop_last());
        assert(encoded(bytes) =~= encoded_byte(bytes[0]) + encoded(bytes.skip(1)));
    }
}

/// Decoding a percent-encoded value gives the value back.
pub proof fn lemma_urlencode_decodes(bytes: Seq<u8>)
    ensures
        decoded(encoded(bytes)) == bytes,
    decreases bytes.len(),
{
    if bytes.len() > 0 {
        let b = bytes[0];
        let rest = bytes.skip(1);
        lemma_encoded_first(bytes);
        lemma_urlencode_decodes(rest);
        let text = encoded(bytes);
        if unreserved(b) {
            assert(text[0] == b as char);
            assert(text.skip(1) =~= encoded(rest));
        } else {
            assert(text[0] == '%' && text[1] == upper_hex_char(b as int / 16) && text[2]
                == upper_hex_char(b as int % 16));
            assert(text.skip(3) =~= encoded(rest));
            assert((b as int / 16) * 16 + b as int % 16 == b);
        }
        assert(decoded(text) =~= bytes);
    } else {
        assert(decoded(encoded(bytes)) =~= bytes);
    }
}

/// Whether a character is an upper-case hexadecimal digit.
pub open spec fn upper_hex(c: char) -> bool {
    '0' <= c <= '9' || 'A' <= c <= 'F'
}

/// Whether position `i` of a query value is as percent-encoding leaves it: a
/// character that stands for itself, or `%` and two upper-case hexadecimal
/// digits.
pub open spec fn encoded_at(text: Seq<char>, i: int) -> bool {
    let c = text[i];
    if c == '%' {
        i + 2 < text.len() && upper_hex(text[i + 1]) && upper_hex(text[i + 2])
    } else {
        (c as int) < 128 && unreserved(c as u8)
    }
}

/// Percent-encoding leaves only letters, digits, `-`, `_`, `.`, `~` and `%`, and
/// each `%` is followed by two upper-case hexadecimal digits.
pub proof fn lemma_urlencode_alphabet(bytes: Seq<u8>)
    ensures
        forall|i: int| 0 <= i < encoded(bytes).len() ==> #[trigger] encoded_at(encoded(bytes), i),
    decreases bytes.len(),
{
    if bytes.len() > 0 {
        let text = encoded(bytes);
        let head = encoded(bytes.drop_last());
        let tail = encoded_byte(bytes.last());
        lemma_urlencode_alphabet(bytes.drop_last());
        assert forall|i: int| 0 <= i < text.len() implies #[trigger] encoded_at(text, i) by {
            if i < head.len() {
                assert(encoded_at(head, i));
                assert(text[i] == head[i]);
                if text[i] == '%' {
                    assert(text[i + 1] == head[i + 1] && text[i + 2] == head[i + 2]);
                }
            } else {
                assert(text[i] == tail[i - head.len()]);
                if text[i] == '%' {
                    assert(i == head.len());
                    assert(text[i + 1] == tail[1] && text[i + 2] == tail[2]);
                }
            }
        }
    }
}

/// Encoding a concatenation concatenates the encodings.
pub proof fn lemma_urlencode_concat(a: Seq<u8>, b: Seq<u8>)
    ensures
        encoded(a + b) == encoded(a) + encoded(b),
    decreases b.len(),
{
    if b.len() == 0 {
        assert(a + b =~= a);
        assert(encoded(a) + encoded(b) =~= encoded(a));
    } else {
        lemma_urlencode_concat(a, b.drop_last());
        assert((a + b).drop_last() =~= a + b.drop_last());
        assert(encoded(a + b) =~= encoded(a) + encoded(b));
    }
}

/// The address of a station's socket.
pub open spec fn socket_url(ws_base: Seq<char>, station: u64, token: Seq<char>) -> Seq<char> {
    ws_base + "/api/v1/dcc-bus/"@ + text::decimal_text(station as nat) + "/ws?token="@ + encoded(
        encode_utf8(token),
    )
}

/// Builds the address of a station's socket.
pub fn ws_url(ws_base: &str, station: u64, token: &str) -> (r: String)
    ensures
        r@ == socket_url(ws_base@, station, token@),
{
    ws_base.to_owned().concat("/api/v1/dcc-bus/").concat(decimal(station).as_str()).concat(
        "/ws?token=",
    ).concat(urlencode(token).as_str())
}

/// Why `IntoClientRequest::into_client_request` refuses a URL, if it does.
pub uninterp spec fn ws_url_refusal(url: Seq<char>) -> Option<Seq<char>>;

/// tungstenite's `IntoClientRequest::into_client_request` on `url`: nothing
/// when it makes a request of it, else the message of its error.
#[verifier::external_body]
fn refuse_ws_url(url: &str) -> (r: Option<String>)
    ensures
        text::opt_text(r) == ws_url_refusal(url@),
{
    url.into_client_request().err().map(|e| e.to_string())
}

/// Whether a byte may stand in a header value.
pub open spec fn header_byte(b: u8) -> bool {
    b == 9 || (b >= 32 && b != 127)
}

/// Whether every byte of a header value is allowed.
pub open spec fn header_bytes(bytes: Seq<u8>) -> bool {
    forall|i: int| 0 <= i < bytes.len() ==> #[trigger] header_byte(bytes[i])
}

/// `HeaderValue::from_str`: accepts a text when each byte of its encoding is a
/// tab or neither a control byte nor DEL.
#[verifier::external_body]
fn is_header_value(text: &str) -> (r: bool)
    ensures
        r == header_bytes(text.spec_bytes()),
{
    HeaderValue::from_str(text).is_ok()
}

/// A socket ready to be dialled.
#[derive(Debug, PartialEq, Eq)]
pub struct DialPlan {
    /// Where to.
    pub url: String,
    /// Value of the impersonation header, when there is one.
    pub impersonate: Option<String>,
}

/// Decides on a dial, given why the URL was refused (if it was).
pub fn dial_plan_for(url: String, refusal: Option<String>, as_login: Option<&str>) -> (r: Result<
    DialPlan,
>)
    ensures
        match refusal {
            Some(text) => r matches Err(e) && e@ == ErrorView::DccBusBadUrl(text@),
            None => match as_login {
                Some(login) => if header_bytes(login.spec_bytes()) {
                    r matches Ok(plan) && plan.url@ == url@ && text::opt_text(plan.impersonate) == Some(
                        login@,
                    )
                } else {
                    r matches Err(e) && e@ == ErrorView::InvalidImpersonateLogin
                },
                None => r matches Ok(plan) && plan.url@ == url@ && plan.impersonate is None,
            },
        },
{
    match refusal {
        Some(text) => Err(Error::DccBusBadUrl(text)),
        None => match as_login {
            Some(login) => {
                if is_header_value(login) {
                    Ok(DialPlan { url, impersonate: Some(login.to_owned()) })
                } else {
                    Err(Error::InvalidImpersonateLogin)
                }
            },
            None => Ok(DialPlan { url, impersonate: None }),
        },
    }
}

/// Decides on a dial of `station`'s socket, impersonating `as_login` if given.
pub fn dial_plan(cfg: &BigFredConfig, station: u64, token: &str, as_login: Option<&str>) -> (r:
    Result<DialPlan>)
    ensures
        ({
            let url = socket_url(cfg.ws_base@, station, token@);
            match ws_url_refusal(url) {
                Some(text) => r matches Err(e) && e@ == ErrorView::DccBusBadUrl(text),
                None => match as_login {
                    Some(login) => if header_bytes(login.spec_bytes()) {
                        r matches Ok(plan) && plan.url@ == url && text::opt_text(plan.impersonate)
                            == Some(login@)
                    } else {
                        r matches Err(e) && e@ == ErrorView::InvalidImpersonateLogin
                    },
                    None => r matches Ok(plan) && plan.url@ == url && plan.impersonate is None,
                },
            }
        }),
{
    let url = ws_url(cfg.ws_base.as_str(), station, token);
    let refusal = refuse_ws_url(url.as_str());
    dial_plan_for(url, refusal, as_login)
}

/// What dialling came to: a socket, or the transport's message.
pub fn dialled<S>(outcome: core::result::Result<S, String>) -> (r: Result<S>)
    ensures
        match outcome {
            Ok(socket) => r == Ok::<S, Error>(socket),
            Err(text) => r matches Err(e) && e@ == ErrorView::DccBusUnreachable(text@),
        },
{
    match outcome {
        Ok(socket) => Ok(socket),
        Err(text) => Err(Error::DccBusUnreachable(text)),
    }
}

/// The base delay after `n` doublings.
pub open spec fn doubled_base(n: nat) -> nat
    decreases n,
{
    if n == 0 {
        BACKOFF_BASE_MS as nat
    } else {
        2 * doubled_base((n - 1) as nat)
    }
}

/// The longest delay before attempt `attempt`: the base doubled once per
/// attempt, but at most six times, and capped.
pub open spec fn backoff_ceiling(attempt: u32) -> nat {
    let doublings: nat = if attempt < BACKOFF_DOUBLINGS {
        attempt as nat
    } else {
        BACKOFF_DOUBLINGS as nat
    };
    let exp = doubled_base(doublings);
    if exp < BACKOFF_MAX_MS {
        exp
    } else {
        BACKOFF_MAX_MS as nat
    }
}

proof fn lemma_doubled_base_values()
    ensures
        doubled_base(0) == 250,
        doubled_base(1) == 500,
        doubled_base(2) == 1_000,
        doubled_base(3) == 2_000,
        doubled_base(4) == 4_000,
        doubled_base(5) == 8_000,
        doubled_base(6) == 16_000,
{
    reveal_with_fuel(doubled_base, 7);
}

/// The ceiling never shrinks from one attempt to the next, starts at the base
/// and never passes the maximum.
pub proof fn lemma_backoff_grows_and_is_capped(attempt: u32)
    requires
        attempt < u32::MAX,
    ensures
        BACKOFF_BASE_MS <= backoff_ceiling(attempt) <= backoff_ceiling((attempt + 1) as u32)
            <= BACKOFF_MAX_MS,
        backoff_ceiling(0) == BACKOFF_BASE_MS,
{
    lemma_doubled_base_values();
    if attempt < 6 {
        assert(attempt == 0 || attempt == 1 || attempt == 2 || attempt == 3 || attempt == 4
            || attempt == 5);
    }
}

fn ceiling(attempt: u32) -> (r: u64)
    ensures
        r == backoff_ceiling(attempt),
        BACKOFF_BASE_MS <= r <= BACKOFF_MAX_MS,
{
    let doublings: u32 = if attempt < BACKOFF_DOUBLINGS {
        attempt
    } else {
        BACKOFF_DOUBLINGS
    };
    let mut exp: u64 = BACKOFF_BASE_MS;
    let mut i: u32 = 0;
    while i < doublings
        invariant
            i <= doublings <= 6,
            exp == doubled_base(i as nat),
            250 <= exp <= 16_000,
        decreases doublings - i,
    {
        proof {
            lemma_doubled_base_values();
            assert(i == 0 || i == 1 || i == 2 || i == 3 || i == 4 || i == 5);
        }
        exp = exp * 2;
        i += 1;
    }
    if exp < BACKOFF_MAX_MS {
        exp
    } else {
        BACKOFF_MAX_MS
    }
}

/// rand's `Rng::gen_range` on `0..=max`: some value of the range. Which one is
/// left to chance.
#[verifier::external_body]
fn random_up_to(max: u64) -> (r: u64)
    ensures
        r <= max,
{
    rand::thread_rng().gen_range(0..=max)
}

/// The delay before attempt `attempt`, in milliseconds, for a given jitter:
/// half the ceiling and the jitter on top.
pub fn backoff_delay_with(attempt: u32, jitter: u64) -> (r: u64)
    requires
        jitter <= backoff_ceiling(attempt) / 2,
    ensures
        r == backoff_ceiling(attempt) / 2 + jitter,
{
    ceiling(attempt) / 2 + jitter
}

/// The delay before attempt `attempt`, in milliseconds: between half the
/// ceiling and the ceiling.
pub fn backoff_delay(attempt: u32) -> (r: u64)
    ensures
        backoff_ceiling(attempt) / 2 <= r <= backoff_ceiling(attempt),
        r <= BACKOFF_MAX_MS,
{
    let half: u64 = ceiling(attempt) / 2;
    backoff_delay_with(attempt, random_up_to(half))
}

/// The attempt that follows a failed one, or nothing when that was the last.
pub open spec fn next_attempt(attempt: u32) -> Option<u32> {
    if attempt + 1 < CONNECT_ATTEMPTS {
        Some((attempt + 1) as u32)
    } else {
        None
    }
}

/// The attempt reached after `failures` failures in a row, or nothing once the
/// run has given up.
pub open spec fn attempt_after(failures: nat) -> Option<u32>
    decreases failures,
{
    if failures == 0 {
        Some(0)
    } else {
        match attempt_after((failures - 1) as nat) {
            Some(attempt) => next_attempt(attempt),
            None => None,
        }
    }
}

/// A run of failures is given up after exactly [`CONNECT_ATTEMPTS`] of them.
pub proof fn lemma_gives_up_after_all_attempts(failures: nat)
    ensures
        attempt_after(failures) == (if failures < CONNECT_ATTEMPTS {
            Some(failures as u32)
        } else {
            None
        }),
    decreases failures,
{
    if failures > 0 {
        lemma_gives_up_after_all_attempts((failures - 1) as nat);
    }
}

/// One run of connection attempts for one socket.
#[derive(Debug, PartialEq, Eq)]
pub struct ConnectRun {
    as_login: Option<String>,
    attempt: u32,
}

/// What a [`ConnectRun`] knows.
pub struct ConnectRunView {
    /// Whom the socket impersonates; the programming socket, nobody.
    pub as_login: Option<Seq<char>>,
    /// The attempt under way, counted from zero.
    pub attempt: u32,
}

impl View for ConnectRun {
    type V = ConnectRunView;

    closed spec fn view(&self) -> ConnectRunView {
        ConnectRunView { as_login: text::opt_text(self.as_login), attempt: self.attempt }
    }
}

/// The status once an attempt of `run` goes to `station`.
pub open spec fn picked_status(
    run: ConnectRunView,
    status: StatusView,
    station: CommandStationView,
) -> StatusView {
    match run.as_login {
        Some(_) => status,
        None => StatusView {
            command_station_id: Some(station.id),
            command_station_name: Some(station.name),
            default_programming_track_output: Some(station.default_programming_track_output),
            ..status
        },
    }
}

/// The status once the attempt under way succeeded.
pub open spec fn connected_status(run: ConnectRunView, status: StatusView) -> StatusView {
    match run.as_login {
        Some(_) => status,
        None => StatusView {
            connected: true,
            last_error: None,
            reconnects: if run.attempt > 0 {
                (status.reconnects + 1) as u64
            } else {
                status.reconnects
            },
            ..status
        },
    }
}

/// The status once the attempt under way failed with `error`.
pub open spec fn failed_status(run: ConnectRunView, status: StatusView, error: ErrorView) -> StatusView {
    match run.as_login {
        Some(_) => status,
        None => StatusView {
            connected: false,
            last_error: Some(error::error_code(error)),
            ..status
        },
    }
}

impl ConnectRun {
    /// The attempt under way is one of the allowed ones.
    pub open spec fn wf(&self) -> bool {
        self@.attempt < CONNECT_ATTEMPTS
    }

    /// Starts a run with its first attempt.
    pub fn start(as_login: Option<&str>) -> (r: Self)
        ensures
            r.wf(),
            r@.attempt == 0,
            r@.as_login == (match as_login {
                Some(login) => Some(login@),
                None => None,
            }),
    {
        let as_login: Option<String> = match as_login {
            Some(login) => Some(login.to_owned()),
            None => None,
        };
        ConnectRun { as_login, attempt: 0 }
    }

    /// The attempt under way.
    pub fn attempt(&self) -> (r: u32)
        ensures
            r == self@.attempt,
    {
        self.attempt
    }

    /// Notes the station that an attempt of the programming socket goes to.
    pub fn picked(&self, status: &mut Status, station: &CommandStation)
        ensures
            final(status)@ == (if self@.as_login is None {
                StatusView {
                    command_station_id: Some(station.id),
                    command_station_name: Some(station.name@),
                    default_programming_track_output: Some(
                        station.default_programming_track_output@,
                    ),
                    ..old(status)@
                }
            } else {
                old(status)@
            }),
            final(status)@ == picked_status(self@, old(status)@, station@),
    {
        if self.as_login.is_none() {
            status.command_station_id = Some(station.id);
            status.command_station_name = Some(station.name.clone());
            status.default_programming_track_output =
            Some(station.default_programming_track_output.clone());
        }
    }

    /// The attempt succeeded. On the programming socket the status turns to
    /// connected, and a success after a failure counts as a reconnect.
    pub fn connected(&self, status: &mut Status)
        requires
            self@.as_login is None && self@.attempt > 0 ==> old(status).reconnects < u64::MAX,
        ensures
            final(status)@ == (if self@.as_login is None {
                StatusView {
                    connected: true,
                    last_error: None,
                    reconnects: if self@.attempt > 0 {
                        (old(status).reconnects + 1) as u64
                    } else {
                        old(status).reconnects
                    },
                    ..old(status)@
                }
            } else {
                old(status)@
            }),
            final(status)@ == connected_status(self@, old(status)@),
    {
        if self.as_login.is_none() {
            status.connected = true;
            status.last_error = None;
            if self.attempt > 0 {
                status.reconnects = status.reconnects + 1;
            }
        }
    }

    /// The attempt failed with `error`. Nothing is returned when another
    /// attempt is due, after [`backoff_delay`] of it; else the error to report.
    pub fn failed(&mut self, status: &mut Status, error: Error) -> (r: Option<Error>)
        requires
            old(self).wf(),
        ensures
            final(self).wf(),
            final(self)@.as_login == old(self)@.as_login,
            final(status)@ == (if old(self)@.as_login is None {
                StatusView {
                    connected: false,
                    last_error: Some(error::error_code(error@)),
                    ..old(status)@
                }
            } else {
                old(status)@
            }),
            final(status)@ == failed_status(old(self)@, old(status)@, error@),
            match next_attempt(old(self)@.attempt) {
                Some(attempt) => r is None && final(self)@.attempt == attempt,
                None => r == Some(error) && final(self)@.attempt == old(self)@.attempt,
            },
    {
        if self.as_login.is_none() {
            status.connected = false;
            status.last_error = Some(error.code());
        }
        if self.attempt + 1 < CONNECT_ATTEMPTS {
            self.attempt = self.attempt + 1;
            None
        } else {
            Some(error)
        }
    }
}

/// Letters, digits, `-`, `_`, `.` and `~` stand for themselves in a query value;
/// any other byte becomes three characters, the first of them `%`.
pub proof fn lemma_urlencode_of_one_byte(b: u8)
    ensures
        ({
            let kept = 'A' as u8 <= b <= 'Z' as u8 || 'a' as u8 <= b <= 'z' as u8 || '0' as u8 <= b
                <= '9' as u8 || b == '-' as u8 || b == '_' as u8 || b == '.' as u8 || b
                == '~' as u8;
            &&& kept ==> encoded(seq![b]) == seq![b as char]
            &&& !kept ==> encoded(seq![b]).len() == 3 && encoded(seq![b])[0] == '%'
        }),
        encoded(Seq::empty()) == Seq::<char>::empty(),
{
    assert(seq![b].drop_last() =~= Seq::<u8>::empty());
    assert(encoded(seq![b]) == encoded(seq![b].drop_last()) + encoded_byte(b));
    assert(encoded(seq![b]) =~= encoded_byte(b));
}

/// Values that are encoded alike are the same.
pub proof fn lemma_urlencode_tells_values_apart(a: Seq<u8>, b: Seq<u8>)
    requires
        encoded(a) == encoded(b),
    ensures
        a == b,
{
    lemma_urlencode_decodes(a);
    lemma_urlencode_decodes(b);
}

/// The address of a station's socket is the base, the path with the station's
/// number, and the token at the end, encoded.
pub proof fn lemma_socket_url_parts(base: Seq<char>, station: u64, token: Seq<char>)
    ensures
        socket_url(base, station, token) == base + socket_url(Seq::empty(), station, token),
        socket_url(base, station, token) == socket_url(base, station, Seq::empty()) + encoded(
            encode_utf8(token),
        ),
        socket_url(Seq::empty(), station, Seq::empty()) == "/api/v1/dcc-bus/"@
            + text::decimal_text(station as nat) + "/ws?token="@,
{
    assert(encode_utf8(Seq::<char>::empty()) =~= Seq::<u8>::empty());
    assert(encoded(Seq::<u8>::empty()) =~= Seq::<char>::empty());
    assert(socket_url(base, station, token) =~= base + socket_url(Seq::empty(), station, token));
    assert(socket_url(base, station, token) =~= socket_url(base, station, Seq::empty()) + encoded(
        encode_utf8(token),
    ));
    assert(socket_url(Seq::empty(), station, Seq::empty()) =~= "/api/v1/dcc-bus/"@
        + text::decimal_text(station as nat) + "/ws?token="@);
}

/// Different tokens make different addresses, and so do different stations.
pub proof fn lemma_socket_urls_differ(
    base: Seq<char>,
    a: u64,
    b: u64,
    token: Seq<char>,
    other: Seq<char>,
)
    ensures
        socket_url(base, a, token) == socket_url(base, a, other) ==> token == other,
        socket_url(base, a, token) == socket_url(base, b, token) ==> a == b,
{
    let head = socket_url(base, a, Seq::empty());
    lemma_socket_url_parts(base, a, token);
    lemma_socket_url_parts(base, a, other);
    if socket_url(base, a, token) == socket_url(base, a, other) {
        let n = head.len() as int;
        assert(socket_url(base, a, token).skip(n) =~= encoded(encode_utf8(token)));
        assert(socket_url(base, a, other).skip(n) =~= encoded(encode_utf8(other)));
        lemma_urlencode_tells_values_apart(encode_utf8(token), encode_utf8(other));
        encode_utf8_decode_utf8(token);
        encode_utf8_decode_utf8(other);
    }
    if socket_url(base, a, token) == socket_url(base, b, token) {
        let u = socket_url(base, a, token);
        let m = (base.len() + "/api/v1/dcc-bus/"@.len()) as int;
        let da = text::decimal_text(a as nat);
        let db = text::decimal_text(b as nat);
        let rest = "/ws?token="@ + encoded(encode_utf8(token));
        assert(u =~= (base + "/api/v1/dcc-bus/"@) + da + rest);
        assert(u =~= (base + "/api/v1/dcc-bus/"@) + db + rest);
        assert(u.len() == m + da.len() + rest.len());
        assert(u.len() == m + db.len() + rest.len());
        assert(da.len() == db.len());
        assert(u.subrange(m, m + da.len()) =~= da);
        assert(u.subrange(m, m + db.len()) =~= db);
        text::lemma_decimal_text_tells_numbers_apart(a as nat, b as nat);
    }
}

/// A byte is kept out of a header value only as a control byte: the tab is none
/// of those, DEL is one.
pub proof fn lemma_header_bytes(b: u8, value: Seq<u8>, more: Seq<u8>)
    ensures
        !header_byte(b) <==> b <= 8 || 10 <= b <= 31 || b == 127,
        header_bytes(seq![b]) == header_byte(b),
        header_bytes(Seq::empty()),
        header_bytes(value + more) <==> header_bytes(value) && header_bytes(more),
{
    let both = value + more;
    if header_bytes(both) {
        assert forall|i: int| 0 <= i < value.len() implies #[trigger] header_byte(value[i]) by {
            assert(header_byte(both[i]));
        }
        assert forall|i: int| 0 <= i < more.len() implies #[trigger] header_byte(more[i]) by {
            assert(header_byte(both[value.len() + i]));
        }
    }
    if header_bytes(value) && header_bytes(more) {
        assert forall|i: int| 0 <= i < both.len() implies #[trigger] header_byte(both[i]) by {
            if i < value.len() {
                assert(header_byte(value[i]));
            } else {
                assert(header_byte(more[i - value.len()]));
            }
        }
    }
    if header_bytes(seq![b]) {
        assert(header_byte(seq![b][0]));
    }
}

/// From one attempt to the next the ceiling doubles, until it reaches the maximum
/// and stays there. It starts at a quarter of a second and ends at four.
pub proof fn lemma_backoff_doubles(attempt: u32)
    requires
        attempt < u32::MAX,
    ensures
        ({
            let now = backoff_ceiling(attempt);
            let next = backoff_ceiling((attempt + 1) as u32);
            next == (if 2 * now < 4_000 {
                2 * now
            } else {
                4_000
            })
        }),
        backoff_ceiling(0) == 250,
        attempt >= 4 ==> backoff_ceiling(attempt) == 4_000,
{
    lemma_doubled_base_values();
    if attempt < 6 {
        assert(attempt == 0 || attempt == 1 || attempt == 2 || attempt == 3 || attempt == 4
            || attempt == 5);
    }
}

/// An attempt that fails is followed by the next one, until three have failed.
pub proof fn lemma_attempts_follow_each_other(attempt: u32)
    ensures
        next_attempt(attempt) matches Some(next) ==> next == attempt + 1,
        next_attempt(attempt) is Some <==> attempt < 2,
{
}

/// A drive socket, which impersonates somebody, shows nothing of its connecting in
/// the status.
pub proof fn lemma_drive_run_leaves_status_alone(
    run: ConnectRunView,
    status: StatusView,
    station: CommandStationView,
    error: ErrorView,
)
    requires
        run.as_login is Some,
    ensures
        picked_status(run, status, station) == status,
        connected_status(run, status) == status,
        failed_status(run, status, error) == status,
{
}

/// The programming socket shows the station it goes to, that it is connected, or
/// why not; each attempt shows only what it says, and the drive socket's members
/// stay as they are.
pub proof fn lemma_programming_run_shows_in_status(
    run: ConnectRunView,
    status: StatusView,
    station: CommandStationView,
    error: ErrorView,
)
    requires
        run.as_login is None,
        status.reconnects < u64::MAX,
    ensures
        ({
            let picked = picked_status(run, status, station);
            &&& picked.command_station_id == Some(station.id)
            &&& picked.command_station_name == Some(station.name)
            &&& picked.default_programming_track_output == Some(
                station.default_programming_track_output,
            )
            &&& picked.connected == status.connected && picked.last_error == status.last_error
            &&& picked.reconnects == status.reconnects
            &&& picked.drive_connected == status.drive_connected && picked.drive_as
                == status.drive_as
        }),
        ({
            let up = connected_status(run, status);
            &&& up.connected && up.last_error is None
            &&& up.reconnects == status.reconnects + (if run.attempt == 0 {
                0int
            } else {
                1
            })
            &&& up.command_station_id == status.command_station_id && up.command_station_name
                == status.command_station_name && up.default_programming_track_output
                == status.default_programming_track_output
            &&& up.drive_connected == status.drive_connected && up.drive_as == status.drive_as
        }),
        ({
            let down = failed_status(run, status, error);
            &&& !down.connected && down.last_error == Some(error::error_code(error))
            &&& down.reconnects == status.reconnects
            &&& down.command_station_id == status.command_station_id && down.command_station_name
                == status.command_station_name && down.default_programming_track_output
                == status.default_programming_track_output
            &&& down.drive_connected == status.drive_connected && down.drive_as == status.drive_as
        }),
        connected_status(run, failed_status(run, status, error)) == connected_status(run, status),
{
}

} // verus!
