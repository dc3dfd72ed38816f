//! One live socket: frames out, acks in, and who waits for which ack.

use crate::client::error::Error;
use crate::client::error::ErrorView;
use crate::client::error::Result;
use crate::client::error;
use crate::client::wire::Ack;
use crate::client::wire::Envelope;
use crate::client::wire::EnvelopeView;
use crate::client::wire::Payload;
use crate::client::wire::PayloadView;
use crate::text::decimal;
use crate::text::same_text;
use crate::text::utf8_text;
use crate::text;
use crate::textmap::TextMap;
use uuid::Uuid;
use vstd::prelude::*;
use vstd::string::*;
use vstd::utf8::*;

verus! {

/// How long the ack of a frame is waited for.
pub const ACK_TIMEOUT_MS: u64 = 30_000;

/// Best-effort timeout for the trailing `OFF` of a function pulse. Shorter
/// than [`ACK_TIMEOUT_MS`] so a pulse never blocks the organizer for half a
/// minute; the ON ack still uses [`ACK_TIMEOUT_MS`] because a stuck command
/// station is worth surfacing verbatim.
pub const PULSE_OFF_TIMEOUT_MS: u64 = 5_000;

/// A message as it comes off the socket.
#[derive(Debug, PartialEq, Eq)]
pub enum SocketMessage {
    Text(String),
    Binary(Vec<u8>),
    Close,
    /// Pings, pongs and raw frames.
    Other,
}

/// What the reader makes of a message.
#[derive(Debug, PartialEq, Eq)]
pub enum Incoming {
    /// A text to read as a frame.
    Text(String),
    /// Nothing to read.
    Skip,
    /// The peer closed the socket.
    Stop,
}

/// Reads one message: text is text, binary counts when it is UTF-8.
pub fn incoming(message: SocketMessage) -> (r: Incoming)
    ensures
        match message {
            SocketMessage::Text(text) => r == Incoming::Text(text),
            SocketMessage::Binary(bytes) => if valid_utf8(bytes@) {
                r matches Incoming::Text(text) && text@ == decode_utf8(bytes@)
            } else {
                r == Incoming::Skip
            },
            SocketMessage::Close => r == Incoming::Stop,
            SocketMessage::Other => r == Incoming::Skip,
        },
{
    match message {
        SocketMessage::Text(text) => Incoming::Text(text),
        SocketMessage::Binary(bytes) => match utf8_text(bytes.as_slice()) {
            Some(text) => {
                proof {
                    encode_utf8_decode_utf8(text@);
                }
                Incoming::Text(text.to_owned())
            },
            None => Incoming::Skip,
        },
        SocketMessage::Close => Incoming::Stop,
        SocketMessage::Other => Incoming::Skip,
    }
}

/// A frame that came in, read as JSON. `ack` is the payload read as an ack,
/// when there is a payload and it is one.
#[derive(Debug, PartialEq, Eq)]
pub struct InFrame {
    pub kind: String,
    pub id: Option<String>,
    pub ack: Option<Ack>,
}

/// The two kinds of frame whose ack is awaited.
#[derive(Debug, Clone, Copy, PartialEq, Eq, Structural)]
pub enum Exchange {
    /// A request, or the `ON` of a pulse.
    Request,
    /// The `OFF` of a pulse.
    PulseOff,
}

/// How waiting for an ack ended.
#[derive(Debug, PartialEq, Eq)]
pub enum Outcome {
    /// The frame could not be written as JSON; the encoder's message.
    EncodeFailed(String),
    /// The socket no longer takes frames.
    SendFailed,
    /// The ack arrived.
    Acked(Ack),
    /// The socket died while waiting.
    Dropped,
    /// No ack in time.
    TimedOut,
}

/// The error code of a negative ack that names none.
pub open spec fn default_code(exchange: Exchange) -> Seq<char> {
    match exchange {
        Exchange::Request => "programming_failed"@,
        Exchange::PulseOff => "function_off_failed"@,
    }
}

/// The error of a negative ack.
pub open spec fn refusal(exchange: Exchange, station: u64, ack: Ack) -> ErrorView {
    ErrorView::BadStatus {
        status: 502,
        code: match ack.error {
            Some(code) => code@,
            None => default_code(exchange),
        },
        detail: Some("command station "@ + text::decimal_text(station as nat)),
    }
}

/// How long to wait for the ack of an exchange.
pub fn ack_timeout_ms(exchange: Exchange) -> (r: u64)
    ensures
        r == (match exchange {
            Exchange::Request => ACK_TIMEOUT_MS,
            Exchange::PulseOff => PULSE_OFF_TIMEOUT_MS,
        }),
{
    match exchange {
        Exchange::Request => ACK_TIMEOUT_MS,
        Exchange::PulseOff => PULSE_OFF_TIMEOUT_MS,
    }
}

/// What an exchange gives its caller.
pub open spec fn exchange_result(exchange: Exchange, station: u64, outcome: Outcome, r: Result<Ack>) -> bool {
    match outcome {
        Outcome::EncodeFailed(text) => r matches Err(e) && e@ == ErrorView::FrameEncodeFailed(text@),
        Outcome::SendFailed | Outcome::Dropped => r matches Err(e) && e@
            == ErrorView::DccBusUnreachable(Seq::empty()),
        Outcome::Acked(ack) => if ack.ok {
            r == Ok::<Ack, Error>(ack)
        } else {
            r matches Err(e) && e@ == refusal(exchange, station, ack)
        },
        Outcome::TimedOut => r matches Err(e) && e@ == (match exchange {
            Exchange::Request => ErrorView::ProgrammingTimeout,
            Exchange::PulseOff => ErrorView::FunctionOffTimeout,
        }),
    }
}

fn conclude(exchange: Exchange, station: u64, outcome: Outcome) -> (r: Result<Ack>)
    ensures
        exchange_result(exchange, station, outcome, r),
{
    match outcome {
        Outcome::EncodeFailed(text) => Err(Error::FrameEncodeFailed(text)),
        Outcome::SendFailed | Outcome::Dropped => Err(Error::DccBusUnreachable(String::new())),
        Outcome::Acked(ack) => {
            if ack.ok {
                Ok(ack)
            } else {
                let code = match ack.error {
                    Some(code) => code,
                    None => match exchange {
                        Exchange::Request => "programming_failed".to_owned(),
                        Exchange::PulseOff => "function_off_failed".to_owned(),
                    },
                };
                let detail = "command station ".to_owned().concat(decimal(station).as_str());
                Err(Error::BadStatus { status: 502, code, detail: Some(detail) })
            }
        },
        Outcome::TimedOut => match exchange {
            Exchange::Request => Err(Error::ProgrammingTimeout),
            Exchange::PulseOff => Err(Error::FunctionOffTimeout),
        },
    }
}

/// The shape of a random UUID in its hyphenated lower-case form,
/// `xxxxxxxx-xxxx-4xxx-yxxx-xxxxxxxxxxxx` with `y` one of `8`, `9`, `a`, `b`.
pub open spec fn random_uuid_text(s: Seq<char>) -> bool {
    &&& s.len() == 36
    &&& forall|i: int|
        #![trigger s[i]]
        0 <= i < 36 ==> if i == 8 || i == 13 || i == 18 || i == 23 {
            s[i] == '-'
        } else {
            '0' <= s[i] <= '9' || 'a' <= s[i] <= 'f'
        }
    &&& s[14] == '4'
    &&& s[19] == '8' || s[19] == '9' || s[19] == 'a' || s[19] == 'b'
}

/// `Uuid::new_v4` written out with its `Display`: a version 4 UUID in
/// hyphenated lower-case form. Which one is left to chance.
#[verifier::external_body]
pub(crate) fn fresh_id() -> (r: String)
    ensures
        random_uuid_text(r@),
{
    Uuid::new_v4().to_string()
}

/// The keep-alive frame.
pub fn ping() -> (r: Envelope)
    ensures
        r@ == (EnvelopeView { kind: "ping"@, id: None, payload: Some(PayloadView::Empty) }),
{
    Envelope { kind: "ping".to_owned(), id: None, payload: Some(Payload::Empty) }
}

/// The bookkeeping of one live socket. `W` is whatever the host wakes a
/// waiting caller with.
pub struct Session<W> {
    alive: bool,
    pending: TextMap<W>,
    command_station_id: u64,
}

/// What a [`Session`] knows.
pub struct SessionView<W> {
    /// The reader has not seen the socket end.
    pub alive: bool,
    /// Who waits for the ack of which frame.
    pub pending: Map<Seq<char>, W>,
    /// The station behind the socket.
    pub command_station_id: u64,
}

impl<W> View for Session<W> {
    type V = SessionView<W>;

    closed spec fn view(&self) -> SessionView<W> {
        SessionView {
            alive: self.alive,
            pending: self.pending@,
            command_station_id: self.command_station_id,
        }
    }
}

/// `waiter` waits for the ack of frame `id`.
pub open spec fn begun<W>(s: SessionView<W>, id: Seq<char>, waiter: W) -> SessionView<W> {
    SessionView { pending: s.pending.insert(id, waiter), ..s }
}

/// Nobody waits for the ack of frame `id`.
pub open spec fn forgotten<W>(s: SessionView<W>, id: Seq<char>) -> SessionView<W> {
    SessionView { pending: s.pending.remove(id), ..s }
}

/// Who waits for the ack of frame `id`.
pub open spec fn waiting<W>(s: SessionView<W>, id: Seq<char>) -> Option<W> {
    if s.pending.contains_key(id) {
        Some(s.pending[id])
    } else {
        None
    }
}

/// An ack that says nothing.
pub open spec fn empty_ack() -> Ack {
    Ack { ok: false, error: None, cvs: None, loco_address: None, long_address: None }
}

/// What a frame that came in hands out: an ack with a known id, its waiter and
/// the ack, an empty one if the payload was not an ack.
pub open spec fn handed_out<W>(s: SessionView<W>, frame: InFrame) -> Option<(W, Ack)> {
    if frame.kind@ != "ack"@ {
        None
    } else {
        match frame.id {
            Some(id) => match waiting(s, id@) {
                Some(waiter) => Some(
                    (
                        waiter,
                        match frame.ack {
                            Some(ack) => ack,
                            None => empty_ack(),
                        },
                    ),
                ),
                None => None,
            },
            None => None,
        }
    }
}

/// A session once waiting for the ack of `id` came to `outcome`.
pub open spec fn concluded<W>(s: SessionView<W>, id: Seq<char>, outcome: Outcome) -> SessionView<W> {
    match outcome {
        Outcome::SendFailed | Outcome::TimedOut => forgotten(s, id),
        Outcome::EncodeFailed(_) | Outcome::Acked(_) | Outcome::Dropped => s,
    }
}

/// A session whose reader saw the socket end.
pub open spec fn ended<W>(s: SessionView<W>) -> SessionView<W> {
    SessionView { alive: false, pending: Map::empty(), ..s }
}

impl<W> Session<W> {
    /// The waiting list names no frame twice.
    pub closed spec fn wf(&self) -> bool {
        self.pending.wf()
    }

    /// A socket that was just opened.
    pub fn open(command_station_id: u64) -> (r: Self)
        ensures
            r.wf(),
            r@ == (SessionView { alive: true, pending: Map::<Seq<char>, W>::empty(), command_station_id }),
    {
        Session { alive: true, pending: TextMap::new(), command_station_id }
    }

    /// Whether the socket can still be used. `closed` tells that its outgoing
    /// queue no longer takes frames.
    pub fn is_alive(&self, closed: bool) -> (r: bool)
        ensures
            r == (self@.alive && !closed),
    {
        self.alive && !closed
    }

    /// Makes the frame `frame` with id `id` and notes who waits for its ack.
    pub fn begin(&mut self, id: String, waiter: W, frame: &str, payload: Payload) -> (r: Envelope)
        requires
            old(self).wf(),
        ensures
            final(self).wf(),
            r@ == (EnvelopeView { kind: frame@, id: Some(id@), payload: Some(payload@) }),
            final(self)@ == begun(old(self)@, id@, waiter),
    {
        let envelope = Envelope {
            kind: frame.to_owned(),
            id: Some(id.clone()),
            payload: Some(payload),
        };
        let _ = self.pending.insert(id, waiter);
        envelope
    }

    /// [`Session::begin`] under a random id, which the frame carries.
    pub fn begin_fresh(&mut self, waiter: W, frame: &str, payload: Payload) -> (r: Envelope)
        requires
            old(self).wf(),
        ensures
            final(self).wf(),
            r@.id matches Some(id) && random_uuid_text(id) && final(self)@ == begun(
                old(self)@,
                id,
                waiter,
            ),
            r@.kind == frame@,
            r@.payload == Some(payload@),
    {
        let id = fresh_id();
        self.begin(id, waiter, frame, payload)
    }

    /// A frame came in. An `ack` with a known id takes its waiter off the list
    /// and hands it the ack, an empty one if the payload was not an ack. Any
    /// other frame changes nothing.
    pub fn deliver(&mut self, frame: InFrame) -> (r: Option<(W, Ack)>)
        requires
            old(self).wf(),
        ensures
            final(self).wf(),
            r == handed_out(old(self)@, frame),
            r is Some <==> frame.kind@ == "ack"@ && (frame.id matches Some(id)
                && old(self)@.pending.contains_key(id@)),
            r matches Some((waiter, ack)) ==> frame.id matches Some(id) && waiter
                == old(self)@.pending[id@] && (frame.ack matches Some(given) ==> ack == given),
            final(self)@ == (match (r, frame.id) {
                (Some(_), Some(id)) => forgotten(old(self)@, id@),
                _ => old(self)@,
            }),
    {
        if !same_text(frame.kind.as_str(), "ack") {
            return None;
        }
        match frame.id {
            Some(id) => match self.pending.remove(id.as_str()) {
                Some(waiter) => {
                    let ack = match frame.ack {
                        Some(ack) => ack,
                        None => Ack::default(),
                    };
                    Some((waiter, ack))
                },
                None => {
                    assert(self@.pending =~= old(self)@.pending);
                    None
                },
            },
            None => None,
        }
    }

    /// The reader saw the socket end: nobody waits any longer.
    pub fn reader_ended(&mut self)
        ensures
            final(self).wf(),
            final(self)@ == (SessionView {
                alive: false,
                pending: Map::<Seq<char>, W>::empty(),
                ..old(self)@
            }),
            final(self)@ == ended(old(self)@),
    {
        self.alive = false;
        self.pending.clear();
    }

    /// Waiting for the ack of `id` ended. A frame that was not sent or not
    /// acked in time leaves the waiting list.
    pub fn settle(&mut self, exchange: Exchange, id: &str, outcome: Outcome) -> (r: Result<Ack>)
        requires
            old(self).wf(),
        ensures
            final(self).wf(),
            exchange_result(exchange, old(self)@.command_station_id, outcome, r),
            final(self)@ == (if outcome is SendFailed || outcome is TimedOut {
                forgotten(old(self)@, id@)
            } else {
                old(self)@
            }),
            final(self)@ == concluded(old(self)@, id@, outcome),
    {
        let forget = matches!(outcome, Outcome::SendFailed | Outcome::TimedOut);
        if forget {
            let _ = self.pending.remove(id);
        }
        conclude(exchange, self.command_station_id, outcome)
    }
}

/// An ack reaches exactly the caller that waits for it, and no more than once:
/// sending a frame makes its caller wait, handing its ack out or giving it up
/// ends that, and neither touches anybody who waits for another frame.
pub proof fn lemma_ack_reaches_its_waiter<W>(
    s: SessionView<W>,
    id: Seq<char>,
    waiter: W,
    other: Seq<char>,
)
    requires
        other != id,
    ensures
        waiting(begun(s, id, waiter), id) == Some(waiter),
        waiting(begun(s, id, waiter), other) == waiting(s, other),
        waiting(forgotten(s, id), id) is None,
        waiting(forgotten(s, id), other) == waiting(s, other),
{
}

/// Starting to wait and giving up say nothing about anything else: the socket
/// stays as alive as it was, on the same station, and every other frame keeps
/// its waiter.
pub proof fn lemma_waiting_touches_nothing_else<W>(
    s: SessionView<W>,
    id: Seq<char>,
    waiter: W,
    other: Seq<char>,
)
    requires
        other != id,
    ensures
        begun(s, id, waiter).alive == s.alive,
        begun(s, id, waiter).command_station_id == s.command_station_id,
        begun(s, id, waiter).pending.contains_key(id),
        begun(s, id, waiter).pending[id] == waiter,
        begun(s, id, waiter).pending.contains_key(other) == s.pending.contains_key(other),
        begun(s, id, waiter).pending[other] == s.pending[other],
        forgotten(s, id).alive == s.alive,
        forgotten(s, id).command_station_id == s.command_station_id,
        !forgotten(s, id).pending.contains_key(id),
        forgotten(s, id).pending.contains_key(other) == s.pending.contains_key(other),
        s.pending.contains_key(other) ==> forgotten(s, id).pending[other] == s.pending[other],
        waiting(s, id) == (if s.pending.contains_key(id) {
            Some(s.pending[id])
        } else {
            None
        }),
{
}

/// A waiter is handed the ack as it came in, in every field: whether it went
/// well, its error, the values read and the address. An ack frame whose payload
/// was no ack hands out a refusal that says nothing else.
pub proof fn lemma_ack_is_handed_out_whole<W>(s: SessionView<W>, frame: InFrame, waiter: W)
    requires
        frame.kind@ == "ack"@,
        frame.id matches Some(id) && s.pending.contains_key(id@) && s.pending[id@] == waiter,
    ensures
        handed_out(s, frame) matches Some((whom, ack)) && whom == waiter && match frame.ack {
            Some(given) => {
                &&& ack == given
                &&& ack.ok == given.ok
                &&& ack.error == given.error
                &&& ack.cvs == given.cvs
                &&& ack.loco_address == given.loco_address
                &&& ack.long_address == given.long_address
            },
            None => {
                &&& !ack.ok
                &&& ack.error is None
                &&& ack.cvs is None
                &&& ack.loco_address is None
                &&& ack.long_address is None
            },
        },
{
}

/// Nobody is handed anything by a frame that is no ack, that answers no frame,
/// or that answers one nobody waits for; nor by a second ack of the same frame.
pub proof fn lemma_nothing_else_is_handed_out<W>(s: SessionView<W>, frame: InFrame)
    ensures
        frame.kind@ != "ack"@ ==> handed_out(s, frame) is None,
        frame.id is None ==> handed_out(s, frame) is None,
        frame.id matches Some(id) ==> handed_out(forgotten(s, id@), frame) is None,
        frame.id matches Some(id) ==> (!s.pending.contains_key(id@) ==> handed_out(s, frame)
            is None),
{
}

/// A caller that begins a frame is handed the ack of that frame, whatever else is
/// under way.
pub proof fn lemma_begun_frame_gets_its_ack<W>(
    s: SessionView<W>,
    id: String,
    waiter: W,
    ack: Ack,
    frame: InFrame,
)
    requires
        frame.kind@ == "ack"@,
        frame.id == Some(id),
        frame.ack == Some(ack),
    ensures
        handed_out(begun(s, id@, waiter), frame) == Some((waiter, ack)),
{
}

/// An exchange succeeds exactly if a positive ack arrived, and then with that ack.
/// Each way to fail has a code of its own; that the socket is gone is told by
/// nothing but a frame that was not sent or a socket that died.
pub proof fn lemma_exchange_result_follows_outcome(
    exchange: Exchange,
    station: u64,
    outcome: Outcome,
    r: Result<Ack>,
)
    requires
        exchange_result(exchange, station, outcome, r),
    ensures
        r is Ok <==> (outcome matches Outcome::Acked(ack) && ack.ok),
        r matches Ok(ack) ==> outcome == Outcome::Acked(ack),
        r matches Err(e) ==> match outcome {
            Outcome::EncodeFailed(text) => e@ == ErrorView::FrameEncodeFailed(text@),
            Outcome::SendFailed | Outcome::Dropped => e@ == ErrorView::DccBusUnreachable(
                Seq::empty(),
            ) && error::error_code(e@) == "dcc_bus_unavailable"@,
            Outcome::Acked(ack) => {
                &&& e@ matches ErrorView::BadStatus { status, code, detail }
                &&& status == 502
                &&& detail == Some("command station "@ + text::decimal_text(station as nat))
                &&& match ack.error {
                    Some(given) => code == given@,
                    None => match exchange {
                        Exchange::Request => code == "programming_failed"@,
                        Exchange::PulseOff => code == "function_off_failed"@,
                    },
                }
            },
            Outcome::TimedOut => match exchange {
                Exchange::Request => e@ is ProgrammingTimeout,
                Exchange::PulseOff => e@ is FunctionOffTimeout,
            },
        },
        r matches Err(e) ==> (e@ is DccBusUnreachable <==> outcome is SendFailed || outcome
            is Dropped),
{
}

/// Giving a frame up and an ack that never came leave nobody waiting for it; an
/// ack, a frame that was not made and a socket that died change nothing here.
/// Whatever the outcome, every other frame keeps its waiter.
pub proof fn lemma_concluding_forgets_only_what_was_given_up<W>(
    s: SessionView<W>,
    id: Seq<char>,
    outcome: Outcome,
    other: Seq<char>,
)
    requires
        other != id,
    ensures
        outcome is SendFailed || outcome is TimedOut ==> waiting(concluded(s, id, outcome), id)
            is None,
        outcome is EncodeFailed || outcome is Acked || outcome is Dropped ==> concluded(
            s,
            id,
            outcome,
        ) == s,
        waiting(concluded(s, id, outcome), other) == waiting(s, other),
        concluded(s, id, outcome).alive == s.alive,
        concluded(s, id, outcome).command_station_id == s.command_station_id,
{
}

/// Once the socket has ended it is dead and nobody is handed anything any more.
pub proof fn lemma_ended_session_hands_nothing_out<W>(s: SessionView<W>, frame: InFrame, id: Seq<char>)
    ensures
        !ended(s).alive,
        waiting(ended(s), id) is None,
        handed_out(ended(s), frame) is None,
        ended(s).command_station_id == s.command_station_id,
{
}

} // verus!
