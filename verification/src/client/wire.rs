//! Wire types shared with BigFred (OAuth, catalogue, dcc-bus acks).

use crate::text;
use vstd::prelude::*;
use vstd::string::*;

verus! {

/// Impersonation header understood by BigFred's `MaybeImpersonate`.
pub const IMPERSONATE_HEADER: &'static str = "x-bigfred-impersonate-as";

/// dcc-bus frame type used for ops-track function pulses.
pub const FRAME_SET_FUNCTION: &'static str = "loco.setFunction";

/// The body of an outgoing frame.
#[derive(Debug, PartialEq, Eq)]
pub enum Payload {
    /// The empty object.
    Empty,
    /// `{"address", "function", "on"}`.
    SetFunction { address: u16, function: u8, on: bool },
    /// A JSON text handed in by the caller.
    Json(String),
}

/// What a [`Payload`] says.
pub enum PayloadView {
    Empty,
    SetFunction { address: u16, function: u8, on: bool },
    Json(Seq<char>),
}

impl View for Payload {
    type V = PayloadView;

    open spec fn view(&self) -> PayloadView {
        match self {
            Payload::Empty => PayloadView::Empty,
            Payload::SetFunction { address, function, on } => PayloadView::SetFunction {
                address: *address,
                function: *function,
                on: *on,
            },
            Payload::Json(text) => PayloadView::Json(text@),
        }
    }
}

/// One outgoing frame: `{"type", "id", "payload"}` on the wire.
#[derive(Debug, PartialEq, Eq)]
pub struct Envelope {
    pub kind: String,
    pub id: Option<String>,
    pub payload: Option<Payload>,
}

/// What an [`Envelope`] says.
pub struct EnvelopeView {
    pub kind: Seq<char>,
    pub id: Option<Seq<char>>,
    pub payload: Option<PayloadView>,
}

impl View for Envelope {
    type V = EnvelopeView;

    open spec fn view(&self) -> EnvelopeView {
        EnvelopeView {
            kind: self.kind@,
            id: text::opt_text(self.id),
            payload: match self.payload {
                Some(p) => Some(p@),
                None => None,
            },
        }
    }
}

/// One configuration variable, mirroring `protocol.CVEntry`.
#[derive(Debug, Clone, Copy, PartialEq, Eq, Structural)]
pub struct CvEntry {
    pub cv: u16,
    pub value: u8,
}

/// `protocol.AckPayload` (only the fields the wizard reads back).
#[derive(Debug, Clone, PartialEq, Eq)]
pub struct Ack {
    pub ok: bool,
    pub error: Option<String>,
    pub cvs: Option<Vec<CvEntry>>,
    pub loco_address: Option<u16>,
    pub long_address: Option<bool>,
}

impl Default for Ack {
    /// A negative ack that says nothing else.
    fn default() -> (r: Self)
        ensures
            r == (Ack { ok: false, error: None, cvs: None, loco_address: None, long_address: None }),
    {
        Ack { ok: false, error: None, cvs: None, loco_address: None, long_address: None }
    }
}

/// What programming status reports (socket + station).
#[derive(Debug, Clone, PartialEq, Eq)]
pub struct Status {
    pub connected: bool,
    pub command_station_id: Option<u64>,
    pub command_station_name: Option<String>,
    pub default_programming_track_output: Option<String>,
    pub last_error: Option<String>,
    pub reconnects: u64,
    /// Impersonated drive socket is up (F2 / ops track).
    pub drive_connected: bool,
    /// Participant the drive socket is impersonating, when connected.
    pub drive_as: Option<String>,
}

/// What a [`Status`] says.
pub struct StatusView {
    pub connected: bool,
    pub command_station_id: Option<u64>,
    pub command_station_name: Option<Seq<char>>,
    pub default_programming_track_output: Option<Seq<char>>,
    pub last_error: Option<Seq<char>>,
    pub reconnects: u64,
    pub drive_connected: bool,
    pub drive_as: Option<Seq<char>>,
}

impl View for Status {
    type V = StatusView;

    open spec fn view(&self) -> StatusView {
        StatusView {
            connected: self.connected,
            command_station_id: self.command_station_id,
            command_station_name: text::opt_text(self.command_station_name),
            default_programming_track_output: text::opt_text(self.default_programming_track_output),
            last_error: text::opt_text(self.last_error),
            reconnects: self.reconnects,
            drive_connected: self.drive_connected,
            drive_as: text::opt_text(self.drive_as),
        }
    }
}

impl Default for Status {
    /// Nothing connected, nothing known.
    fn default() -> (r: Self)
        ensures
            r@ == (StatusView {
                connected: false,
                command_station_id: None,
                command_station_name: None,
                default_programming_track_output: None,
                last_error: None,
                reconnects: 0,
                drive_connected: false,
                drive_as: None,
            }),
    {
        Status {
            connected: false,
            command_station_id: None,
            command_station_name: None,
            default_programming_track_output: None,
            last_error: None,
            reconnects: 0,
            drive_connected: false,
            drive_as: None,
        }
    }
}

/// One row of `GET /api/v1/command-stations/catalogue`.
#[derive(Debug, Clone, PartialEq, Eq)]
pub struct CommandStation {
    pub id: u64,
    pub name: String,
    pub kind: String,
    pub programming: bool,
    pub hide_in_throttle: bool,
    pub default_programming_track_output: String,
}

/// What a [`CommandStation`] says.
pub struct CommandStationView {
    pub id: u64,
    pub name: Seq<char>,
    pub kind: Seq<char>,
    pub programming: bool,
    pub hide_in_throttle: bool,
    pub default_programming_track_output: Seq<char>,
}

impl View for CommandStation {
    type V = CommandStationView;

    open spec fn view(&self) -> CommandStationView {
        CommandStationView {
            id: self.id,
            name: self.name@,
            kind: self.kind@,
            programming: self.programming,
            hide_in_throttle: self.hide_in_throttle,
            default_programming_track_output: self.default_programming_track_output@,
        }
    }
}

/// Successful `POST /api/v1/auth/oauth/token` body.
#[derive(Debug, Clone, PartialEq, Eq)]
pub struct TokenResponse {
    pub access_token: String,
    pub token_type: String,
    pub expires_at: String,
}

} // verus!
