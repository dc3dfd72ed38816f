//! Decisions of the BigFred client: HTTP requests and replies, the OAuth
//! drop-in, and the dcc-bus sockets. The host sends the requests, reads and
//! writes the files and keeps the sockets.

pub mod config;
pub mod dccbus;
pub mod error;
pub mod groupfile;
pub mod http;
pub mod oauth;
pub mod pin;
pub mod proxy;
pub mod wire;

pub use self::config::BigFredConfig;
pub use self::error::Error;
pub use self::error::Result;
pub use self::wire::Ack;
pub use self::wire::CommandStation;
pub use self::wire::CvEntry;
pub use self::wire::Envelope;
pub use self::wire::Status;
pub use self::wire::TokenResponse;
pub use self::wire::FRAME_SET_FUNCTION;
pub use self::wire::IMPERSONATE_HEADER;
