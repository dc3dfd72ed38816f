//! Unix-socket IPC: length-prefixed JSON, singleton bind, auth, and a command
//! router.
//!
//! Binding a control socket is always singleton: a live peer at the path is
//! [`bind::BindError::AlreadyRunning`], never an unlink that would steal the
//! inode.

pub mod auth;
pub mod bind;
pub mod command;
pub mod frame;
pub mod server;

pub use self::auth::Auth;
pub use self::bind::claim;
pub use self::bind::BindError;
pub use self::bind::BindOptions;
pub use self::command::json_type_field;
pub use self::command::DuplicateCommand;
pub use self::command::RejectReason;
pub use self::command::Router;
pub use self::frame::read_frame;
pub use self::frame::read_frame_bytes;
pub use self::frame::write_frame;
pub use self::frame::write_frame_bytes;
pub use self::frame::FrameError;
pub use self::frame::DEFAULT_MAX_FRAME_BYTES;
pub use self::server::AcceptPolicy;
pub use self::server::IpcError;
pub use self::server::SessionMode;
