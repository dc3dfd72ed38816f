//! Shared runtime pieces for BigFred OS daemons and for the clients that talk
//! to them: data-root paths, configuration reload, control-socket framing and
//! dispatch, and the decisions of the HTTP / OAuth / dcc-bus client.
//!
//! Everything here is computed from plain values. Reading the environment,
//! the file system, sockets and the clock is left to the host.

pub mod client;
pub mod config;
pub mod datadir;
pub mod fspath;
pub mod io;
pub mod ipc;
pub mod json;
pub mod text;
pub mod textmap;

pub use self::datadir::path;
pub use self::datadir::root;
pub use self::datadir::set_root;
pub use self::datadir::DataDir;
pub use self::datadir::EnvPolicy;
pub use self::datadir::PathRule;
pub use self::datadir::DEFAULT_ROOT;
pub use self::datadir::ENV_BIGFRED_DATA_DIR;
pub use self::datadir::ENV_DATA_DIR;
