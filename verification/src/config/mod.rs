//! Config loaders and hot-reload.

pub mod json;
pub mod live;
pub mod watch;

pub use self::json::JsonFile;
pub use self::live::try_reload;
pub use self::live::ConfigError;
pub use self::live::Live;
pub use self::live::Load;
pub use self::watch::is_junk_name;
pub use self::watch::is_relevant_path;
pub use self::watch::PathFilter;
pub use self::watch::Reload;
pub use self::watch::WatchSpec;
pub use self::watch::DEFAULT_DEBOUNCE;
