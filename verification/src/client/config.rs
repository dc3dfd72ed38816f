//! Snapshot of BigFred connectivity settings. Callers own hot-reload.

use crate::datadir;
use crate::fspath::FsPath;
use crate::fspath;
use vstd::prelude::*;
use vstd::string::*;
use vstd::utf8::*;

verus! {

/// Values the client needs to talk to BigFred. Built by the host from its
/// own config; this crate does not read wizard JSON or `$DATA_DIR`.
#[derive(Debug, Clone, PartialEq, Eq)]
pub struct BigFredConfig {
    /// Loopback HTTP origin, no trailing slash (`http://127.0.0.1:8080`).
    pub api_base: String,
    /// Same origin with `ws`/`wss`, no trailing slash.
    pub ws_base: String,
    /// OAuth client id written into the drop-in filename.
    pub sso_client_id: String,
    /// Redirect URIs already merged with the host's builtins.
    pub redirect_uris: Vec<String>,
    /// `$DATA_DIR/etc/bigfred/oauth-clients`.
    pub oauth_dropin_dir: FsPath,
    /// `displayName` written into a newly seeded drop-in.
    pub oauth_display_name: String,
    /// Skip catalogue autodetection when both ids are set.
    pub fixed_dcc_bus: Option<(u64, u64)>,
}

impl BigFredConfig {
    /// `<drop-in dir>/<client id>.json`.
    pub open spec fn client_path(&self) -> Seq<u8> {
        fspath::joined(self.oauth_dropin_dir@, encode_utf8(self.sso_client_id@ + ".json"@))
    }

    /// Drop-in path for the configured OAuth client id.
    pub fn oauth_client_path(&self) -> (r: FsPath)
        ensures
            r@ == self.client_path(),
    {
        let name = self.sso_client_id.clone().concat(".json");
        self.oauth_dropin_dir.join(name.as_str().as_bytes())
    }
}

/// The drop-in lies in the drop-in directory under the client id and `.json`, for
/// every client id that does not start with a slash.
pub proof fn lemma_drop_in_lies_in_its_directory(cfg: BigFredConfig)
    requires
        cfg.sso_client_id@.len() > 0,
        cfg.sso_client_id@[0] != '/',
    ensures
        cfg.oauth_dropin_dir@.is_prefix_of(cfg.client_path()),
        exists|head: Seq<u8>|
            cfg.client_path() == #[trigger] (head + encode_utf8(cfg.sso_client_id@ + ".json"@)),
{
    let name = encode_utf8(cfg.sso_client_id@ + ".json"@);
    let dir = cfg.oauth_dropin_dir@;
    datadir::lemma_text_starts_at_root(cfg.sso_client_id@ + ".json"@);
    assert((cfg.sso_client_id@ + ".json"@)[0] == cfg.sso_client_id@[0]);
    if dir.len() == 0 || dir.last() == fspath::SLASH {
        assert(cfg.client_path() == dir + name);
    } else {
        assert(cfg.client_path() == dir.push(fspath::SLASH) + name);
    }
}

} // verus!
