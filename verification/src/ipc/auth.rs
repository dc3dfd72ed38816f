//! Peer authentication policy.

use crate::text::list_has;
use vstd::prelude::*;
use vstd::string::*;

verus! {

/// Peer authentication policy. Checked after accept, before dispatch.
#[derive(Debug, Clone, PartialEq, Eq)]
pub enum Auth {
    /// Unix mode bits only (typical `0600` sockets).
    Unchecked,
    /// Allow daemon uid and an extra uid list.
    PeerUid {
        /// Daemon process uid (always allowed).
        daemon_uid: u32,
        /// Extra allowed uids.
        allow_uids: Vec<u32>,
    },
    /// Match peer login name against an allow-list.
    PeerUser {
        /// Login names.
        allow_users: Vec<String>,
        /// UID 0 always allowed, unless an empty list fails closed.
        root_always: bool,
        /// Empty allow-list: `true` fail-closed; `false` allow all.
        fail_closed_if_empty: bool,
    },
}

/// Whether a login name is on a list.
pub open spec fn listed(users: Seq<String>, name: Seq<char>) -> bool {
    exists|i: int| 0 <= i < users.len() && #[trigger] users[i]@ == name
}

/// Whether a peer may use the control socket, given its uid and the login name
/// of that uid, as far as they are known.
pub open spec fn admitted(auth: Auth, uid: Option<u32>, name: Option<Seq<char>>) -> bool {
    match auth {
        Auth::Unchecked => true,
        Auth::PeerUid { daemon_uid, allow_uids } => match uid {
            Some(uid) => uid == daemon_uid || allow_uids@.contains(uid),
            None => false,
        },
        Auth::PeerUser { allow_users, root_always, fail_closed_if_empty } => if allow_users@.len()
            == 0 {
            !fail_closed_if_empty
        } else {
            match (uid, name) {
                (None, _) => false,
                (Some(uid), _) if uid == 0 && root_always => true,
                (Some(_), Some(name)) => listed(allow_users@, name),
                (Some(_), None) => false,
            }
        },
    }
}

/// What has to be known about a peer to decide.
#[derive(Debug, Clone, Copy, PartialEq, Eq, Structural)]
pub enum AuthStep {
    /// It is decided.
    Decided(bool),
    /// Ask for the peer's uid.
    AskUid,
    /// Ask for the login name of this uid.
    AskName(u32),
}

/// What has to be known first. A policy that admits everybody, or nobody, asks
/// nothing.
pub open spec fn start_step(auth: Auth) -> AuthStep {
    match auth {
        Auth::Unchecked => AuthStep::Decided(true),
        Auth::PeerUid { .. } => AuthStep::AskUid,
        Auth::PeerUser { allow_users, fail_closed_if_empty, .. } => if allow_users@.len() == 0 {
            AuthStep::Decided(!fail_closed_if_empty)
        } else {
            AuthStep::AskUid
        },
    }
}

/// What the peer's uid settles. An unknown uid is refused; the login name is
/// asked for only where the policy lists names.
pub open spec fn uid_step(auth: Auth, uid: Option<u32>) -> AuthStep {
    match uid {
        None => AuthStep::Decided(false),
        Some(uid) => match auth {
            Auth::Unchecked => AuthStep::Decided(true),
            Auth::PeerUid { daemon_uid, allow_uids } => AuthStep::Decided(
                uid == daemon_uid || allow_uids@.contains(uid),
            ),
            Auth::PeerUser { root_always, .. } => if uid == 0 && root_always {
                AuthStep::Decided(true)
            } else {
                AuthStep::AskName(uid)
            },
        },
    }
}

/// Whether the login name settles it in the peer's favour. An unknown name is
/// refused.
pub open spec fn name_admitted(auth: Auth, name: Option<Seq<char>>) -> bool {
    match (auth, name) {
        (Auth::PeerUser { allow_users, .. }, Some(name)) => listed(allow_users@, name),
        _ => false,
    }
}

/// Asking step by step, and no further than needed, decides as knowing all of it
/// at once does.
pub proof fn lemma_auth_steps_agree(auth: Auth, uid: Option<u32>, name: Option<Seq<char>>)
    ensures
        admitted(auth, uid, name) == (match start_step(auth) {
            AuthStep::Decided(d) => d,
            _ => match uid_step(auth, uid) {
                AuthStep::Decided(d) => d,
                _ => name_admitted(auth, name),
            },
        }),
{
}

impl Auth {
    /// Whether a peer with this uid and login name may use the control socket.
    pub fn allows(&self, uid: Option<u32>, name: Option<&str>) -> (r: bool)
        ensures
            r == admitted(
                *self,
                uid,
                match name {
                    Some(name) => Some(name@),
                    None => None,
                },
            ),
    {
        match self.start() {
            AuthStep::Decided(decision) => decision,
            _ => match self.uid_known(uid) {
                AuthStep::Decided(decision) => decision,
                _ => self.name_known(name),
            },
        }
    }

    /// Decides if nothing need be known about the peer.
    pub fn start(&self) -> (r: AuthStep)
        ensures
            r == start_step(*self),
    {
        match self {
            Auth::Unchecked => AuthStep::Decided(true),
            Auth::PeerUid { .. } => AuthStep::AskUid,
            Auth::PeerUser { allow_users, fail_closed_if_empty, .. } => {
                if allow_users.len() == 0 {
                    AuthStep::Decided(!*fail_closed_if_empty)
                } else {
                    AuthStep::AskUid
                }
            },
        }
    }

    /// Decides if the peer's uid is enough.
    pub fn uid_known(&self, uid: Option<u32>) -> (r: AuthStep)
        ensures
            r == uid_step(*self, uid),
    {
        match uid {
            None => AuthStep::Decided(false),
            Some(uid) => match self {
                Auth::Unchecked => AuthStep::Decided(true),
                Auth::PeerUid { daemon_uid, allow_uids } => {
                    AuthStep::Decided(uid == *daemon_uid || has_uid(allow_uids, uid))
                },
                Auth::PeerUser { root_always, .. } => {
                    if uid == 0 && *root_always {
                        AuthStep::Decided(true)
                    } else {
                        AuthStep::AskName(uid)
                    }
                },
            },
        }
    }

    /// Decides by the login name of the peer's uid.
    pub fn name_known(&self, name: Option<&str>) -> (r: bool)
        ensures
            r == name_admitted(
                *self,
                match name {
                    Some(name) => Some(name@),
                    None => None,
                },
            ),
    {
        match self {
            Auth::PeerUser { allow_users, .. } => match name {
                Some(name) => list_has(allow_users, name),
                None => false,
            },
            _ => false,
        }
    }
}

fn has_uid(uids: &Vec<u32>, uid: u32) -> (r: bool)
    ensures
        r == uids@.contains(uid),
{
    let mut i: usize = 0;
    while i < uids.len()
        invariant
            i <= uids@.len(),
            forall|k: int| 0 <= k < i ==> uids@[k] != uid,
        decreases uids@.len() - i,
    {
        if uids[i] == uid {
            return true;
        }
        i += 1;
    }
    false
}

/// A peer whose uid cannot be told is admitted only by a policy that admits
/// everybody.
pub proof fn lemma_unknown_peer_needs_open_policy(auth: Auth, name: Option<Seq<char>>)
    requires
        admitted(auth, None, name),
    ensures
        forall|uid: Option<u32>, any: Option<Seq<char>>| #[trigger] admitted(auth, uid, any),
{
}

/// Who is admitted by uid: the daemon's own uid and the listed ones, whatever the
/// login name, and nobody else; nor anybody whose uid is not known.
pub proof fn lemma_admission_by_uid(
    daemon_uid: u32,
    allow_uids: Vec<u32>,
    uid: u32,
    name: Option<Seq<char>>,
    k: int,
)
    ensures
        ({
            let auth = Auth::PeerUid { daemon_uid, allow_uids };
            &&& admitted(auth, Some(daemon_uid), name)
            &&& 0 <= k < allow_uids@.len() ==> admitted(auth, Some(allow_uids@[k]), name)
            &&& uid != daemon_uid && (forall|i: int|
                0 <= i < allow_uids@.len() ==> #[trigger] allow_uids@[i] != uid) ==> !admitted(
                auth,
                Some(uid),
                name,
            )
            &&& !admitted(auth, None, name)
        }),
{
}

/// Who is admitted by login name, where names are listed: a peer with a known uid
/// whose name is on the list, and root by its uid where that is always allowed;
/// nobody else.
pub proof fn lemma_admission_by_name(
    allow_users: Vec<String>,
    root_always: bool,
    fail_closed_if_empty: bool,
    uid: u32,
    name: Seq<char>,
    k: int,
)
    requires
        0 <= k < allow_users@.len(),
    ensures
        ({
            let auth = Auth::PeerUser { allow_users, root_always, fail_closed_if_empty };
            &&& admitted(auth, Some(uid), Some(allow_users@[k]@))
            &&& root_always ==> admitted(auth, Some(0), None) && admitted(auth, Some(0), Some(name))
            &&& (forall|i: int| 0 <= i < allow_users@.len() ==> #[trigger] allow_users@[i]@ != name)
                && !(uid == 0 && root_always) ==> !admitted(auth, Some(uid), Some(name))
            &&& !(uid == 0 && root_always) ==> !admitted(auth, Some(uid), None)
            &&& !admitted(auth, None, Some(name)) && !admitted(auth, None, None)
        }),
{
    assert(listed(allow_users@, allow_users@[k]@));
}

/// An empty list of login names decides for every peer alike, root and peers that
/// are not known included: nobody where it fails closed, else everybody. Without
/// a check everybody is admitted.
pub proof fn lemma_empty_list_decides(
    allow_users: Vec<String>,
    root_always: bool,
    fail_closed_if_empty: bool,
    uid: Option<u32>,
    name: Option<Seq<char>>,
)
    requires
        allow_users@.len() == 0,
    ensures
        admitted(Auth::PeerUser { allow_users, root_always, fail_closed_if_empty }, uid, name)
            == !fail_closed_if_empty,
        admitted(Auth::Unchecked, uid, name),
{
}

/// No more is asked for than is needed: nothing where every peer is treated
/// alike, the uid alone where that settles it, and the name of that very uid only
/// where names are listed.
pub proof fn lemma_no_more_is_asked_than_needed(auth: Auth, uid: u32)
    ensures
        start_step(auth) is AskUid <==> auth is PeerUid || (
        auth matches Auth::PeerUser { allow_users, .. } && allow_users@.len() > 0),
        start_step(auth) matches AuthStep::Decided(d) ==> forall|a: Option<u32>, n: Option<Seq<char>>|
            #[trigger] admitted(auth, a, n) == d,
        !(start_step(auth) is AskName),
        uid_step(auth, None) == AuthStep::Decided(false),
        uid_step(auth, Some(uid)) matches AuthStep::AskName(asked) ==> asked == uid && auth
            is PeerUser,
        uid_step(auth, Some(uid)) is AskName <==> (auth matches Auth::PeerUser { root_always, .. }
            && !(root_always && uid == 0)),
        !(uid_step(auth, Some(uid)) is AskUid),
{
}

/// The login name counts exactly if the policy lists it.
pub proof fn lemma_name_counts_if_listed(auth: Auth, name: Seq<char>)
    ensures
        name_admitted(auth, Some(name)) <==> (auth matches Auth::PeerUser { allow_users, .. }
            && exists|i: int| 0 <= i < allow_users@.len() && #[trigger] allow_users@[i]@ == name),
        !name_admitted(auth, None),
{
}

} // verus!
