//! Dispatch table of a control socket.

use crate::json::text_member;
use crate::json;
use crate::text;
use crate::textmap::TextMap;
use vstd::prelude::*;
use vstd::string::*;

verus! {

/// Why a connection was not dispatched.
#[derive(Debug, Clone, Copy, PartialEq, Eq, Structural)]
pub enum RejectReason {
    /// The peer was denied.
    Auth,
    /// Concurrent client cap reached.
    Busy,
}

/// Duplicate command name in a [`Router`].
#[derive(Debug, PartialEq, Eq)]
pub struct DuplicateCommand(pub &'static str);

impl DuplicateCommand {
    /// The message of the error.
    pub fn message(&self) -> (r: String)
        ensures
            r@ == "duplicate IPC command "@ + self.0@,
    {
        "duplicate IPC command ".to_owned().concat(self.0)
    }
}

/// Dispatch table: JSON `"type"` → command.
pub struct Router<C> {
    commands: TextMap<C>,
}

impl<C> View for Router<C> {
    type V = Map<Seq<char>, C>;

    closed spec fn view(&self) -> Map<Seq<char>, C> {
        self.commands@
    }
}

impl<C> Router<C> {
    /// No name is registered twice.
    pub closed spec fn wf(&self) -> bool {
        self.commands.wf()
    }

    /// Empty router.
    pub fn new() -> (r: Self)
        ensures
            r.wf(),
            r@ == Map::<Seq<char>, C>::empty(),
    {
        Router { commands: TextMap::new() }
    }

    /// Registers a command under the value of its JSON `"type"` discriminator.
    /// A name that is already taken keeps its command.
    pub fn add(&mut self, name: &'static str, cmd: C) -> (r: Result<(), DuplicateCommand>)
        requires
            old(self).wf(),
        ensures
            final(self).wf(),
            if old(self)@.contains_key(name@) {
                r == Err::<(), DuplicateCommand>(DuplicateCommand(name)) && final(self)@ == old(self)@
            } else {
                r is Ok && final(self)@ == old(self)@.insert(name@, cmd)
            },
    {
        if self.commands.contains_key(name) {
            return Err(DuplicateCommand(name));
        }
        let _ = self.commands.insert(name.to_owned(), cmd);
        Ok(())
    }

    /// Look up by wire type string.
    pub fn get(&self, name: &str) -> (r: Option<&C>)
        requires
            self.wf(),
        ensures
            match r {
                Some(cmd) => self@.contains_key(name@) && *cmd == self@[name@],
                None => !self@.contains_key(name@),
            },
    {
        self.commands.get(name)
    }
}

impl<C> Default for Router<C> {
    fn default() -> (r: Self)
        ensures
            r.wf(),
            r@ == Map::<Seq<char>, C>::empty(),
    {
        Router::new()
    }
}

/// Reads the `"type"` field from a request document.
pub fn json_type_field(body: &[u8]) -> (r: Option<String>)
    ensures
        text::opt_text(r) == json::readable_member(body@, "type"@),
{
    text_member(body, "type")
}

} // verus!
