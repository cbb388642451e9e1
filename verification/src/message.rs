//! The transient status message shown under the habit grid.

use vstd::prelude::*;

verus! {

/// How loudly a status message should be rendered.
#[derive(Clone, Copy, Debug, PartialEq, Eq, Structural)]
pub enum MessageKind {
    Info,
    Error,
}

/// Transient status text with a severity.
pub struct Message {
    pub msg: String,
    pub kind: MessageKind,
}

impl Message {
    /// The greeting shown when a session starts.
    pub fn startup() -> (r: Message)
        ensures
            r.msg@ == "Type :add <habit-name> [goal] to get started, Ctrl-L to dismiss"@,
            r.kind == MessageKind::Info,
    {
        Message {
            msg: "Type :add <habit-name> [goal] to get started, Ctrl-L to dismiss".to_owned(),
            kind: MessageKind::Info,
        }
    }

    pub fn contents(&self) -> (r: &String)
        ensures
            r@ == self.msg@,
    {
        &self.msg
    }

    pub fn kind(&self) -> (r: MessageKind)
        ensures
            r == self.kind,
    {
        self.kind
    }

    pub fn set_message(&mut self, m: String)
        ensures
            final(self).msg == m,
            final(self).kind == old(self).kind,
    {
        self.msg = m;
    }

    pub fn set_kind(&mut self, k: MessageKind)
        ensures
            final(self).kind == k,
            final(self).msg == old(self).msg,
    {
        self.kind = k;
    }

    pub fn clear(&mut self)
        ensures
            final(self).msg@ == Seq::<char>::empty(),
            final(self).kind == old(self).kind,
    {
        self.msg = String::new();
    }
}

} // verus!
