use vstd::prelude::*;

use crate::value::Value;

verus! {

/// A process's inbound message queue, in two lanes: messages a process sent
/// to itself, and messages from any other process.
pub struct Mailbox {
    internal: Vec<Value>,
    external: Vec<Value>,
}

impl Mailbox {
    /// The self-sent lane, oldest first.
    pub closed spec fn internal_lane(&self) -> Seq<Value> {
        self.internal@
    }

    /// The lane of messages from other processes, oldest first.
    pub closed spec fn external_lane(&self) -> Seq<Value> {
        self.external@
    }

    pub open spec fn is_empty_spec(&self) -> bool {
        self.internal_lane().len() == 0 && self.external_lane().len() == 0
    }

    pub fn new() -> (r: Mailbox)
        ensures
            r.is_empty_spec(),
    {
        Mailbox { internal: Vec::new(), external: Vec::new() }
    }

    /// Enqueues a message that the owning process sent to itself.
    pub fn send_internal(&mut self, message: &Value)
        ensures
            final(self).internal_lane() == old(self).internal_lane().push(*message),
            final(self).external_lane() == old(self).external_lane(),
    {
        self.internal.push(message.clone());
    }

    /// Enqueues a message from another process.
    pub fn send_external(&mut self, message: &Value)
        ensures
            final(self).internal_lane() == old(self).internal_lane(),
            final(self).external_lane() == old(self).external_lane().push(*message),
    {
        self.external.push(message.clone());
    }

    /// The self-sent messages, oldest first.
    pub fn internal_messages(&self) -> (r: &Vec<Value>)
        ensures
            r@ == self.internal_lane(),
    {
        &self.internal
    }

    /// The messages from other processes, oldest first.
    pub fn external_messages(&self) -> (r: &Vec<Value>)
        ensures
            r@ == self.external_lane(),
    {
        &self.external
    }
}

} // verus!
