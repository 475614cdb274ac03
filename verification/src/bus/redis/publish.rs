//! The publisher's side of the bus: what is written for a value, and in
//! which order.

use crate::bus::redis::{key, prefixed, PrefixedPubSub, KEY_PREFIX};
use crate::bus::BusMessage;
use vstd::prelude::*;

verus! {

/// A command for the bus.
#[derive(Debug)]
pub enum BusCommand {
    /// Write these named fields into the hash stored under `key`.
    HSet { key: String, fields: Vec<(String, String)> },
    /// Publish `message` on `channel`.
    Publish { channel: String, message: String },
}

/// A publisher's settings: the prefix of its keys.
#[derive(Debug)]
pub struct RedisPublisher {
    key_prefix: String,
}

impl View for RedisPublisher {
    type V = Seq<char>;

    /// The prefix of the publisher's keys.
    closed spec fn view(&self) -> Seq<char> {
        self.key_prefix@
    }
}

impl Clone for RedisPublisher {
    fn clone(&self) -> (copy: Self)
        ensures
            copy@ == self@,
    {
        RedisPublisher { key_prefix: self.key_prefix.clone() }
    }
}

/// Whether `fields` are the named fields `snapshot`.
pub open spec fn fields_are(fields: Seq<(String, String)>, snapshot: Seq<(Seq<char>, Seq<char>)>) -> bool {
    fields.len() == snapshot.len() && forall|i: int|
        0 <= i < fields.len() ==> (#[trigger] fields[i]).0@ == snapshot[i].0 && fields[i].1@
            == snapshot[i].1
}

impl PrefixedPubSub for RedisPublisher {
    open spec fn prefix_of(handler: Seq<char>) -> Seq<char> {
        handler
    }

    open spec fn prefix_set(handler: Seq<char>, prefix: Seq<char>) -> Seq<char> {
        prefix
    }

    fn get_prefix(&self) -> (prefix: String) {
        self.key_prefix.clone()
    }

    fn set_prefix(&mut self, prefix: &str) -> (handler: &mut Self) {
        self.key_prefix = prefix.to_owned();
        self
    }
}

impl RedisPublisher {
    /// A publisher whose keys start with the usual prefix.
    pub fn new() -> (publisher: Self)
        ensures
            publisher@ == KEY_PREFIX@,
    {
        RedisPublisher { key_prefix: KEY_PREFIX.to_owned() }
    }

    /// The commands that publish `value`, in their order: first the value's
    /// fields are written under its prefixed key, then its message is
    /// published on the channel of that name. So who reads the hash after the
    /// message has come finds a value that is no older than the message.
    pub fn publish<RM: BusMessage>(&self, value: &RM) -> (commands: Vec<BusCommand>)
        ensures
            commands.len() == 2,
            commands[0] matches BusCommand::HSet { key, fields } && key@ == prefixed(
                self@,
                RM::bus_key(value@),
            ) && fields_are(fields@, RM::bus_val(value@)),
            commands[1] matches BusCommand::Publish { channel, message } && channel@ == prefixed(
                self@,
                RM::bus_key(value@),
            ) && message@ == RM::message(value@),
    {
        let bus_key = value.to_bus_key();
        let obj_key = key(self.key_prefix.as_str(), bus_key.as_str());
        let channel = obj_key.clone();
        let mut commands: Vec<BusCommand> = Vec::new();
        commands.push(BusCommand::HSet { key: obj_key, fields: value.to_bus_val() });
        commands.push(BusCommand::Publish { channel, message: value.as_message() });
        commands
    }
}

} // verus!
