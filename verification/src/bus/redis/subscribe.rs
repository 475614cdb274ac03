//! The subscriber's side of the bus: the pattern that it subscribes to, when
//! it subscribes, and what it makes of a payload.

use crate::bus::redis::stream::{SourceStream, StreamError, StreamMsg};
use crate::bus::redis::{key, prefixed, PrefixedPubSub, KEY_PREFIX};
use crate::bus::{BusMessage, DecodeError};
use tokio::sync::broadcast::{Receiver, Sender};
use vstd::prelude::*;
use vstd::string::StringExecFns;

verus! {

/// A subscriber's settings and, once it has begun to stream, its local
/// fan-out.
#[verifier::reject_recursive_types(RM)]
pub struct RedisSubscriber<RM: BusMessage + StreamMsg> {
    key_prefix: String,
    pattern: String,
    source_stream: Option<SourceStream<RM>>,
}

/// A subscriber, over plain values.
pub struct SubscriberView {
    pub prefix: Seq<char>,
    pub pattern: Seq<char>,
    /// Whether the subscriber has begun to stream: its fan-out exists.
    pub streaming: bool,
    /// Whether the fan-out exists and is open.
    pub open: bool,
}

impl SubscriberView {
    /// The pattern that the subscriber subscribes to, prefix included.
    pub open spec fn full_pattern(self) -> Seq<char> {
        prefixed(self.prefix, self.pattern)
    }
}

/// What the one task needs that drains the bus into the fan-out: the pattern
/// to subscribe to, and a sender of the fan-out.
#[verifier::reject_recursive_types(RM)]
pub struct Drain<RM> {
    pub pattern: String,
    pub sender: Sender<RM>,
}

/// What a call for one more stream gives: a receiver of the fan-out, and on
/// the first call what the drain task needs.
#[verifier::reject_recursive_types(RM)]
pub struct Stream<RM> {
    pub drain: Option<Drain<RM>>,
    pub receiver: Receiver<RM>,
}

impl<RM: BusMessage + StreamMsg> View for RedisSubscriber<RM> {
    type V = SubscriberView;

    closed spec fn view(&self) -> SubscriberView {
        SubscriberView {
            prefix: self.key_prefix@,
            pattern: self.pattern@,
            streaming: self.source_stream is Some,
            open: self.source_stream is Some && self.source_stream->0.is_open(),
        }
    }
}

impl<RM: BusMessage + StreamMsg> PrefixedPubSub for RedisSubscriber<RM> {
    open spec fn prefix_of(handler: SubscriberView) -> Seq<char> {
        handler.prefix
    }

    open spec fn prefix_set(handler: SubscriberView, prefix: Seq<char>) -> SubscriberView {
        SubscriberView { prefix, ..handler }
    }

    fn get_prefix(&self) -> (prefix: String) {
        self.key_prefix.clone()
    }

    fn set_prefix(&mut self, prefix: &str) -> (handler: &mut Self) {
        self.key_prefix = prefix.to_owned();
        self
    }
}

impl<RM: BusMessage + StreamMsg> RedisSubscriber<RM> {
    /// A subscriber to every key under the usual prefix, which has not begun
    /// to stream.
    pub fn new() -> (subscriber: Self)
        ensures
            subscriber@ == (SubscriberView {
                prefix: KEY_PREFIX@,
                pattern: "*"@,
                streaming: false,
                open: false,
            }),
    {
        RedisSubscriber {
            key_prefix: KEY_PREFIX.to_owned(),
            pattern: String::from_str("*"),
            source_stream: None,
        }
    }

    /// Sets the pattern to subscribe to.
    pub fn with_pattern(&mut self, pattern: &str) -> (subscriber: &mut Self)
        ensures
            subscriber@ == (SubscriberView { pattern: pattern@, ..old(self)@ }),
            *final(self) == *final(subscriber),
    {
        self.pattern = pattern.to_owned();
        self
    }

    /// The pattern that the subscriber subscribes to, prefix included.
    pub fn get_pattern(&self) -> (pattern: String)
        ensures
            pattern@ == self@.full_pattern(),
    {
        key(self.key_prefix.as_str(), self.pattern.as_str())
    }

    /// The local fan-out, once the subscriber has begun to stream.
    pub fn source_stream(&self) -> (source: &Option<SourceStream<RM>>)
        ensures
            source is Some <==> self@.streaming,
            source is Some ==> source->0.is_open() == self@.open,
    {
        &self.source_stream
    }

    /// Begins to stream: makes the fan-out where there is none, and hands
    /// back what the task needs that drains the bus into it. With a fan-out
    /// that was closed there is nothing to drain into.
    pub fn start_streaming(&mut self) -> (drain: Result<Drain<RM>, StreamError>)
        ensures
            final(self)@ == (SubscriberView {
                streaming: true,
                open: !old(self)@.streaming || old(self)@.open,
                ..old(self)@
            }),
            match drain {
                Ok(drain) => final(self)@.open && drain.pattern@ == old(self)@.full_pattern(),
                Err(error) => !final(self)@.open && error == StreamError::Consumed,
            },
    {
        if self.source_stream.is_none() {
            self.source_stream = Some(SourceStream::new());
        }
        let pattern = key(self.key_prefix.as_str(), self.pattern.as_str());
        match &self.source_stream {
            Some(stream) => match stream.sender() {
                Some(sender) => Ok(Drain { pattern, sender }),
                None => Err(StreamError::Consumed),
            },
            None => Err(StreamError::Consumed),
        }
    }

    /// Asks for one more stream of decoded messages. The first call begins to
    /// stream and hands back, with the receiver, what the drain task needs;
    /// every later call hands back a receiver only. With a fan-out that was
    /// closed there is no stream.
    pub fn stream(&mut self) -> (stream: Result<Stream<RM>, StreamError>)
        ensures
            final(self)@ == (SubscriberView {
                streaming: true,
                open: !old(self)@.streaming || old(self)@.open,
                ..old(self)@
            }),
            match stream {
                Ok(stream) => final(self)@.open && match stream.drain {
                    Some(drain) => !old(self)@.streaming && drain.pattern@
                        == old(self)@.full_pattern(),
                    None => old(self)@.streaming,
                },
                Err(error) => !final(self)@.open && error == StreamError::Consumed,
            },
    {
        let drain = if self.source_stream.is_none() {
            match self.start_streaming() {
                Ok(drain) => Some(drain),
                Err(error) => {
                    return Err(error);
                },
            }
        } else {
            None
        };
        match &self.source_stream {
            Some(source) => match source.subscribe() {
                Ok(receiver) => Ok(Stream { drain, receiver }),
                Err(error) => Err(error),
            },
            None => Err(StreamError::Consumed),
        }
    }

    /// Notes that the connection to the bus has ended: the fan-out is closed,
    /// so that every stream ends once the drain task has dropped its sender,
    /// without an error.
    pub fn upstream_closed(&mut self)
        ensures
            final(self)@ == (SubscriberView { open: false, ..old(self)@ }),
    {
        let mut source: Option<SourceStream<RM>> = None;
        core::mem::swap(&mut self.source_stream, &mut source);
        match source {
            Some(mut stream) => {
                stream.close();
                self.source_stream = Some(stream);
            },
            None => {},
        }
    }

    /// What the drain task hands to the fan-out for a payload: the value that
    /// it reads as, or nothing where it is malformed. A malformed payload is
    /// dropped and ends nothing. The message of a readable value is read as
    /// that value.
    pub fn decode(payload: &str) -> (value: Option<RM>)
        ensures
            match value {
                Some(v) => RM::parse(payload@) == Ok::<RM::V, DecodeError>(v@),
                None => RM::parse(payload@) is Err,
            },
            forall|sent: RM::V|
                RM::readable(sent) && payload@ == #[trigger] RM::message(sent) ==> value is Some
                    && value->0@ == sent,
    {
        proof {
            assert forall|sent: RM::V|
                RM::readable(sent) && payload@ == #[trigger] RM::message(sent) implies RM::parse(
                payload@,
            ) == Ok::<RM::V, DecodeError>(sent) by {
                RM::round_trip(sent);
            }
        }
        match RM::from_message(payload) {
            Ok(value) => Some(value),
            Err(_) => None,
        }
    }
}

} // verus!
