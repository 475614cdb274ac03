//! The local fan-out of decoded messages: a bounded broadcast channel from
//! which every stream of a subscriber reads with a receiver of its own.

use tokio::sync::broadcast::{Receiver, Sender};
use vstd::prelude::*;

verus! {

/// The sending half of tokio's broadcast channel. The core stores it and
/// hands out copies.
#[verifier::external_type_specification]
#[verifier::external_body]
#[verifier::reject_recursive_types(T)]
pub struct ExBroadcastSender<T>(Sender<T>);

/// A receiving half of tokio's broadcast channel. The core hands it through.
#[verifier::external_type_specification]
#[verifier::external_body]
#[verifier::reject_recursive_types(T)]
pub struct ExBroadcastReceiver<T>(Receiver<T>);

/// The number of messages that the local fan-out is asked to hold for its
/// receivers; it holds no fewer. A receiver that falls further behind skips
/// to the oldest message that is still held and goes on.
pub const FAN_OUT_SLOTS: usize = 100;

/// A value that the local fan-out can hand to every receiver: one that can be
/// copied.
pub trait StreamMsg: Clone {

}

/// The sender of a new channel of tokio's `broadcast::channel` with room for
/// `capacity` messages. The receiver that comes with it is dropped: receivers
/// are made from the sender. tokio panics on a capacity of zero or of more
/// than half the largest number.
#[verifier::external_body]
fn open_channel<RM: StreamMsg>(capacity: usize) -> (sender: Sender<RM>)
    requires
        0 < capacity <= usize::MAX / 2,
{
    tokio::sync::broadcast::channel(capacity).0
}

/// One more sender of the channel of `sender`, from the `Clone` of tokio's
/// broadcast `Sender`.
#[verifier::external_body]
fn another_sender<RM: StreamMsg>(sender: &Sender<RM>) -> (copy: Sender<RM>) {
    sender.clone()
}

/// A new receiver of the channel of `sender`, from tokio's
/// `broadcast::Sender::subscribe`. It sees the messages sent after this call.
#[verifier::external_body]
fn new_receiver<RM: StreamMsg>(sender: &Sender<RM>) -> (receiver: Receiver<RM>) {
    sender.subscribe()
}

/// Why a stream cannot be had.
#[derive(Debug, Clone, Copy, PartialEq, Eq, Structural)]
pub enum StreamError {
    /// The fan-out was closed: it takes no more receivers.
    Consumed,
}

/// What a receiver of the fan-out got when it asked for the next message.
pub enum Received<RM> {
    /// The next message.
    Item(RM),
    /// The receiver fell behind by this many messages, which are lost to it.
    Lagged(u64),
    /// Every sender is gone: no message will come any more.
    Closed,
}

/// What a stream does with what its receiver got.
pub enum StreamStep<RM> {
    /// Hand this message on.
    Yield(RM),
    /// Hand nothing on and ask for the next message.
    Skip,
    /// End the stream, without an error.
    End,
}

/// What a stream does with what its receiver got: a message is handed on; a
/// receiver that fell behind goes on with what is still held; the stream
/// ends only when every sender is gone.
pub fn next_step<RM>(received: Received<RM>) -> (step: StreamStep<RM>)
    ensures
        step == match received {
            Received::Item(item) => StreamStep::Yield(item),
            Received::Lagged(_) => StreamStep::Skip,
            Received::Closed => StreamStep::<RM>::End,
        },
{
    match received {
        Received::Item(item) => StreamStep::Yield(item),
        Received::Lagged(_) => StreamStep::Skip,
        Received::Closed => StreamStep::End,
    }
}

/// The local fan-out: the sender of a broadcast channel, until it is closed.
#[verifier::reject_recursive_types(RM)]
pub struct SourceStream<RM: StreamMsg> {
    sender: Option<Sender<RM>>,
}

impl<RM: StreamMsg> Default for SourceStream<RM> {
    fn default() -> (stream: Self)
        ensures
            stream.is_open(),
    {
        SourceStream::new()
    }
}

impl<RM: StreamMsg> SourceStream<RM> {
    /// Whether the fan-out still has its sender.
    pub closed spec fn is_open(&self) -> bool {
        self.sender is Some
    }

    /// An open fan-out with the usual number of slots.
    pub fn new() -> (stream: Self)
        ensures
            stream.is_open(),
    {
        SourceStream { sender: Some(open_channel(FAN_OUT_SLOTS)) }
    }

    /// A sender of the fan-out, while it is open.
    pub fn sender(&self) -> (sender: Option<Sender<RM>>)
        ensures
            sender is Some <==> self.is_open(),
    {
        match &self.sender {
            Some(sender) => Some(another_sender(sender)),
            None => None,
        }
    }

    /// A receiver of its own for one more stream, while the fan-out is open.
    pub fn subscribe(&self) -> (receiver: Result<Receiver<RM>, StreamError>)
        ensures
            receiver is Ok <==> self.is_open(),
            receiver is Err ==> receiver == Err::<Receiver<RM>, StreamError>(StreamError::Consumed),
    {
        match &self.sender {
            Some(sender) => Ok(new_receiver(sender)),
            None => Err(StreamError::Consumed),
        }
    }

    /// Closes the fan-out: its sender is dropped. Once the other senders are
    /// gone too, every stream ends.
    pub fn close(&mut self)
        ensures
            !final(self).is_open(),
    {
        self.sender = None;
    }
}

} // verus!
