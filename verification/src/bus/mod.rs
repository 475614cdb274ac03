//! What a value must offer to travel over the bus: a key, a snapshot of its
//! fields, and a one-line message that can be read back.

use vstd::prelude::*;

pub mod redis;

verus! {

/// Why a bus message could not be read back into a value.
#[derive(Debug, Clone, Copy, PartialEq, Eq, Structural)]
pub enum DecodeError {
    /// The message does not split into the number of fields that the value has.
    FieldCount { found: usize },
    /// The field at this position, counted from zero, is no number of the kind
    /// that the value holds there.
    InvalidField { index: usize },
}

/// A value that can be written as a snapshot: an ordered list of field names
/// with their texts.
pub trait ToBusVal: View {
    /// The snapshot of a value, over its view.
    spec fn bus_val(value: Self::V) -> Seq<(Seq<char>, Seq<char>)>;

    /// The snapshot of this value.
    fn to_bus_val(&self) -> (fields: Vec<(String, String)>)
        ensures
            fields.len() == Self::bus_val(self@).len(),
            forall|i: int|
                0 <= i < fields.len() ==> (#[trigger] fields[i]).0@ == Self::bus_val(self@)[i].0
                    && fields[i].1@ == Self::bus_val(self@)[i].1,
    ;
}

/// A value that names the bus key it is stored and announced under.
pub trait ToBusKey: View {
    /// The key of a value, over its view.
    spec fn bus_key(value: Self::V) -> Seq<char>;

    /// The key of this value.
    fn to_bus_key(&self) -> (key: String)
        ensures
            key@ == Self::bus_key(self@),
    ;
}

/// A value that can be written as a one-line message and read back from one.
pub trait ToFromBusMessage: View + Sized {
    /// The message of a value, over its view.
    spec fn message(value: Self::V) -> Seq<char>;

    /// What a message reads back as: the view of a value, or the reason why
    /// it is none.
    spec fn parse(msg: Seq<char>) -> Result<Self::V, DecodeError>;

    /// Whether a value can be told apart again from its message.
    spec fn readable(value: Self::V) -> bool;

    /// A readable value comes back from its own message as it was.
    proof fn round_trip(value: Self::V)
        requires
            Self::readable(value),
        ensures
            Self::parse(Self::message(value)) == Ok::<Self::V, DecodeError>(value),
    ;

    /// The message of this value.
    fn as_message(&self) -> (msg: String)
        ensures
            msg@ == Self::message(self@),
    ;

    /// Reads a message back. A malformed message is an error, never a panic.
    fn from_message(msg: &str) -> (value: Result<Self, DecodeError>)
        ensures
            match value {
                Ok(v) => Self::parse(msg@) == Ok::<Self::V, DecodeError>(v@),
                Err(e) => Self::parse(msg@) == Err::<Self::V, DecodeError>(e),
            },
    ;
}

/// A value that the bus can carry: one with a key, a snapshot and a message.
pub trait BusMessage: ToBusVal + ToBusKey + ToFromBusMessage + Clone + PartialEq {

}

} // verus!
