//! Keys of the bus, and the prefix that publishers and subscribers put before
//! them.

use vstd::prelude::*;

pub mod publish;
pub mod stream;
pub mod subscribe;

verus! {

/// The prefix that publishers and subscribers start with.
pub const KEY_PREFIX: &'static str = "rustler";

/// The key of the bus for `key` under `prefix`: the key alone where the prefix
/// is empty, else the prefix, a colon and the key.
pub open spec fn prefixed(prefix: Seq<char>, key: Seq<char>) -> Seq<char> {
    if prefix.len() == 0 {
        key
    } else {
        prefix + seq![':'] + key
    }
}

/// The key of the bus for `key` under `prefix`.
pub fn key(prefix: &str, name: &str) -> (full: String)
    ensures
        full@ == prefixed(prefix@, name@),
{
    if prefix.is_empty() {
        name.to_owned()
    } else {
        let mut full = prefix.to_owned();
        full.push(':');
        full.append(name);
        full
    }
}

/// A publisher or subscriber whose keys start with a prefix that can be set.
pub trait PrefixedPubSub: View + Sized {
    /// The prefix of a handler, over its view.
    spec fn prefix_of(handler: Self::V) -> Seq<char>;

    /// The handler with its prefix replaced and nothing else changed, over its
    /// view.
    spec fn prefix_set(handler: Self::V, prefix: Seq<char>) -> Self::V;

    /// The prefix in use.
    fn get_prefix(&self) -> (prefix: String)
        ensures
            prefix@ == Self::prefix_of(self@),
    ;

    /// Replaces the prefix.
    fn set_prefix(&mut self, prefix: &str) -> (handler: &mut Self)
        ensures
            handler@ == Self::prefix_set(old(self)@, prefix@),
            *final(self) == *final(handler),
    ;

    /// Replaces the prefix.
    fn with_prefix(&mut self, prefix: &str) -> (handler: &mut Self)
        ensures
            handler@ == Self::prefix_set(old(self)@, prefix@),
            *final(self) == *final(handler),
    {
        self.set_prefix(prefix)
    }

    /// Removes the prefix: keys are then used as they are.
    fn without_prefix(&mut self) -> (handler: &mut Self)
        ensures
            handler@ == Self::prefix_set(old(self)@, Seq::<char>::empty()),
            *final(self) == *final(handler),
    {
        proof {
            reveal_strlit("");
            assert(""@ =~= Seq::<char>::empty());
        }
        self.set_prefix("")
    }
}

} // verus!
