//! Client counters of the gateway.

use vstd::prelude::*;

verus! {

/// Counters of the clients a gateway has served: those connected now and all
/// that ever connected. Both wrap around at the end of the 64-bit range.
#[derive(Debug, Clone, Copy, PartialEq, Eq)]
pub struct ServerStats {
    total_clients: u64,
    current_clients: u64,
}

impl ServerStats {
    /// The number of clients that ever connected.
    pub closed spec fn total(&self) -> int {
        self.total_clients as int
    }

    /// The number of clients connected now.
    pub closed spec fn current(&self) -> int {
        self.current_clients as int
    }

    /// Fresh counters, both zero.
    pub fn new() -> (stats: Self)
        ensures
            stats.total() == 0,
            stats.current() == 0,
    {
        ServerStats { total_clients: 0, current_clients: 0 }
    }

    /// Counts one more client, both as connected now and in the total.
    pub fn inc_current_clients(&mut self)
        ensures
            final(self).current() == (old(self).current() + 1) % 0x1_0000_0000_0000_0000,
            final(self).total() == (old(self).total() + 1) % 0x1_0000_0000_0000_0000,
    {
        self.current_clients = self.current_clients.wrapping_add(1);
        self.total_clients = self.total_clients.wrapping_add(1);
    }

    /// Counts one client fewer as connected now; the total stays.
    pub fn dec_current_clients(&mut self)
        ensures
            final(self).current() == (old(self).current() - 1) % 0x1_0000_0000_0000_0000,
            final(self).total() == old(self).total(),
    {
        self.current_clients = self.current_clients.wrapping_sub(1);
    }

    /// The number of clients that ever connected.
    pub fn total_clients(&self) -> (n: u64)
        ensures
            n == self.total(),
    {
        self.total_clients
    }

    /// The number of clients connected now.
    pub fn current_clients(&self) -> (n: u64)
        ensures
            n == self.current(),
    {
        self.current_clients
    }
}

} // verus!
