//! Port addresses and routing edges.

use vstd::prelude::*;

verus! {

/// Address of an endpoint in the routing subsystem: a client number and a port
/// number within that client.
#[derive(Clone, Copy, Debug, PartialEq, Eq, Structural, Hash)]
pub struct PortAddress {
    pub client: i32,
    pub port: i32,
}

/// A directed routing link from a sending port to a receiving port.
#[derive(Clone, Copy, Debug, PartialEq, Eq, Structural, Hash)]
pub struct Edge {
    pub sender: PortAddress,
    pub receiver: PortAddress,
}

impl PortAddress {
    /// Whether `self` comes strictly before `other` in the total order on
    /// addresses: by client number first, then by port number.
    pub open spec fn precedes(self, other: PortAddress) -> bool {
        self.client < other.client || (self.client == other.client && self.port < other.port)
    }

    /// Decides `precedes`.
    pub fn is_before(&self, other: &PortAddress) -> (b: bool)
        ensures
            b == self.precedes(*other),
    {
        self.client < other.client || (self.client == other.client && self.port < other.port)
    }
}

/// The order on addresses is a strict total order: no address comes before
/// itself, of two different addresses exactly one comes before the other, and
/// what comes before an address comes before everything after it.
pub proof fn law_address_order_is_total(a: PortAddress, b: PortAddress, c: PortAddress)
    ensures
        !a.precedes(a),
        a != b ==> (a.precedes(b) <==> !b.precedes(a)),
        a.precedes(b) && b.precedes(c) ==> a.precedes(c),
{
}

} // verus!
