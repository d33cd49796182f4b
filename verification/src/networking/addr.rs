//! Internet addresses as numbers.

use vstd::prelude::*;

verus! {

/// An IPv4 or IPv6 address, as the number that its bytes in network order
/// stand for.
#[derive(Clone, Copy, Debug, PartialEq, Eq, Structural)]
pub enum IpAddr {
    V4(u32),
    V6(u128),
}

impl IpAddr {
    /// The family and the number: what tells two addresses apart.
    pub open spec fn spec_key(self) -> (bool, u128) {
        match self {
            IpAddr::V4(bits) => (false, bits as u128),
            IpAddr::V6(bits) => (true, bits),
        }
    }

    pub fn key(&self) -> (key: (bool, u128))
        ensures
            key == self.spec_key(),
    {
        match *self {
            IpAddr::V4(bits) => (false, bits as u128),
            IpAddr::V6(bits) => (true, bits),
        }
    }

    /// Whether the address is an IPv6 address.
    pub fn is_v6(&self) -> (v6: bool)
        ensures
            v6 == self.spec_key().0,
    {
        match *self {
            IpAddr::V4(_) => false,
            IpAddr::V6(_) => true,
        }
    }
}

} // verus!
