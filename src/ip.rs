use vstd::prelude::*;

verus! {

/// A client address as plain numbers: an IPv4 address as its 32 bits, an
/// IPv6 address as its 128 bits, both in network order.
#[derive(Clone, Copy, Debug, PartialEq, Eq, Structural, Hash)]
pub enum IpAddress {
    V4(u32),
    V6(u128),
}

} // verus!
