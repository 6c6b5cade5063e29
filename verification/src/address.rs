//! Addresses of the two IP families, held as plain numbers.

use vstd::prelude::*;

verus! {

/// The two families a dual-stack host serves.
#[derive(Clone, Copy, Debug, PartialEq, Eq, Structural)]
pub enum AddressFamily {
    V4,
    V6,
}

/// An IPv4 address: its four octets read as one big-endian number.
#[derive(Clone, Copy, Debug, PartialEq, Eq, Structural)]
pub struct Ipv4Address {
    pub bits: u32,
}

/// An IPv6 address: its sixteen octets read as one big-endian number.
#[derive(Clone, Copy, Debug, PartialEq, Eq, Structural)]
pub struct Ipv6Address {
    pub bits: u128,
}

/// An address of either family.
#[derive(Clone, Copy, Debug, PartialEq, Eq, Structural)]
pub enum IpAddress {
    V4(Ipv4Address),
    V6(Ipv6Address),
}

/// An address together with a TCP port.
#[derive(Clone, Copy, Debug, PartialEq, Eq, Structural)]
pub struct SocketAddress {
    pub address: IpAddress,
    pub port: u16,
}

impl IpAddress {
    /// The family an address belongs to.
    pub open spec fn spec_family(&self) -> AddressFamily {
        match *self {
            IpAddress::V4(_) => AddressFamily::V4,
            IpAddress::V6(_) => AddressFamily::V6,
        }
    }

    /// The unspecified address of a family: `0.0.0.0` or `::`.
    pub open spec fn spec_unspecified(family: AddressFamily) -> IpAddress {
        match family {
            AddressFamily::V4 => IpAddress::V4(Ipv4Address { bits: 0 }),
            AddressFamily::V6 => IpAddress::V6(Ipv6Address { bits: 0 }),
        }
    }

    /// The address as an IPv4 address, where it is one.
    pub open spec fn spec_ipv4(&self) -> Option<Ipv4Address> {
        match *self {
            IpAddress::V4(address) => Some(address),
            IpAddress::V6(_) => None,
        }
    }

    /// The address as an IPv6 address, where it is one.
    pub open spec fn spec_ipv6(&self) -> Option<Ipv6Address> {
        match *self {
            IpAddress::V4(_) => None,
            IpAddress::V6(address) => Some(address),
        }
    }

    /// The family an address belongs to.
    #[verifier::when_used_as_spec(spec_family)]
    pub fn family(&self) -> (family: AddressFamily)
        ensures
            family == self.spec_family(),
    {
        match self {
            IpAddress::V4(_) => AddressFamily::V4,
            IpAddress::V6(_) => AddressFamily::V6,
        }
    }

    /// The unspecified address of `family`, which stands for every local
    /// interface when a socket is bound to it.
    #[verifier::when_used_as_spec(spec_unspecified)]
    pub fn unspecified(family: AddressFamily) -> (address: IpAddress)
        ensures
            address == IpAddress::spec_unspecified(family),
            address.spec_family() == family,
    {
        match family {
            AddressFamily::V4 => IpAddress::V4(Ipv4Address { bits: 0 }),
            AddressFamily::V6 => IpAddress::V6(Ipv6Address { bits: 0 }),
        }
    }

    /// The address as an IPv4 address; `None` for an IPv6 address.
    #[verifier::when_used_as_spec(spec_ipv4)]
    pub fn ipv4(&self) -> (address: Option<Ipv4Address>)
        ensures
            address == self.spec_ipv4(),
    {
        match self {
            IpAddress::V4(address) => Some(*address),
            IpAddress::V6(_) => None,
        }
    }

    /// The address as an IPv6 address; `None` for an IPv4 address.
    #[verifier::when_used_as_spec(spec_ipv6)]
    pub fn ipv6(&self) -> (address: Option<Ipv6Address>)
        ensures
            address == self.spec_ipv6(),
    {
        match self {
            IpAddress::V4(_) => None,
            IpAddress::V6(address) => Some(*address),
        }
    }
}

} // verus!
