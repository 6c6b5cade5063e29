//! The pair of addresses that a dual-stack host binds on one port.
//!
//! A probe of the scanner and the listeners that later serve the port bind
//! the same pair: the unspecified address of each family, with the one port.
//! Nothing reserves the port between the probe and the listeners, so the
//! later bind can still fail; the caller treats that as fatal.

use crate::address::{AddressFamily, IpAddress, Ipv4Address, Ipv6Address, SocketAddress};
use vstd::prelude::*;

verus! {

/// The two socket addresses of a dual-stack port.
#[derive(Clone, Copy, Debug, PartialEq, Eq, Structural)]
pub struct BindTargets {
    pub v4: SocketAddress,
    pub v6: SocketAddress,
}

/// The address to bind for `family` on `port`.
pub open spec fn spec_bind_target(family: AddressFamily, port: u16) -> SocketAddress {
    SocketAddress { address: IpAddress::spec_unspecified(family), port }
}

/// The pair of addresses to bind on `port`.
pub open spec fn spec_bind_targets(port: u16) -> BindTargets {
    BindTargets {
        v4: spec_bind_target(AddressFamily::V4, port),
        v6: spec_bind_target(AddressFamily::V6, port),
    }
}

/// The address to bind for `family` on `port`: the unspecified address of
/// that family, with the port as given. Port 0 is passed on like any other.
#[verifier::when_used_as_spec(spec_bind_target)]
pub fn bind_target(family: AddressFamily, port: u16) -> (target: SocketAddress)
    ensures
        target == spec_bind_target(family, port),
        target.port == port,
        target.address.spec_family() == family,
{
    SocketAddress { address: IpAddress::unspecified(family), port }
}

/// The pair of addresses to bind on `port`, one of each family, both with
/// the same port.
#[verifier::when_used_as_spec(spec_bind_targets)]
pub fn bind_targets(port: u16) -> (targets: BindTargets)
    ensures
        targets == spec_bind_targets(port),
        targets.v4.port == port,
        targets.v6.port == port,
        targets.v4.address == IpAddress::V4(Ipv4Address { bits: 0 }),
        targets.v6.address == IpAddress::V6(Ipv6Address { bits: 0 }),
{
    BindTargets {
        v4: bind_target(AddressFamily::V4, port),
        v6: bind_target(AddressFamily::V6, port),
    }
}

/// What the host does once the scan is over.
#[derive(Clone, Copy, Debug, PartialEq, Eq, Structural)]
pub enum ListenPlan {
    /// Bind one listener on each of these addresses and serve both.
    Bind(BindTargets),
    /// The scan selected no port: report it and open no listener.
    NoPort,
}

/// The plan that follows from what the scan selected.
pub open spec fn spec_listen_plan(selected: Option<u16>) -> ListenPlan {
    match selected {
        Some(port) => ListenPlan::Bind(spec_bind_targets(port)),
        None => ListenPlan::NoPort,
    }
}

/// Decides what follows the scan: listeners on the port selected, on both
/// families, or none at all where nothing was selected.
#[verifier::when_used_as_spec(spec_listen_plan)]
pub fn listen_plan(selected: Option<u16>) -> (plan: ListenPlan)
    ensures
        plan == spec_listen_plan(selected),
        selected is None <==> plan == ListenPlan::NoPort,
        selected matches Some(port) ==> plan matches ListenPlan::Bind(targets)
            && targets.v4.port == port && targets.v6.port == port,
{
    match selected {
        Some(port) => ListenPlan::Bind(bind_targets(port)),
        None => ListenPlan::NoPort,
    }
}

} // verus!
