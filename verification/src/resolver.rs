//! The host's own addresses, settled from four independent lookups.
//!
//! The caller runs the four lookups side by side, each under the same time
//! limit, and reports what became of each as a [`Lookup`]. [`resolve`] turns
//! the four reports into a [`HostInfo`]. No lookup can fail the whole: one
//! that went wrong leaves its own field absent and touches no other.

use crate::address::{IpAddress, Ipv4Address, Ipv6Address};
use vstd::prelude::*;

verus! {

/// The time limit of each lookup, in seconds.
pub const LOOKUP_TIMEOUT_SECS: u64 = 2;

/// What became of one lookup.
#[derive(Clone, Copy, Debug, PartialEq, Eq, Structural)]
pub enum Lookup {
    /// The lookup produced an address, of whatever family.
    Answered(IpAddress),
    /// The lookup reported an error or found no address.
    Failed,
    /// The lookup was still running when its time was up.
    TimedOut,
}

/// The addresses of the host, each present only if its lookup found it.
#[derive(Clone, Copy, Debug, PartialEq, Eq, Structural)]
pub struct HostInfo {
    pub local_ipv4: Option<Ipv4Address>,
    pub public_ipv4: Option<Ipv4Address>,
    pub local_ipv6: Option<Ipv6Address>,
    pub public_ipv6: Option<Ipv6Address>,
}

impl Lookup {
    /// The IPv4 address that a lookup settles to: the one it answered with,
    /// if it answered and the answer is of that family.
    pub open spec fn spec_ipv4(&self) -> Option<Ipv4Address> {
        match *self {
            Lookup::Answered(address) => address.spec_ipv4(),
            Lookup::Failed => None,
            Lookup::TimedOut => None,
        }
    }

    /// The IPv6 address that a lookup settles to: the one it answered with,
    /// if it answered and the answer is of that family.
    pub open spec fn spec_ipv6(&self) -> Option<Ipv6Address> {
        match *self {
            Lookup::Answered(address) => address.spec_ipv6(),
            Lookup::Failed => None,
            Lookup::TimedOut => None,
        }
    }

    /// Settles a lookup for an IPv4 address.
    #[verifier::when_used_as_spec(spec_ipv4)]
    pub fn ipv4(&self) -> (address: Option<Ipv4Address>)
        ensures
            address == self.spec_ipv4(),
            address is Some <==> (*self matches Lookup::Answered(found) && found is V4),
    {
        match self {
            Lookup::Answered(address) => address.ipv4(),
            Lookup::Failed => None,
            Lookup::TimedOut => None,
        }
    }

    /// Settles a lookup for an IPv6 address.
    #[verifier::when_used_as_spec(spec_ipv6)]
    pub fn ipv6(&self) -> (address: Option<Ipv6Address>)
        ensures
            address == self.spec_ipv6(),
            address is Some <==> (*self matches Lookup::Answered(found) && found is V6),
    {
        match self {
            Lookup::Answered(address) => address.ipv6(),
            Lookup::Failed => None,
            Lookup::TimedOut => None,
        }
    }
}

/// The host information that four lookups settle to.
pub open spec fn resolved(
    local_v4: Lookup,
    public_v4: Lookup,
    local_v6: Lookup,
    public_v6: Lookup,
) -> HostInfo {
    HostInfo {
        local_ipv4: local_v4.spec_ipv4(),
        public_ipv4: public_v4.spec_ipv4(),
        local_ipv6: local_v6.spec_ipv6(),
        public_ipv6: public_v6.spec_ipv6(),
    }
}

/// Settles the four lookups of a host into its [`HostInfo`].
///
/// A field is present exactly if its own lookup answered with an address of
/// the field's family, and then holds that address. There is no input on
/// which this fails.
pub fn resolve(local_v4: Lookup, public_v4: Lookup, local_v6: Lookup, public_v6: Lookup) -> (info:
    HostInfo)
    ensures
        info == resolved(local_v4, public_v4, local_v6, public_v6),
{
    HostInfo {
        local_ipv4: local_v4.ipv4(),
        public_ipv4: public_v4.ipv4(),
        local_ipv6: local_v6.ipv6(),
        public_ipv6: public_v6.ipv6(),
    }
}

/// A lookup that hangs until its time is up, fails, or answers with an
/// address of the other family leaves its field absent.
pub proof fn lemma_unsettled_lookup_is_absent(lookup: Lookup)
    ensures
        lookup == Lookup::TimedOut || lookup == Lookup::Failed ==> lookup.spec_ipv4() is None
            && lookup.spec_ipv6() is None,
        lookup matches Lookup::Answered(address) ==> (lookup.spec_ipv4() is None <==> address is V6)
            && (lookup.spec_ipv6() is None <==> address is V4),
{
}

/// Each field depends on its own lookup and on nothing else: whatever
/// becomes of the other three lookups, a field settles to the same value.
pub proof fn lemma_lookups_are_independent(
    local_v4: Lookup,
    public_v4: Lookup,
    local_v6: Lookup,
    public_v6: Lookup,
    other_local_v4: Lookup,
    other_public_v4: Lookup,
    other_local_v6: Lookup,
    other_public_v6: Lookup,
)
    ensures
        ({
            let info = resolved(local_v4, public_v4, local_v6, public_v6);
            let other = resolved(other_local_v4, other_public_v4, other_local_v6, other_public_v6);
            &&& local_v4 == other_local_v4 ==> info.local_ipv4 == other.local_ipv4
            &&& public_v4 == other_public_v4 ==> info.public_ipv4 == other.public_ipv4
            &&& local_v6 == other_local_v6 ==> info.local_ipv6 == other.local_ipv6
            &&& public_v6 == other_public_v6 ==> info.public_ipv6 == other.public_ipv6
        }),
{
}

} // verus!
