//! Addresses: the octets of an IP address, a socket address, the SSDP group,
//! and a datagram with the address it is to be sent to.

use vstd::prelude::*;

verus! {

/// An IP address, held as its octets in network order.
#[derive(Clone, Copy, Debug, PartialEq, Eq)]
pub enum IpAddress {
    V4([u8; 4]),
    V6([u8; 16]),
}

/// The two families of IP addresses.
#[derive(Clone, Copy, Debug, PartialEq, Eq, Structural)]
pub enum Family {
    V4,
    V6,
}

impl View for IpAddress {
    type V = Seq<u8>;

    /// The octets of the address: four for IPv4, sixteen for IPv6.
    open spec fn view(&self) -> Seq<u8> {
        match *self {
            IpAddress::V4(a) => a@,
            IpAddress::V6(a) => a@,
        }
    }
}

impl IpAddress {
    /// The family that the address belongs to.
    pub open spec fn spec_family(self) -> Family {
        match self {
            IpAddress::V4(_) => Family::V4,
            IpAddress::V6(_) => Family::V6,
        }
    }

    /// The family that the address belongs to.
    #[verifier::when_used_as_spec(spec_family)]
    pub fn family(self) -> (family: Family)
        ensures
            family == self.spec_family(),
    {
        match self {
            IpAddress::V4(_) => Family::V4,
            IpAddress::V6(_) => Family::V6,
        }
    }

    /// The address of `family` that stands for no address in particular: all
    /// octets zero.
    pub open spec fn spec_unspecified(family: Family) -> IpAddress {
        match family {
            Family::V4 => IpAddress::V4([0, 0, 0, 0]),
            Family::V6 => IpAddress::V6([0, 0, 0, 0, 0, 0, 0, 0, 0, 0, 0, 0, 0, 0, 0, 0]),
        }
    }

    /// The address of `family` that stands for no address in particular.
    #[verifier::when_used_as_spec(spec_unspecified)]
    pub fn unspecified(family: Family) -> (ip: IpAddress)
        ensures
            ip == IpAddress::spec_unspecified(family),
    {
        match family {
            Family::V4 => IpAddress::V4([0, 0, 0, 0]),
            Family::V6 => IpAddress::V6([0, 0, 0, 0, 0, 0, 0, 0, 0, 0, 0, 0, 0, 0, 0, 0]),
        }
    }

    /// The address that a sequence of octets stands for, if it has the length of one.
    pub open spec fn from_octets(octets: Seq<u8>) -> Option<IpAddress> {
        if octets.len() == 4 {
            Some(IpAddress::V4([octets[0], octets[1], octets[2], octets[3]]))
        } else if octets.len() == 16 {
            Some(
                IpAddress::V6(
                    [
                        octets[0],
                        octets[1],
                        octets[2],
                        octets[3],
                        octets[4],
                        octets[5],
                        octets[6],
                        octets[7],
                        octets[8],
                        octets[9],
                        octets[10],
                        octets[11],
                        octets[12],
                        octets[13],
                        octets[14],
                        octets[15],
                    ],
                ),
            )
        } else {
            None
        }
    }

    /// Reads an address from its octets; any length but 4 and 16 gives `None`.
    pub fn try_from_vec(v: Vec<u8>) -> (r: Option<IpAddress>)
        ensures
            r == IpAddress::from_octets(v@),
    {
        IpAddress::try_from_slice(v.as_slice())
    }

    /// Reads an address from borrowed octets; any length but 4 and 16 gives `None`.
    pub fn try_from_slice(v: &[u8]) -> (r: Option<IpAddress>)
        ensures
            r == IpAddress::from_octets(v@),
    {
        if v.len() == 4 {
            Some(IpAddress::V4([v[0], v[1], v[2], v[3]]))
        } else if v.len() == 16 {
            Some(
                IpAddress::V6(
                    [
                        v[0],
                        v[1],
                        v[2],
                        v[3],
                        v[4],
                        v[5],
                        v[6],
                        v[7],
                        v[8],
                        v[9],
                        v[10],
                        v[11],
                        v[12],
                        v[13],
                        v[14],
                        v[15],
                    ],
                ),
            )
        } else {
            None
        }
    }

    /// The octets of the address, in order.
    pub fn octets(&self) -> (r: Vec<u8>)
        ensures
            r@ == self@,
    {
        match self {
            IpAddress::V4(a) => vstd::slice::slice_to_vec(a.as_slice()),
            IpAddress::V6(a) => vstd::slice::slice_to_vec(a.as_slice()),
        }
    }
}

/// An IP address together with a port.
#[derive(Clone, Copy, Debug, PartialEq, Eq)]
pub struct SocketAddress {
    pub ip: IpAddress,
    pub port: u16,
}

impl SocketAddress {
    /// Where to bind a socket of `family` that is to have a port of its own,
    /// picked by the system: the unspecified address, port 0.
    pub open spec fn spec_ephemeral(family: Family) -> SocketAddress {
        SocketAddress { ip: IpAddress::spec_unspecified(family), port: 0 }
    }

    /// Where to bind a socket of `family` that is to have a port of its own.
    #[verifier::when_used_as_spec(spec_ephemeral)]
    pub fn ephemeral(family: Family) -> (addr: SocketAddress)
        ensures
            addr == SocketAddress::spec_ephemeral(family),
    {
        SocketAddress { ip: IpAddress::unspecified(family), port: 0 }
    }

    /// Where to bind a socket that is to hear what is sent to `group`: the
    /// unspecified address of the group's family, with the group's port.
    pub open spec fn spec_listening_to(group: SocketAddress) -> SocketAddress {
        SocketAddress { ip: IpAddress::spec_unspecified(group.ip.spec_family()), port: group.port }
    }

    /// Where to bind a socket that is to hear what is sent to `group`.
    #[verifier::when_used_as_spec(spec_listening_to)]
    pub fn listening_to(group: SocketAddress) -> (addr: SocketAddress)
        ensures
            addr == SocketAddress::spec_listening_to(group),
    {
        SocketAddress { ip: IpAddress::unspecified(group.ip.family()), port: group.port }
    }
}

/// The port on which SSDP is spoken.
pub const DISCOVERY_PORT: u16 = 1900;

/// The multicast group and port to which SSDP searches are sent.
pub open spec fn discovery_group() -> SocketAddress {
    SocketAddress { ip: IpAddress::V4([239, 255, 255, 250]), port: DISCOVERY_PORT }
}

/// The multicast group and port to which SSDP searches are sent:
/// 239.255.255.250, port 1900.
pub fn discovery_address() -> (addr: SocketAddress)
    ensures
        addr == discovery_group(),
{
    SocketAddress { ip: IpAddress::V4([239, 255, 255, 250]), port: DISCOVERY_PORT }
}

/// Bytes to send as one datagram, and where to send them.
#[derive(Debug, PartialEq, Eq)]
pub struct Transmission {
    pub payload: Vec<u8>,
    pub destination: SocketAddress,
}

/// A [`Transmission`] as plain values.
pub struct TransmissionView {
    pub payload: Seq<u8>,
    pub destination: SocketAddress,
}

impl View for Transmission {
    type V = TransmissionView;

    open spec fn view(&self) -> TransmissionView {
        TransmissionView { payload: self.payload@, destination: self.destination }
    }
}

/// Reading back the octets of an address gives that address.
pub proof fn lemma_octets_round_trip(ip: IpAddress)
    ensures
        IpAddress::from_octets(ip@) == Some(ip),
{
    match ip {
        IpAddress::V4(a) => {
            assert(a@.len() == 4);
            let b: [u8; 4] = [a@[0], a@[1], a@[2], a@[3]];
            assert(b@ =~= a@);
            assert(b == a);
        },
        IpAddress::V6(a) => {
            assert(a@.len() == 16);
            let b: [u8; 16] = [
                a@[0],
                a@[1],
                a@[2],
                a@[3],
                a@[4],
                a@[5],
                a@[6],
                a@[7],
                a@[8],
                a@[9],
                a@[10],
                a@[11],
                a@[12],
                a@[13],
                a@[14],
                a@[15],
            ];
            assert(b@ =~= a@);
            assert(b == a);
        },
    }
}

/// Octets are read as an address exactly when there are 4 or 16 of them, and
/// the address read has those octets.
pub proof fn lemma_from_octets_exact(octets: Seq<u8>)
    ensures
        IpAddress::from_octets(octets) is Some <==> (octets.len() == 4 || octets.len() == 16),
        IpAddress::from_octets(octets) matches Some(ip) ==> ip@ == octets,
{
    if let Some(ip) = IpAddress::from_octets(octets) {
        assert(ip@ =~= octets);
    }
}

} // verus!
