//! The two address families, and how a multicast socket is set up in each.
use crate::error::{IoError, IoErrorView};
use crate::net::{Domain, IpAddr, Ipv4Addr, Ipv6Addr, SocketAddr};
use crate::{error, MDNS_PORT};
use nix::errno::Errno;
use vstd::prelude::*;

verus! {

/// One operation on a socket that is being set up.
#[allow(inconsistent_fields)]
#[derive(Clone, Copy, Debug, PartialEq, Eq)]
pub enum SocketOp {
    /// Create a UDP datagram socket in the family `domain`.
    Create { domain: Domain },
    SetReuseAddress(bool),
    SetNonblocking(bool),
    SetReusePort(bool),
    Bind(SocketAddr),
    /// Join the group on the interface that has the address `interface`.
    JoinMulticastV4 { group: Ipv4Addr, interface: Ipv4Addr },
    /// Join the group on the interface with the index `interface`.
    JoinMulticastV6 { group: Ipv6Addr, interface: u32 },
    /// Switch on the option that has the interface reported that a datagram came in on.
    SetPacketInfo(PacketInfo),
    /// Register the socket with the reactor that polls it.
    Register,
}

/// The socket options that have the interface of a datagram reported.
#[derive(Clone, Copy, Debug, PartialEq, Eq, Structural)]
pub enum PacketInfo {
    Ipv4PacketInfo,
    Ipv6RecvPacketInfo,
}

/// IPv4.
pub enum Inet {
    Family,
}

/// IPv6.
pub enum Inet6 {
    Family,
}

/// An address family that multicast DNS is spoken in.
pub trait AddressFamily {
    /// The addresses of the family.
    type Addr;

    /// The domain that sockets of the family are created in.
    spec fn family() -> Domain;

    /// The address as one of either family.
    spec fn ip(addr: Self::Addr) -> IpAddr;

    /// The address that stands for any address of this machine.
    spec fn any() -> Self::Addr;

    /// The group that multicast DNS messages are sent to.
    spec fn group() -> Self::Addr;

    /// The operation that joins the group `multiaddr`.
    spec fn join(multiaddr: Self::Addr) -> SocketOp;

    /// The option that has the interface of a datagram reported.
    spec fn packet_info() -> PacketInfo;

    /// What the report of a failure to set that option starts with.
    spec fn packet_info_prefix() -> Seq<char>;

    /// Every address of the family is one of its domain.
    proof fn addresses_in_domain(addr: Self::Addr)
        ensures
            Self::ip(addr).domain() == Self::family(),
    ;

    /// The domain that sockets of the family are created in.
    fn domain() -> (r: Domain)
        ensures
            r == Self::family(),
    ;

    /// The address as one of either family.
    fn into_ip(addr: Self::Addr) -> (r: IpAddr)
        ensures
            r == Self::ip(addr),
    ;

    /// The address that stands for any address of this machine.
    fn any_addr() -> (r: Self::Addr)
        ensures
            r == Self::any(),
    ;

    /// The group that multicast DNS messages are sent to.
    fn mdns_group() -> (r: Self::Addr)
        ensures
            r == Self::group(),
    ;

    /// The operation that joins the group `multiaddr`.
    fn join_multicast(multiaddr: &Self::Addr) -> (r: SocketOp)
        ensures
            r == Self::join(*multiaddr),
    ;

    /// The option that has the interface of a datagram reported.
    fn pkt_info() -> (r: PacketInfo)
        ensures
            r == Self::packet_info(),
    ;

    /// The result of setting that option, for the outcome of the system call.
    fn set_pkt_info(outcome: Result<(), Errno>) -> (r: Result<(), IoError>)
        ensures
            match outcome {
                Ok(_) => r is Ok,
                Err(e) => r matches Err(err) && err@ == IoErrorView::of_text(
                    Self::packet_info_prefix(),
                    error::errno_text(e),
                ),
            },
    ;

    /// The operation that creates a UDP socket of the family.
    fn udp_socket() -> (r: SocketOp)
        ensures
            r == (SocketOp::Create { domain: Self::family() }),
    {
        SocketOp::Create { domain: Self::domain() }
    }

    /// The operations, in order, that set up a socket bound to the multicast DNS port and
    /// joined to the multicast DNS group. `reuse_port` says whether the system has the option
    /// that lets several sockets share a port.
    fn bind(reuse_port: bool) -> (r: Vec<SocketOp>)
        ensures
            r@ == bind_plan(
                Self::family(),
                Self::ip(Self::any()),
                Self::join(Self::group()),
                reuse_port,
            ),
    {
        let addr = SocketAddr::new(Self::into_ip(Self::any_addr()), MDNS_PORT);
        let mut plan: Vec<SocketOp> = Vec::new();
        plan.push(Self::udp_socket());
        plan.push(SocketOp::SetReuseAddress(true));
        plan.push(SocketOp::SetNonblocking(true));
        if reuse_port {
            plan.push(SocketOp::SetReusePort(true));
        }
        plan.push(SocketOp::Bind(addr));
        plan.push(Self::join_multicast(&Self::mdns_group()));
        plan
    }
}

/// The operations that set up a socket of the family `domain`, bound to the multicast DNS
/// port of `any` and joined to a group by `join`.
pub open spec fn bind_plan(
    domain: Domain,
    any: IpAddr,
    join: SocketOp,
    reuse_port: bool,
) -> Seq<SocketOp> {
    let before = seq![
        SocketOp::Create { domain },
        SocketOp::SetReuseAddress(true),
        SocketOp::SetNonblocking(true),
    ];
    let shared = if reuse_port {
        before.push(SocketOp::SetReusePort(true))
    } else {
        before
    };
    shared + seq![SocketOp::Bind(SocketAddr::of(any, MDNS_PORT)), join]
}

impl AddressFamily for Inet {
    type Addr = Ipv4Addr;

    open spec fn family() -> Domain {
        Domain::IPV4
    }

    open spec fn ip(addr: Ipv4Addr) -> IpAddr {
        IpAddr::V4(addr)
    }

    /// `0.0.0.0`
    open spec fn any() -> Ipv4Addr {
        Ipv4Addr::of(0, 0, 0, 0)
    }

    /// `224.0.0.251`
    open spec fn group() -> Ipv4Addr {
        Ipv4Addr::of(224, 0, 0, 251)
    }

    /// Joined on the interface that the system picks.
    open spec fn join(multiaddr: Ipv4Addr) -> SocketOp {
        SocketOp::JoinMulticastV4 { group: multiaddr, interface: Ipv4Addr::of(0, 0, 0, 0) }
    }

    open spec fn packet_info() -> PacketInfo {
        PacketInfo::Ipv4PacketInfo
    }

    open spec fn packet_info_prefix() -> Seq<char> {
        "IP_PKTINFO set error: "@
    }

    proof fn addresses_in_domain(addr: Ipv4Addr) {
    }

    fn domain() -> Domain {
        Domain::IPV4
    }

    fn into_ip(addr: Ipv4Addr) -> IpAddr {
        IpAddr::V4(addr)
    }

    fn any_addr() -> Ipv4Addr {
        Ipv4Addr::new(0, 0, 0, 0)
    }

    fn mdns_group() -> Ipv4Addr {
        Ipv4Addr::new(224, 0, 0, 251)
    }

    fn join_multicast(multiaddr: &Ipv4Addr) -> SocketOp {
        SocketOp::JoinMulticastV4 { group: *multiaddr, interface: Ipv4Addr::new(0, 0, 0, 0) }
    }

    fn pkt_info() -> PacketInfo {
        PacketInfo::Ipv4PacketInfo
    }

    fn set_pkt_info(outcome: Result<(), Errno>) -> Result<(), IoError> {
        match outcome {
            Ok(_) => Ok(()),
            Err(e) => Err(IoError::described("IP_PKTINFO set error: ", &e)),
        }
    }
}

impl AddressFamily for Inet6 {
    type Addr = Ipv6Addr;

    open spec fn family() -> Domain {
        Domain::IPV6
    }

    open spec fn ip(addr: Ipv6Addr) -> IpAddr {
        IpAddr::V6(addr)
    }

    /// `::`
    open spec fn any() -> Ipv6Addr {
        Ipv6Addr::of(0, 0, 0, 0, 0, 0, 0, 0)
    }

    /// `ff02::fb`
    open spec fn group() -> Ipv6Addr {
        Ipv6Addr::of(0xff02, 0, 0, 0, 0, 0, 0, 0xfb)
    }

    /// Joined on the interface that the system picks.
    open spec fn join(multiaddr: Ipv6Addr) -> SocketOp {
        SocketOp::JoinMulticastV6 { group: multiaddr, interface: 0 }
    }

    open spec fn packet_info() -> PacketInfo {
        PacketInfo::Ipv6RecvPacketInfo
    }

    open spec fn packet_info_prefix() -> Seq<char> {
        "IPV6_RECV_PKTINFO set error: "@
    }

    proof fn addresses_in_domain(addr: Ipv6Addr) {
    }

    fn domain() -> Domain {
        Domain::IPV6
    }

    fn into_ip(addr: Ipv6Addr) -> IpAddr {
        IpAddr::V6(addr)
    }

    fn any_addr() -> Ipv6Addr {
        Ipv6Addr::new(0, 0, 0, 0, 0, 0, 0, 0)
    }

    fn mdns_group() -> Ipv6Addr {
        Ipv6Addr::new(0xff02, 0, 0, 0, 0, 0, 0, 0xfb)
    }

    fn join_multicast(multiaddr: &Ipv6Addr) -> SocketOp {
        SocketOp::JoinMulticastV6 { group: *multiaddr, interface: 0 }
    }

    fn pkt_info() -> PacketInfo {
        PacketInfo::Ipv6RecvPacketInfo
    }

    fn set_pkt_info(outcome: Result<(), Errno>) -> Result<(), IoError> {
        match outcome {
            Ok(_) => Ok(()),
            Err(e) => Err(IoError::described("IPV6_RECV_PKTINFO set error: ", &e)),
        }
    }
}

} // verus!
