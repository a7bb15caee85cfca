//! Addresses, and the network interfaces of this machine.
use vstd::prelude::*;

verus! {

/// The address family that a socket is created in.
#[derive(Clone, Copy, Debug, PartialEq, Eq, Structural)]
pub enum Domain {
    IPV4,
    IPV6,
}

/// An IPv4 address, as its four octets in the order they are written.
#[derive(Clone, Copy, Debug, PartialEq, Eq)]
pub struct Ipv4Addr {
    pub octets: [u8; 4],
}

/// An IPv6 address, as its eight segments in the order they are written.
#[derive(Clone, Copy, Debug, PartialEq, Eq)]
pub struct Ipv6Addr {
    pub segments: [u16; 8],
}

impl Ipv4Addr {
    pub open spec fn of(a: u8, b: u8, c: u8, d: u8) -> Ipv4Addr {
        Ipv4Addr { octets: [a, b, c, d] }
    }

    /// The address `a.b.c.d`.
    pub fn new(a: u8, b: u8, c: u8, d: u8) -> (ip: Ipv4Addr)
        ensures
            ip == Ipv4Addr::of(a, b, c, d),
    {
        Ipv4Addr { octets: [a, b, c, d] }
    }

    /// Whether this is a loopback address: one in `127.0.0.0/8`.
    pub fn is_loopback(&self) -> (r: bool)
        ensures
            r == (self.octets[0] == 127),
    {
        self.octets[0] == 127
    }
}

impl Ipv6Addr {
    pub open spec fn of(s0: u16, s1: u16, s2: u16, s3: u16, s4: u16, s5: u16, s6: u16, s7: u16) -> Ipv6Addr {
        Ipv6Addr { segments: [s0, s1, s2, s3, s4, s5, s6, s7] }
    }

    /// The address `s0:s1:s2:s3:s4:s5:s6:s7`.
    pub fn new(s0: u16, s1: u16, s2: u16, s3: u16, s4: u16, s5: u16, s6: u16, s7: u16) -> (ip: Ipv6Addr)
        ensures
            ip == Ipv6Addr::of(s0, s1, s2, s3, s4, s5, s6, s7),
    {
        Ipv6Addr { segments: [s0, s1, s2, s3, s4, s5, s6, s7] }
    }

    /// Whether this is the loopback address `::1`.
    pub fn is_loopback(&self) -> (r: bool)
        ensures
            r == (*self == Ipv6Addr::of(0, 0, 0, 0, 0, 0, 0, 1)),
    {
        let s = &self.segments;
        let r = s[0] == 0 && s[1] == 0 && s[2] == 0 && s[3] == 0 && s[4] == 0 && s[5] == 0
            && s[6] == 0 && s[7] == 1;
        proof {
            if r {
                assert(self.segments =~= Ipv6Addr::of(0, 0, 0, 0, 0, 0, 0, 1).segments);
            }
        }
        r
    }
}

/// An IP address of either family.
#[derive(Clone, Copy, Debug, PartialEq, Eq)]
pub enum IpAddr {
    V4(Ipv4Addr),
    V6(Ipv6Addr),
}

impl IpAddr {
    /// The address family that the address belongs to.
    pub open spec fn domain(self) -> Domain {
        match self {
            IpAddr::V4(_) => Domain::IPV4,
            IpAddr::V6(_) => Domain::IPV6,
        }
    }

    /// Loopback addresses are those in `127.0.0.0/8`, and `::1`.
    pub open spec fn loopback(self) -> bool {
        match self {
            IpAddr::V4(ip) => ip.octets[0] == 127,
            IpAddr::V6(ip) => ip == Ipv6Addr::of(0, 0, 0, 0, 0, 0, 0, 1),
        }
    }
}

/// The address of a UDP socket.
#[allow(inconsistent_fields)]
#[derive(Clone, Copy, Debug, PartialEq, Eq)]
pub enum SocketAddr {
    V4 { ip: Ipv4Addr, port: u16 },
    V6 { ip: Ipv6Addr, port: u16, flowinfo: u32, scope_id: u32 },
}

impl SocketAddr {
    /// Port `port` of `ip`; an IPv6 address gets no flow label and no scope.
    pub open spec fn of(ip: IpAddr, port: u16) -> SocketAddr {
        match ip {
            IpAddr::V4(ip) => SocketAddr::V4 { ip, port },
            IpAddr::V6(ip) => SocketAddr::V6 { ip, port, flowinfo: 0, scope_id: 0 },
        }
    }

    pub open spec fn domain(self) -> Domain {
        match self {
            SocketAddr::V4 { .. } => Domain::IPV4,
            SocketAddr::V6 { .. } => Domain::IPV6,
        }
    }

    /// Port `port` of `ip`; an IPv6 address gets no flow label and no scope.
    pub fn new(ip: IpAddr, port: u16) -> (addr: SocketAddr)
        ensures
            addr == SocketAddr::of(ip, port),
    {
        match ip {
            IpAddr::V4(ip) => SocketAddr::V4 { ip, port },
            IpAddr::V6(ip) => SocketAddr::V6 { ip, port, flowinfo: 0, scope_id: 0 },
        }
    }
}

/// One address that a network interface of this machine has.
#[derive(Clone, Copy, Debug, PartialEq, Eq)]
pub struct Interface {
    pub ip: IpAddr,
}

impl Interface {
    /// Whether the interface is a loopback interface, which its address tells.
    pub fn is_loopback(&self) -> (r: bool)
        ensures
            r == self.ip.loopback(),
    {
        match &self.ip {
            IpAddr::V4(ip) => ip.is_loopback(),
            IpAddr::V6(ip) => ip.is_loopback(),
        }
    }
}

#[verifier::external_type_specification]
#[verifier::external_body]
pub struct ExIoError(std::io::Error);

/// What listing the interfaces gave: the interfaces, or the error that it failed with.
pub type Listing = Result<Vec<Interface>, std::io::Error>;

/// Calls `if_addrs::get_if_addrs`, and keeps the address of each interface that it lists.
///
/// Nothing is claimed of the result: which addresses this machine has, and whether they can
/// be listed, may change from one call to the next.
#[verifier::external_body]
fn get_if_addrs() -> (r: Listing) {
    let listed = if_addrs::get_if_addrs()?;
    let interfaces = listed.into_iter().map(|iface| Interface {
        ip: match iface.addr {
            if_addrs::IfAddr::V4(a) => IpAddr::V4(Ipv4Addr { octets: a.ip.octets() }),
            if_addrs::IfAddr::V6(a) => IpAddr::V6(Ipv6Addr { segments: a.ip.segments() }),
        },
    });
    Ok(interfaces.collect())
}

/// The interfaces that are known after a listing: none if it failed.
pub open spec fn listed(outcome: Listing) -> Seq<Interface> {
    match outcome {
        Ok(interfaces) => interfaces@,
        Err(_) => seq![],
    }
}

/// Whether `outcome` is one that a call of `get_if_addrs` gives on this machine. Which ones
/// those are is left open: it can only be learned of an outcome by making the call.
pub closed spec fn listing_gives(outcome: Listing) -> bool {
    call_ensures(get_if_addrs, (), outcome)
}

/// Calls `list`, and says of the result that it came from there.
fn call<L: Fn() -> Listing>(list: L) -> (r: Listing)
    requires
        call_requires(list, ()),
    ensures
        call_ensures(list, (), r),
{
    list()
}

/// Lists the interfaces of this machine.
pub fn list_interfaces() -> (r: Listing)
    ensures
        listing_gives(r),
{
    call(get_if_addrs)
}

} // verus!
