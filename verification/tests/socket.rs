use mdns_responder::address_family::{AddressFamily, Inet, Inet6, PacketInfo, SocketOp};
use mdns_responder::error::{ErrorKind, IoError};
use mdns_responder::fsm::FSM;
use mdns_responder::net::{Domain, IpAddr, Ipv4Addr, Ipv6Addr, SocketAddr};
use mdns_responder::setup::{Setup, SetupStep};
use mdns_responder::udp_socket::{
    reported_iface, ControlMessage, Iface, Ipv4PktInfo, Ipv6PktInfo, RecvAction, RecvEvent,
    RecvMsg, SendAction, SendEvent, SendRequest, SockAddr, SocketError, UdpSocket,
};
use nix::errno::Errno;
use tokio::io::ReadBuf;

fn plan_v4() -> Vec<SocketOp> {
    let any = Ipv4Addr::new(0, 0, 0, 0);
    vec![
        SocketOp::Create { domain: Domain::IPV4 },
        SocketOp::SetReuseAddress(true),
        SocketOp::SetNonblocking(true),
        SocketOp::SetReusePort(true),
        SocketOp::Bind(SocketAddr::V4 { ip: any, port: 5353 }),
        SocketOp::JoinMulticastV4 { group: Ipv4Addr::new(224, 0, 0, 251), interface: any },
    ]
}

fn plan_v6() -> Vec<SocketOp> {
    let any = Ipv6Addr::new(0, 0, 0, 0, 0, 0, 0, 0);
    vec![
        SocketOp::Create { domain: Domain::IPV6 },
        SocketOp::SetReuseAddress(true),
        SocketOp::SetNonblocking(true),
        SocketOp::Bind(SocketAddr::V6 { ip: any, port: 5353, flowinfo: 0, scope_id: 0 }),
        SocketOp::JoinMulticastV6 {
            group: Ipv6Addr::new(0xff02, 0, 0, 0, 0, 0, 0, 0xfb),
            interface: 0,
        },
    ]
}

fn other(message: &str) -> IoError {
    IoError { kind: ErrorKind::Other, message: message.to_string() }
}

#[test]
fn sockets_are_bound_and_joined() {
    assert_eq!(Inet::bind(true), plan_v4());
    assert_eq!(Inet6::bind(false), plan_v6());
    let mut without = plan_v4();
    without.remove(3);
    assert_eq!(Inet::bind(false), without);
}

#[test]
fn the_setup_of_a_responder_runs_to_its_end() {
    let (fsm, mut setup) = FSM::<Inet>::new(true);
    assert!(fsm.outgoing.is_empty());
    let mut expected = plan_v4();
    expected.push(SocketOp::SetPacketInfo(PacketInfo::Ipv4PacketInfo));
    expected.push(SocketOp::Register);
    for op in expected {
        assert_eq!(setup.step::<u8>(Ok(())), SetupStep::Perform(op));
    }
    assert_eq!(setup.step::<u8>(Ok(())), SetupStep::Done);
    let (_, mut setup) = FSM::<Inet6>::new(false);
    for op in plan_v6() {
        assert_eq!(setup.step::<u8>(Ok(())), SetupStep::Perform(op));
    }
    let info = SocketOp::SetPacketInfo(PacketInfo::Ipv6RecvPacketInfo);
    assert_eq!(setup.step::<u8>(Ok(())), SetupStep::Perform(info));
}

#[test]
fn a_setup_stops_at_the_first_failure() {
    let mut setup = Setup::new(Inet::bind(true));
    assert_eq!(
        setup.step::<u8>(Ok(())),
        SetupStep::Perform(SocketOp::Create { domain: Domain::IPV4 })
    );
    assert_eq!(setup.step::<u8>(Ok(())), SetupStep::Perform(SocketOp::SetReuseAddress(true)));
    assert_eq!(setup.step::<u8>(Err(9)), SetupStep::Failed(9));
    let mut empty = Setup::new(vec![]);
    assert_eq!(empty.step::<u8>(Ok(())), SetupStep::Done);
}

#[test]
fn families_name_their_addresses() {
    assert_eq!(Inet::domain(), Domain::IPV4);
    assert_eq!(Inet6::domain(), Domain::IPV6);
    let group = Inet::into_ip(Inet::mdns_group());
    assert_eq!(group, IpAddr::V4(Ipv4Addr { octets: [224, 0, 0, 251] }));
    let any = Inet6::into_ip(Inet6::any_addr());
    assert_eq!(any, IpAddr::V6(Ipv6Addr { segments: [0; 8] }));
}

#[test]
fn packet_info_failures_are_described() {
    assert_eq!(Inet::set_pkt_info(Ok(())), Ok(()));
    assert_eq!(Inet6::set_pkt_info(Ok(())), Ok(()));
    assert_eq!(
        Inet::set_pkt_info(Err(Errno::EPERM)),
        Err(other("IP_PKTINFO set error: EPERM: Operation not permitted"))
    );
    assert_eq!(
        Inet6::set_pkt_info(Err(Errno::EPERM)),
        Err(other("IPV6_RECV_PKTINFO set error: EPERM: Operation not permitted"))
    );
}

#[test]
fn transfer_failures_are_described() {
    assert_eq!(
        UdpSocket::<Inet>::recv_error(&Errno::EAGAIN),
        IoError { kind: ErrorKind::WouldBlock, message: "recvmsg would block".to_string() }
    );
    assert_eq!(
        UdpSocket::<Inet>::recv_error(&Errno::EPERM),
        other("recvmsg error: EPERM: Operation not permitted")
    );
    assert_eq!(
        UdpSocket::<Inet6>::send_error(&Errno::EAGAIN),
        IoError { kind: ErrorKind::WouldBlock, message: "sendmsg would block".to_string() }
    );
    assert_eq!(
        UdpSocket::<Inet6>::send_error(&Errno::EACCES),
        other("sendmsg error: EACCES: Permission denied")
    );
    assert_eq!(
        IoError::of_transfer("wait", "error: ", true, "again").kind,
        ErrorKind::WouldBlock
    );
    assert_eq!(IoError::of_transfer("wait", "error: ", false, "gone"), other("error: gone"));
}

fn first() -> Ipv4PktInfo {
    Ipv4PktInfo { ifindex: 1, spec_dst: 2, addr: 3 }
}

fn second() -> Ipv6PktInfo {
    Ipv6PktInfo { addr: [5; 16], ifindex: 6 }
}

fn peer() -> SocketAddr {
    SocketAddr::V6 { ip: Ipv6Addr::new(0xfe80, 0, 0, 0, 0, 0, 0, 9), port: 5353, flowinfo: 0, scope_id: 4 }
}

#[test]
fn interfaces_survive_control_messages() {
    for iface in [Iface::V4(first()), Iface::V6(second())] {
        assert_eq!(reported_iface(&vec![iface.to_control_message()]), Some(iface));
    }
    let both = vec![
        ControlMessage::Ipv4PacketInfo(first()),
        ControlMessage::Ipv6PacketInfo(second()),
        ControlMessage::Other,
    ];
    assert_eq!(reported_iface(&both), Some(Iface::V6(second())));
    assert_eq!(reported_iface(&vec![ControlMessage::Other]), None);
    assert_eq!(reported_iface(&vec![]), None);
}

fn received(bytes: usize, address: Option<SockAddr>) -> RecvEvent<u8> {
    let cmsgs = vec![ControlMessage::Other, ControlMessage::Ipv6PacketInfo(second())];
    RecvEvent::Received(RecvMsg { bytes, cmsgs, address })
}

#[test]
fn receiving_waits_retries_and_fails() {
    let mut bytes = [0u8; 8];
    let mut buf = ReadBuf::new(&mut bytes);
    let mut step = |event: RecvEvent<u8>| UdpSocket::<Inet>::poll_recv_from(event, &mut buf);
    assert_eq!(step(RecvEvent::Polled), RecvAction::PollReady);
    assert_eq!(step(RecvEvent::NotReady), RecvAction::Pending);
    assert_eq!(step(RecvEvent::Ready), RecvAction::Receive);
    assert_eq!(step(RecvEvent::WouldBlock), RecvAction::PollReady);
    assert_eq!(step(RecvEvent::Failed(3)), RecvAction::Return(Err(SocketError::System(3))));
    assert_eq!(buf.filled().len(), 0);
}

#[test]
fn received_datagrams_fill_the_buffer() {
    let mut bytes = *b"abcdefgh";
    let mut buf = ReadBuf::new(&mut bytes);
    let event = received(3, Some(SockAddr::Inet(peer())));
    assert_eq!(
        UdpSocket::<Inet6>::poll_recv_from(event, &mut buf),
        RecvAction::Return(Ok((peer(), Some(Iface::V6(second())))))
    );
    assert_eq!(buf.filled(), b"abc");
    for address in [None, Some(SockAddr::Other)] {
        assert_eq!(
            UdpSocket::<Inet6>::poll_recv_from(received(2, address), &mut buf),
            RecvAction::Return(Err(SocketError::Reported(other("no address found"))))
        );
    }
    assert_eq!(buf.filled(), b"abcdefg");
}

#[test]
fn datagrams_that_do_not_fit_are_refused() {
    let mut bytes = [7u8; 4];
    let mut buf = ReadBuf::new(&mut bytes);
    let event = received(5, Some(SockAddr::Inet(peer())));
    assert_eq!(UdpSocket::<Inet>::try_poll_recv_from(event, &mut buf), None);
    assert_eq!(buf.filled().len(), 0);
    let event = received(4, Some(SockAddr::Inet(peer())));
    assert!(UdpSocket::<Inet>::try_poll_recv_from(event, &mut buf).is_some());
    assert_eq!(buf.filled(), [7, 7, 7, 7]);
    let event = received(1, Some(SockAddr::Inet(peer())));
    assert_eq!(UdpSocket::<Inet>::try_poll_recv_from(event, &mut buf), None);
}

#[test]
fn sending_names_the_interface_it_is_given() {
    let target = (peer(), Some(Iface::V4(first())));
    let step = |event: SendEvent<u8>| UdpSocket::<Inet>::poll_send_to(event, b"hello", &target);
    assert_eq!(step(SendEvent::Polled), SendAction::PollReady);
    assert_eq!(step(SendEvent::NotReady), SendAction::Pending);
    assert_eq!(
        step(SendEvent::Ready),
        SendAction::Send(SendRequest {
            bytes: b"hello",
            addr: peer(),
            cmsgs: vec![ControlMessage::Ipv4PacketInfo(first())],
            dont_wait: true,
        })
    );
    assert_eq!(step(SendEvent::WouldBlock), SendAction::PollReady);
    assert_eq!(step(SendEvent::Failed(2)), SendAction::Return(Err(2)));
    assert_eq!(step(SendEvent::Sent(12)), SendAction::Return(Ok(12)));
    assert_eq!(
        UdpSocket::<Inet>::send_request(b"", &(peer(), None)),
        SendRequest { bytes: b"", addr: peer(), cmsgs: vec![], dont_wait: true }
    );
}

#[test]
fn a_whole_send_goes_on_until_it_is_sent() {
    let target = (peer(), None);
    let request =
        || SendAction::Send(SendRequest { bytes: b"hi", addr: peer(), cmsgs: vec![], dont_wait: true });
    let run = vec![
        (SendEvent::Polled, SendAction::PollReady),
        (SendEvent::Ready, request()),
        (SendEvent::WouldBlock, SendAction::PollReady),
        (SendEvent::Ready, request()),
        (SendEvent::Sent(2), SendAction::Return(Ok(2))),
    ];
    for (event, action) in run {
        let event: SendEvent<u8> = event;
        assert_eq!(UdpSocket::<Inet>::poll_send_to(event, b"hi", &target), action);
    }
}

#[test]
fn a_whole_receive_goes_on_until_there_is_a_datagram() {
    let mut bytes = *b"abcdefgh";
    let mut buf = ReadBuf::new(&mut bytes);
    buf.advance(2);
    let found = RecvAction::Return(Ok((peer(), Some(Iface::V6(second())))));
    let run = vec![
        (RecvEvent::Polled, RecvAction::PollReady),
        (RecvEvent::Ready, RecvAction::Receive),
        (RecvEvent::WouldBlock, RecvAction::PollReady),
        (RecvEvent::Ready, RecvAction::Receive),
        (received(3, Some(SockAddr::Inet(peer()))), found),
    ];
    for (event, action) in run {
        assert_eq!(buf.filled(), b"ab");
        assert_eq!(UdpSocket::<Inet>::poll_recv_from(event, &mut buf), action);
    }
    assert_eq!(buf.filled(), b"abcde");
}
