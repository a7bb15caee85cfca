//! Receiving and sending datagrams, together with the interface that they pass through.
use crate::address_family::{AddressFamily, SocketOp};
use crate::error::{ErrorKind, IoError, IoErrorView};
use crate::net::SocketAddr;
use crate::{error, read_buf};
use core::marker::PhantomData;
use nix::errno::Errno;
use tokio::io::ReadBuf;
use vstd::prelude::*;

verus! {

/// The interface that an IPv4 datagram passes through: its index, and, in network byte order,
/// its own address and the address in the header of the datagram.
#[derive(Clone, Copy, Debug, PartialEq, Eq)]
pub struct Ipv4PktInfo {
    pub ifindex: i32,
    pub spec_dst: u32,
    pub addr: u32,
}

/// The interface that an IPv6 datagram passes through: the octets of the address, and the
/// index of the interface.
#[derive(Clone, Copy, Debug, PartialEq, Eq)]
pub struct Ipv6PktInfo {
    pub addr: [u8; 16],
    pub ifindex: u32,
}

/// The interface that a datagram came in on, or is to be sent from.
#[derive(Clone, Copy, Debug, PartialEq, Eq)]
pub enum Iface {
    V4(Ipv4PktInfo),
    V6(Ipv6PktInfo),
}

/// What a socket reports beside a datagram, or is told beside one.
#[derive(Clone, Copy, Debug, PartialEq, Eq)]
pub enum ControlMessage {
    Ipv4PacketInfo(Ipv4PktInfo),
    Ipv6PacketInfo(Ipv6PktInfo),
    /// Anything that is not about the interface.
    Other,
}

impl Iface {
    /// The control message that names the interface.
    pub open spec fn control_message(self) -> ControlMessage {
        match self {
            Iface::V4(p) => ControlMessage::Ipv4PacketInfo(p),
            Iface::V6(p) => ControlMessage::Ipv6PacketInfo(p),
        }
    }

    /// The control message that names the interface.
    pub fn to_control_message(&self) -> (r: ControlMessage)
        ensures
            r == self.control_message(),
    {
        match self {
            Iface::V4(p) => ControlMessage::Ipv4PacketInfo(*p),
            Iface::V6(p) => ControlMessage::Ipv6PacketInfo(*p),
        }
    }
}

impl ControlMessage {
    /// The interface that the message names, if it is about the interface.
    pub open spec fn named(self) -> Option<Iface> {
        match self {
            ControlMessage::Ipv4PacketInfo(p) => Some(Iface::V4(p)),
            ControlMessage::Ipv6PacketInfo(p) => Some(Iface::V6(p)),
            ControlMessage::Other => None,
        }
    }
}

/// The interface that control messages report: that of the last one that names one.
pub open spec fn reported(cmsgs: Seq<ControlMessage>) -> Option<Iface>
    decreases cmsgs.len(),
{
    if cmsgs.len() == 0 {
        None
    } else {
        match cmsgs.last().named() {
            Some(iface) => Some(iface),
            None => reported(cmsgs.drop_last()),
        }
    }
}

/// The address that a datagram came from.
#[derive(Clone, Copy, Debug, PartialEq, Eq)]
pub enum SockAddr {
    Inet(SocketAddr),
    /// An address that is not an internet address.
    Other,
}

/// What receiving a datagram reports beside its bytes.
#[derive(Debug, PartialEq, Eq)]
pub struct RecvMsg {
    /// How many bytes were received.
    pub bytes: usize,
    pub cmsgs: Vec<ControlMessage>,
    pub address: Option<SockAddr>,
}

/// A failure to receive or send: one that the system reported, or one that the library did.
#[derive(Debug, PartialEq, Eq)]
pub enum SocketError<E> {
    System(E),
    Reported(IoError),
}

/// What happened while a datagram was being received.
#[derive(Debug, PartialEq, Eq)]
pub enum RecvEvent<E> {
    /// Somebody asks for a datagram.
    Polled,
    /// The socket is not ready.
    NotReady,
    /// The socket is ready to be read.
    Ready,
    /// There was nothing to be read after all.
    WouldBlock,
    /// Waiting or receiving failed.
    Failed(E),
    /// A datagram was received into the unfilled part of the buffer.
    Received(RecvMsg),
}

/// What is to be done to receive a datagram.
#[derive(Debug, PartialEq, Eq)]
pub enum RecvAction<E> {
    /// Ask whether the socket is ready to be read.
    PollReady,
    /// Receive into the unfilled part of the buffer.
    Receive,
    /// Return that there is no datagram yet.
    Pending,
    /// Return the address that a datagram came from, and the interface that it came in on.
    Return(Result<(SocketAddr, Option<Iface>), SocketError<E>>),
}

/// What happened while a datagram was being sent.
#[derive(Debug, PartialEq, Eq)]
pub enum SendEvent<E> {
    /// Somebody asks for a datagram to be sent.
    Polled,
    /// The socket is not ready.
    NotReady,
    /// The socket is ready to be written.
    Ready,
    /// The datagram could not be sent without waiting after all.
    WouldBlock,
    /// Waiting or sending failed.
    Failed(E),
    /// So many bytes were sent.
    Sent(usize),
}

/// What is handed to the system to send a datagram.
#[derive(Debug, PartialEq, Eq)]
pub struct SendRequest<'a> {
    /// The bytes of the datagram.
    pub bytes: &'a [u8],
    pub addr: SocketAddr,
    pub cmsgs: Vec<ControlMessage>,
    /// Whether sending must return at once if it would have to wait.
    pub dont_wait: bool,
}

/// What is to be done to send a datagram.
#[derive(Debug, PartialEq, Eq)]
pub enum SendAction<'a, E> {
    /// Ask whether the socket is ready to be written.
    PollReady,
    /// Send the datagram.
    Send(SendRequest<'a>),
    /// Return that the datagram is not sent yet.
    Pending,
    /// Return how many bytes were sent.
    Return(Result<usize, E>),
}

/// The interface that control messages report: that of the last one that names one.
pub fn reported_iface(cmsgs: &Vec<ControlMessage>) -> (r: Option<Iface>)
    ensures
        r == reported(cmsgs@),
{
    let mut output: Option<Iface> = None;
    let mut i: usize = 0;
    while i < cmsgs.len()
        invariant
            i <= cmsgs@.len(),
            output == reported(cmsgs@.take(i as int)),
        decreases cmsgs@.len() - i,
    {
        assert(cmsgs@.take(i + 1).drop_last() =~= cmsgs@.take(i as int));
        match cmsgs[i] {
            ControlMessage::Ipv4PacketInfo(p) => {
                output = Some(Iface::V4(p));
            },
            ControlMessage::Ipv6PacketInfo(p) => {
                output = Some(Iface::V6(p));
            },
            ControlMessage::Other => {},
        }
        i += 1;
    }
    assert(cmsgs@.take(i as int) =~= cmsgs@);
    output
}

/// Whether a buffer has room for the bytes that were received into it.
pub open spec fn recv_fits<E>(event: RecvEvent<E>, buf: ReadBuf<'_>) -> bool {
    event matches RecvEvent::Received(msg) ==> read_buf::read_buf_filled_len(buf) + msg.bytes
        <= read_buf::read_buf_initialized(buf).len()
}

/// How a step of receiving goes: the bytes of the buffer stay, those that were received are
/// added to what it is filled with, and the action is the one for the event.
pub open spec fn recv_step<E>(
    event: RecvEvent<E>,
    before: ReadBuf<'_>,
    after: ReadBuf<'_>,
    action: RecvAction<E>,
) -> bool {
    &&& match event {
        RecvEvent::Polled => action == RecvAction::<E>::PollReady,
        RecvEvent::NotReady => action == RecvAction::<E>::Pending,
        RecvEvent::Ready => action == RecvAction::<E>::Receive,
        RecvEvent::WouldBlock => action == RecvAction::<E>::PollReady,
        RecvEvent::Failed(e) => action == RecvAction::Return(Err(SocketError::System(e))),
        RecvEvent::Received(msg) => match msg.address {
            Some(SockAddr::Inet(addr)) => action == RecvAction::<E>::Return(
                Ok((addr, reported(msg.cmsgs@))),
            ),
            _ => action matches RecvAction::Return(Err(SocketError::Reported(e))) && e@ == (
            IoErrorView { kind: ErrorKind::Other, message: "no address found"@ }),
        },
    }
    &&& read_buf::read_buf_initialized(after) == read_buf::read_buf_initialized(before)
    &&& read_buf::read_buf_filled_len(after) == read_buf::read_buf_filled_len(before) + (
    match event {
        RecvEvent::Received(msg) => msg.bytes as nat,
        _ => 0,
    })
}

/// Whether a request is the one to send `bytes` to `target`: it has those bytes and that
/// address, names the interface if, and only if, one is given, and asks not to wait.
pub open spec fn sends(
    request: SendRequest<'_>,
    bytes: Seq<u8>,
    target: (SocketAddr, Option<Iface>),
) -> bool {
    &&& request.bytes@ == bytes
    &&& request.addr == target.0
    &&& request.cmsgs@ == (match target.1 {
        Some(iface) => seq![iface.control_message()],
        None => seq![],
    })
    &&& request.dont_wait
}

/// How a step of sending `bytes` to `target` goes: the action is the one for the event.
pub open spec fn send_step<E>(
    event: SendEvent<E>,
    bytes: Seq<u8>,
    target: (SocketAddr, Option<Iface>),
    action: SendAction<'_, E>,
) -> bool {
    match event {
        SendEvent::Polled => action == SendAction::<E>::PollReady,
        SendEvent::NotReady => action == SendAction::<E>::Pending,
        SendEvent::Ready => action matches SendAction::Send(request) && sends(
            request,
            bytes,
            target,
        ),
        SendEvent::WouldBlock => action == SendAction::<E>::PollReady,
        SendEvent::Failed(e) => action == SendAction::Return(Err(e)),
        SendEvent::Sent(n) => action == SendAction::<E>::Return(Ok(n)),
    }
}

/// A UDP socket of an address family.
pub struct UdpSocket<AF: AddressFamily> {
    pub family: PhantomData<AF>,
}

impl<AF: AddressFamily> UdpSocket<AF> {
    /// The operations, in order, that make a bound socket one that datagrams can be received
    /// from together with their interface.
    pub fn from_std() -> (r: Vec<SocketOp>)
        ensures
            r@ == seq![SocketOp::SetPacketInfo(AF::packet_info()), SocketOp::Register],
    {
        let mut plan: Vec<SocketOp> = Vec::new();
        plan.push(SocketOp::SetPacketInfo(AF::pkt_info()));
        plan.push(SocketOp::Register);
        plan
    }

    /// The error for the system error that receiving failed with.
    pub fn recv_error(e: &Errno) -> (r: IoError)
        ensures
            r@ == IoErrorView::of_transfer(
                "recvmsg would block"@,
                "recvmsg error: "@,
                error::errno_is_again(*e),
                error::errno_text(*e),
            ),
    {
        IoError::transfer("recvmsg would block", "recvmsg error: ", e)
    }

    /// The error for the system error that sending failed with.
    pub fn send_error(e: &Errno) -> (r: IoError)
        ensures
            r@ == IoErrorView::of_transfer(
                "sendmsg would block"@,
                "sendmsg error: "@,
                error::errno_is_again(*e),
                error::errno_text(*e),
            ),
    {
        IoError::transfer("sendmsg would block", "sendmsg error: ", e)
    }

    /// One step of receiving a datagram into `buf`.
    ///
    /// A datagram that was received adds to what `buf` is filled with, also where it is then
    /// refused because no internet address was reported for it.
    pub fn poll_recv_from<E>(event: RecvEvent<E>, buf: &mut ReadBuf<'_>) -> (r: RecvAction<E>)
        requires
            recv_fits(event, *old(buf)),
        ensures
            recv_step(event, *old(buf), *final(buf), r),
    {
        match event {
            RecvEvent::Polled => RecvAction::PollReady,
            RecvEvent::NotReady => RecvAction::Pending,
            RecvEvent::Ready => RecvAction::Receive,
            RecvEvent::WouldBlock => RecvAction::PollReady,
            RecvEvent::Failed(e) => RecvAction::Return(Err(SocketError::System(e))),
            RecvEvent::Received(msg) => {
                buf.advance(msg.bytes);
                let output = reported_iface(&msg.cmsgs);
                match msg.address {
                    Some(SockAddr::Inet(addr)) => RecvAction::Return(Ok((addr, output))),
                    _ => {
                        let e = IoError {
                            kind: ErrorKind::Other,
                            message: "no address found".to_owned(),
                        };
                        RecvAction::Return(Err(SocketError::Reported(e)))
                    },
                }
            },
        }
    }

    /// One step of receiving a datagram into `buf`, for an event that may report more bytes
    /// than the buffer has room for: then nothing is done, and there is no action.
    pub fn try_poll_recv_from<E>(
        event: RecvEvent<E>,
        buf: &mut ReadBuf<'_>,
    ) -> (r: Option<RecvAction<E>>)
        ensures
            match r {
                Some(action) => recv_fits(event, *old(buf)) && recv_step(
                    event,
                    *old(buf),
                    *final(buf),
                    action,
                ),
                None => !recv_fits(event, *old(buf)) && *final(buf) == *old(buf),
            },
    {
        if let RecvEvent::Received(msg) = &event {
            let room: usize = buf.initialized().len() - buf.filled().len();
            if msg.bytes > room {
                return None;
            }
        }
        Some(Self::poll_recv_from(event, buf))
    }

    /// What is handed to the system to send `bytes` to `target`: those bytes, that address, a
    /// control message if, and only if, an interface is given, and the request not to wait.
    pub fn send_request<'a>(
        bytes: &'a [u8],
        target: &(SocketAddr, Option<Iface>),
    ) -> (r: SendRequest<'a>)
        ensures
            sends(r, bytes@, *target),
    {
        let mut cmsgs: Vec<ControlMessage> = Vec::new();
        if let Some(iface) = &target.1 {
            cmsgs.push(iface.to_control_message());
        }
        SendRequest { bytes, addr: target.0, cmsgs, dont_wait: true }
    }

    /// One step of sending the datagram `bytes` to `target`.
    pub fn poll_send_to<'a, E>(
        event: SendEvent<E>,
        bytes: &'a [u8],
        target: &(SocketAddr, Option<Iface>),
    ) -> (r: SendAction<'a, E>)
        ensures
            send_step(event, bytes@, *target, r),
    {
        match event {
            SendEvent::Polled => SendAction::PollReady,
            SendEvent::NotReady => SendAction::Pending,
            SendEvent::Ready => SendAction::Send(Self::send_request(bytes, target)),
            SendEvent::WouldBlock => SendAction::PollReady,
            SendEvent::Failed(e) => SendAction::Return(Err(e)),
            SendEvent::Sent(n) => SendAction::Return(Ok(n)),
        }
    }
}

/// A datagram that is received lands behind what the buffer was filled with before, which
/// stays: the buffer is then filled with all of it.
pub proof fn received_bytes_accumulate<E>(
    event: RecvEvent<E>,
    before: ReadBuf<'_>,
    after: ReadBuf<'_>,
    action: RecvAction<E>,
)
    requires
        event is Received,
        recv_fits(event, before),
        recv_step(event, before, after, action),
    ensures
        read_buf::read_buf_filled(after) == read_buf::read_buf_filled(before)
            + read_buf::read_buf_initialized(before).subrange(
            read_buf::read_buf_filled_len(before) as int,
            read_buf::read_buf_filled_len(before) + event->Received_0.bytes,
        ),
{
}

/// A datagram is answered through the interface that it came in on: what a socket is told
/// to send through an interface is reported as that interface.
pub proof fn iface_survives_control_messages(iface: Iface)
    ensures
        reported(seq![iface.control_message()]) == Some(iface),
{
    assert(seq![iface.control_message()].last() == iface.control_message());
}

/// Of several control messages the last that names an interface decides, whatever stands
/// before it, and whatever stands behind it that names none.
pub proof fn last_interface_wins(
    before: Seq<ControlMessage>,
    iface: Iface,
    behind: Seq<ControlMessage>,
)
    requires
        forall|i: int| 0 <= i < behind.len() ==> behind[i] == ControlMessage::Other,
    ensures
        reported(before.push(iface.control_message()) + behind) == Some(iface),
    decreases behind.len(),
{
    let all = before.push(iface.control_message()) + behind;
    if behind.len() == 0 {
        assert(all.last() == iface.control_message());
    } else {
        assert(all.last() == behind.last());
        assert(all.drop_last() =~= before.push(iface.control_message()) + behind.drop_last());
        last_interface_wins(before, iface, behind.drop_last());
    }
}

/// Whether `event` is what can come of doing what `action` asks for. `blocks` says which
/// errors mean that the socket would block: sending reports those as that.
pub open spec fn send_comes_of<E>(
    action: SendAction<'_, E>,
    event: SendEvent<E>,
    blocks: spec_fn(E) -> bool,
) -> bool {
    match action {
        SendAction::PollReady => event is NotReady || event is Ready || event is Failed,
        SendAction::Send(_) => match event {
            SendEvent::WouldBlock | SendEvent::Sent(_) => true,
            SendEvent::Failed(e) => !blocks(e),
            _ => false,
        },
        SendAction::Pending => false,
        SendAction::Return(_) => false,
    }
}

/// Whether these are the events and actions of one attempt to send `bytes` to `target`, from
/// its start on: each event after the first comes of the action before it.
pub open spec fn is_send<E>(
    events: Seq<SendEvent<E>>,
    actions: Seq<SendAction<'_, E>>,
    bytes: Seq<u8>,
    target: (SocketAddr, Option<Iface>),
    blocks: spec_fn(E) -> bool,
) -> bool {
    &&& events.len() > 0
    &&& events.len() == actions.len()
    &&& events[0] is Polled
    &&& forall|i: int|
        0 <= i < events.len() ==> send_step(
            #[trigger] events[i],
            bytes,
            target,
            actions[i],
        )
    &&& forall|i: int|
        0 < i < events.len() ==> send_comes_of(actions[i - 1], #[trigger] events[i], blocks)
}

/// Over a whole attempt to send: every request is for these bytes and this target; at most
/// one datagram is sent, and then the attempt ends with its length; the attempt waits only
/// where the socket is not ready; and an error that means that the socket would block is
/// returned only if asking for readiness gave it.
pub proof fn a_send_sends_at_most_once<E>(
    events: Seq<SendEvent<E>>,
    actions: Seq<SendAction<'_, E>>,
    bytes: Seq<u8>,
    target: (SocketAddr, Option<Iface>),
    blocks: spec_fn(E) -> bool,
)
    requires
        is_send(events, actions, bytes, target, blocks),
    ensures
        forall|i: int|
            0 <= i < actions.len() ==> ((#[trigger] actions[i]) matches SendAction::Send(request)
                ==> sends(request, bytes, target)),
        forall|i: int|
            0 <= i < events.len() ==> ((#[trigger] events[i]) matches SendEvent::Sent(n) ==> i
                == events.len() - 1 && actions[i] == SendAction::<E>::Return(Ok(n))),
        actions.last() matches SendAction::Return(Ok(n)) ==> events.last() == SendEvent::<
            E,
        >::Sent(n),
        actions.last() is Pending <==> events.last() is NotReady,
        forall|i: int|
            0 <= i < events.len() && (#[trigger] events[i]) is WouldBlock
                ==> actions[i] is PollReady,
        actions.last() matches SendAction::Return(Err(e)) ==> {
            &&& events.last() == SendEvent::Failed(e)
            &&& blocks(e) ==> actions[actions.len() - 2] is PollReady
        },
{
    let last = events.len() - 1;
    assert(send_step(events[last], bytes, target, actions[last]));
    if last > 0 {
        assert(send_comes_of(actions[last - 1], events[last], blocks));
    }
    assert forall|i: int| 0 <= i < actions.len() implies ((
    #[trigger] actions[i]) matches SendAction::Send(request) ==> sends(request, bytes, target)) by {
        assert(send_step(events[i], bytes, target, actions[i]));
    }
    assert forall|i: int| 0 <= i < events.len() implies ((
    #[trigger] events[i]) matches SendEvent::Sent(n) ==> i == events.len() - 1 && actions[i]
        == SendAction::<E>::Return(Ok(n))) by {
        if events[i] is Sent && i < last {
            assert(send_comes_of(actions[i + 1 - 1], events[i + 1], blocks));
        }
    }
}

/// Whether `event` is what can come of doing what `action` asks for. `blocks` says which
/// errors mean that the socket would block: receiving reports those as that.
pub open spec fn recv_comes_of<E>(
    action: RecvAction<E>,
    event: RecvEvent<E>,
    blocks: spec_fn(E) -> bool,
) -> bool {
    match action {
        RecvAction::PollReady => event is NotReady || event is Ready || event is Failed,
        RecvAction::Receive => match event {
            RecvEvent::WouldBlock | RecvEvent::Received(_) => true,
            RecvEvent::Failed(e) => !blocks(e),
            _ => false,
        },
        RecvAction::Pending => false,
        RecvAction::Return(_) => false,
    }
}

/// Whether these are the events and actions of one attempt to receive, from its start on, and
/// the buffers before and after each step: each event after the first comes of the action
/// before it, which may write only behind what the buffer is filled with.
pub open spec fn is_recv<E>(
    events: Seq<RecvEvent<E>>,
    actions: Seq<RecvAction<E>>,
    before: Seq<ReadBuf<'_>>,
    after: Seq<ReadBuf<'_>>,
    blocks: spec_fn(E) -> bool,
) -> bool {
    &&& events.len() > 0
    &&& events.len() == actions.len()
    &&& events.len() == before.len()
    &&& events.len() == after.len()
    &&& events[0] is Polled
    &&& forall|i: int|
        0 <= i < events.len() ==> recv_fits(events[i], before[i]) && recv_step(
            #[trigger] events[i],
            before[i],
            after[i],
            actions[i],
        )
    &&& forall|i: int|
        0 < i < events.len() ==> {
            &&& recv_comes_of(actions[i - 1], #[trigger] events[i], blocks)
            &&& read_buf::read_buf_filled_len(before[i]) == read_buf::read_buf_filled_len(
                after[i - 1],
            )
            &&& read_buf::read_buf_filled(before[i]) == read_buf::read_buf_filled(after[i - 1])
        }
}

/// Up to a step of an attempt to receive that is not its last, the buffer stays filled with
/// what it was filled with.
proof fn waiting_fills_nothing<E>(
    events: Seq<RecvEvent<E>>,
    actions: Seq<RecvAction<E>>,
    before: Seq<ReadBuf<'_>>,
    after: Seq<ReadBuf<'_>>,
    blocks: spec_fn(E) -> bool,
    i: int,
)
    requires
        is_recv(events, actions, before, after, blocks),
        0 <= i < events.len(),
    ensures
        events[i] is Received ==> i == events.len() - 1,
        read_buf::read_buf_filled(before[i]) == read_buf::read_buf_filled(before[0]),
        read_buf::read_buf_filled_len(before[i]) == read_buf::read_buf_filled_len(before[0]),
    decreases i,
{
    assert(recv_step(events[i], before[i], after[i], actions[i]));
    if i + 1 < events.len() {
        assert(recv_comes_of(actions[i + 1 - 1], events[i + 1], blocks));
    }
    if i > 0 {
        waiting_fills_nothing(events, actions, before, after, blocks, i - 1);
        assert(recv_step(events[i - 1], before[i - 1], after[i - 1], actions[i - 1]));
        assert(recv_comes_of(actions[i - 1], events[i], blocks));
    }
}

/// Over a whole attempt to receive: at most one datagram is received, and then the attempt
/// ends; the attempt waits only where the socket is not ready; an error that means that the
/// socket would block is returned only if asking for readiness gave it; and the buffer stays
/// filled with what it was filled with, followed by the datagram if there was one.
pub proof fn a_receive_receives_at_most_once<E>(
    events: Seq<RecvEvent<E>>,
    actions: Seq<RecvAction<E>>,
    before: Seq<ReadBuf<'_>>,
    after: Seq<ReadBuf<'_>>,
    blocks: spec_fn(E) -> bool,
)
    requires
        is_recv(events, actions, before, after, blocks),
    ensures
        forall|i: int|
            0 <= i < events.len() && (#[trigger] events[i]) is Received ==> i == events.len() - 1
                && actions[i] is Return,
        actions.last() matches RecvAction::Return(Ok(_)) ==> events.last() is Received,
        actions.last() is Pending <==> events.last() is NotReady,
        forall|i: int|
            0 <= i < events.len() && (#[trigger] events[i]) is WouldBlock
                ==> actions[i] is PollReady,
        actions.last() matches RecvAction::Return(Err(SocketError::System(e))) ==> {
            &&& events.last() == RecvEvent::Failed(e)
            &&& blocks(e) ==> actions[actions.len() - 2] is PollReady
        },
        read_buf::read_buf_filled(after.last()) == read_buf::read_buf_filled(before[0]) + (
        match events.last() {
            RecvEvent::Received(msg) => read_buf::read_buf_initialized(before.last()).subrange(
                read_buf::read_buf_filled_len(before[0]) as int,
                read_buf::read_buf_filled_len(before[0]) + msg.bytes,
            ),
            _ => seq![],
        }),
{
    let last = events.len() - 1;
    assert(recv_step(events[last], before[last], after[last], actions[last]));
    if last > 0 {
        assert(recv_comes_of(actions[last - 1], events[last], blocks));
    }
    waiting_fills_nothing(events, actions, before, after, blocks, last);
    if events[last] is Received {
        received_bytes_accumulate(events[last], before[last], after[last], actions[last]);
    } else {
        assert(read_buf::read_buf_filled(after[last]) =~= read_buf::read_buf_filled(before[0])
            + Seq::<u8>::empty());
    }
    assert forall|i: int| 0 <= i < events.len() && (#[trigger] events[i]) is Received implies i
        == events.len() - 1 && actions[i] is Return by {
        waiting_fills_nothing(events, actions, before, after, blocks, i);
        assert(recv_step(events[i], before[i], after[i], actions[i]));
    }
    assert forall|i: int| 0 <= i < events.len() && (
    #[trigger] events[i]) is WouldBlock implies actions[i] is PollReady by {
        assert(recv_step(events[i], before[i], after[i], actions[i]));
    }
}

} // verus!
