//! The responder: which answers packets get, what is announced, and how a poll runs.
use crate::address_family::{AddressFamily, SocketOp};
use crate::message::{
    Answer, AnswerBuilder, AnswerView, MessageView, Packet, PacketView, QueryClass, QueryType,
    Question, QuestionView, RRData,
};
use crate::net::{Domain, Interface, IpAddr, Listing, SocketAddr};
use crate::services::{ServiceData, ServiceView, Services, ServicesView};
use crate::setup::Setup;
use crate::udp_socket::{Iface, UdpSocket};
use crate::{address_family, net, read_buf, DEFAULT_TTL, MDNS_PORT};
use core::marker::PhantomData;
use std::collections::VecDeque;
use tokio::io::ReadBuf;
use vstd::prelude::*;

verus! {

/// A message that waits to be sent, and where it goes: the address, and the interface that it
/// is sent from if that matters.
#[derive(Debug, PartialEq, Eq)]
pub struct Outgoing {
    pub message: AnswerBuilder,
    pub target: (SocketAddr, Option<Iface>),
}

/// An [`Outgoing`] over a mathematical message.
pub struct OutgoingView {
    pub message: MessageView,
    pub target: (SocketAddr, Option<Iface>),
}

impl View for Outgoing {
    type V = OutgoingView;

    open spec fn view(&self) -> OutgoingView {
        OutgoingView { message: self.message@, target: self.target }
    }
}

/// Whether the address of an interface is announced in the family `domain`: it belongs to
/// the family and is no loopback address.
pub open spec fn announced(iface: Interface, domain: Domain) -> bool {
    !iface.ip.loopback() && iface.ip.domain() == domain
}

/// The record that gives `ip` as an address of the host.
pub open spec fn address_record(hostname: Seq<char>, ttl: u32, ip: IpAddr) -> AnswerView {
    AnswerView::Address {
        name: hostname,
        class: QueryClass::IN,
        ttl,
        data: match ip {
            IpAddr::V4(ip) => RRData::A(ip),
            IpAddr::V6(ip) => RRData::AAAA(ip),
        },
    }
}

/// The records of the addresses that are announced, in the order of the interfaces.
pub open spec fn address_records(
    hostname: Seq<char>,
    ttl: u32,
    domain: Domain,
    interfaces: Seq<Interface>,
) -> Seq<AnswerView> {
    interfaces.filter(|iface: Interface| announced(iface, domain)).map_values(
        |iface: Interface| address_record(hostname, ttl, iface.ip),
    )
}

/// Without interfaces there are no address records.
pub proof fn no_interfaces_no_records(hostname: Seq<char>, ttl: u32, domain: Domain)
    ensures
        address_records(hostname, ttl, domain, seq![]) == Seq::<AnswerView>::empty(),
{
    reveal(Seq::filter);
    assert(address_records(hostname, ttl, domain, seq![]) =~= seq![]);
}

/// The records for each of `svcs`, in order: its own, and those of the addresses that its
/// host had when the interfaces were listed for it.
pub open spec fn type_answers(
    svcs: Seq<ServiceView>,
    hostname: Seq<char>,
    domain: Domain,
    lookups: Seq<Seq<Interface>>,
) -> Seq<AnswerView>
    decreases svcs.len(),
{
    if svcs.len() == 0 {
        seq![]
    } else {
        type_answers(svcs.drop_last(), hostname, domain, lookups) + svcs.last().records(
            hostname,
            DEFAULT_TTL,
        ) + address_records(hostname, DEFAULT_TTL, domain, lookups[svcs.len() - 1])
    }
}

/// How often the interfaces are listed to answer a question.
pub open spec fn lookups_needed(question: QuestionView, services: ServicesView) -> nat {
    match question.qtype {
        QueryType::A | QueryType::AAAA | QueryType::All => if question.qname
            == services.hostname {
            1
        } else {
            0
        },
        QueryType::PTR => services.of_type(question.qname).len(),
        QueryType::SRV => if services.of_name(question.qname) is Some {
            1
        } else {
            0
        },
        _ => 0,
    }
}

/// The records that answer a question, where `lookups` are the interfaces as they were listed,
/// one time after another.
pub open spec fn question_answers(
    question: QuestionView,
    services: ServicesView,
    domain: Domain,
    lookups: Seq<Seq<Interface>>,
) -> Seq<AnswerView> {
    let hostname = services.hostname;
    match question.qtype {
        QueryType::A | QueryType::AAAA | QueryType::All => if question.qname == hostname {
            address_records(hostname, DEFAULT_TTL, domain, lookups[0])
        } else {
            seq![]
        },
        QueryType::PTR => type_answers(
            services.of_type(question.qname),
            hostname,
            domain,
            lookups,
        ),
        QueryType::SRV => match services.of_name(question.qname) {
            Some(svc) => seq![AnswerView::Srv { svc, hostname, ttl: DEFAULT_TTL }]
                + address_records(hostname, DEFAULT_TTL, domain, lookups[0]),
            None => seq![],
        },
        QueryType::TXT => match services.of_name(question.qname) {
            Some(svc) => seq![AnswerView::Txt { svc, ttl: DEFAULT_TTL }],
            None => seq![],
        },
        QueryType::Other(_) => seq![],
    }
}

/// The records that answer, in order, those of the questions that are in a class that is
/// served and that want unicast answers, or do not, as `qu` says. `lookups` are the
/// interfaces as they were listed for each question.
pub open spec fn packet_answers(
    questions: Seq<QuestionView>,
    qu: bool,
    services: ServicesView,
    domain: Domain,
    lookups: Seq<Seq<Seq<Interface>>>,
) -> Seq<AnswerView>
    decreases questions.len(),
{
    if questions.len() == 0 {
        seq![]
    } else {
        let question = questions.last();
        packet_answers(questions.drop_last(), qu, services, domain, lookups) + (
        if question.served() && question.qu == qu {
            question_answers(question, services, domain, lookups[questions.len() - 1])
        } else {
            seq![]
        })
    }
}

/// The message with these records, to be sent to `target`, or none if there are no records.
pub open spec fn outgoing_if_any(
    id: u16,
    answers: Seq<AnswerView>,
    target: (SocketAddr, Option<Iface>),
) -> Seq<OutgoingView> {
    if answers.len() == 0 {
        seq![]
    } else {
        seq![OutgoingView { message: MessageView::response(id, answers), target }]
    }
}

/// Whether a packet that was received is one to answer: it could be parsed, it is a query, and
/// it is not truncated.
pub open spec fn answerable(packet: Option<PacketView>) -> bool {
    packet matches Some(packet) && packet.header.query && !packet.header.truncated
}

/// The messages that answer a packet that came from `src_addr`: the answers to the group,
/// sent through the interface that the packet came in on, and then those to the sender.
pub open spec fn replies(
    packet: Option<PacketView>,
    src_addr: (SocketAddr, Option<Iface>),
    services: ServicesView,
    domain: Domain,
    group: IpAddr,
    lookups: Seq<Seq<Seq<Interface>>>,
) -> Seq<OutgoingView> {
    if answerable(packet) {
        let packet = packet->Some_0;
        let id = packet.header.id;
        outgoing_if_any(
            id,
            packet_answers(packet.questions, false, services, domain, lookups),
            (SocketAddr::of(group, MDNS_PORT), src_addr.1),
        ) + outgoing_if_any(
            id,
            packet_answers(packet.questions, true, services, domain, lookups),
            src_addr,
        )
    } else {
        seq![]
    }
}

/// The message that announces a service to the group, unasked: with the addresses of its
/// host if the interfaces are given.
pub open spec fn announcement(
    svc: ServiceView,
    ttl: u32,
    services: ServicesView,
    domain: Domain,
    group: IpAddr,
    interfaces: Option<Seq<Interface>>,
) -> OutgoingView {
    let addresses = match interfaces {
        Some(list) => address_records(services.hostname, ttl, domain, list),
        None => seq![],
    };
    OutgoingView {
        message: MessageView::response(0, svc.records(services.hostname, ttl) + addresses),
        target: (SocketAddr::of(group, MDNS_PORT), None),
    }
}

/// The interfaces that are known after each listing.
pub open spec fn lookups_view(lookups: Seq<Listing>) -> Seq<Seq<Interface>> {
    Seq::new(lookups.len(), |i: int| net::listed(lookups[i]))
}

/// The outcomes of the listings for each question.
pub open spec fn outcomes(lookups: Seq<Vec<Listing>>) -> Seq<Seq<Listing>> {
    Seq::new(lookups.len(), |i: int| lookups[i]@)
}

/// The interfaces that are known after each listing for each question.
pub open spec fn packet_listed(listings: Seq<Seq<Listing>>) -> Seq<Seq<Seq<Interface>>> {
    Seq::new(listings.len(), |i: int| lookups_view(listings[i]))
}

/// The interfaces that are known after a listing, if one was made.
pub open spec fn known(listing: Option<Listing>) -> Option<Seq<Interface>> {
    match listing {
        Some(outcome) => Some(net::listed(outcome)),
        None => None,
    }
}

/// The outcome of a listing, if one was made, as a sequence.
pub open spec fn once(listing: Option<Listing>) -> Seq<Listing> {
    match listing {
        Some(outcome) => seq![outcome],
        None => seq![],
    }
}

/// Whether the interfaces were listed as often as each question needs them.
pub open spec fn lookups_fit(
    questions: Seq<QuestionView>,
    services: ServicesView,
    lookups: Seq<Seq<Seq<Interface>>>,
) -> bool {
    &&& lookups.len() == questions.len()
    &&& forall|i: int|
        0 <= i < questions.len() && questions[i].served() ==> (#[trigger] lookups[i]).len()
            == lookups_needed(questions[i], services)
}

/// How often the interfaces are listed for a question of a packet: never if it is in a class
/// that is not served.
pub open spec fn lookups_made(question: QuestionView, services: ServicesView) -> nat {
    if question.served() {
        lookups_needed(question, services)
    } else {
        0
    }
}

/// Whether these are outcomes of listing the interfaces of this machine as often as the
/// questions of a packet need them, and never for a packet that is not one to answer.
pub open spec fn listings_made(
    packet: Option<PacketView>,
    services: ServicesView,
    listings: Seq<Seq<Listing>>,
) -> bool {
    &&& if answerable(packet) {
        let questions = packet->Some_0.questions;
        &&& listings.len() == questions.len()
        &&& forall|i: int|
            0 <= i < questions.len() ==> (#[trigger] listings[i]).len() == lookups_made(
                questions[i],
                services,
            )
    } else {
        listings.len() == 0
    }
    &&& forall|i: int, j: int|
        0 <= i < listings.len() && 0 <= j < listings[i].len() ==> net::listing_gives(
            #[trigger] listings[i][j],
        )
}

/// Whether a packet reads the services: it is one to answer, and a question of it is in a
/// class that is served.
pub open spec fn needs_services(packet: Option<PacketView>) -> bool {
    answerable(packet) && exists|i: int|
        0 <= i < packet->Some_0.questions.len() && (
        #[trigger] packet->Some_0.questions[i]).served()
}

/// What was made of the bytes of a packet, if anything.
pub open spec fn packet_view(packet: Option<Packet>) -> Option<PacketView> {
    match packet {
        Some(packet) => Some(packet@),
        None => None,
    }
}

/// What the rest of the program asks the responder for.
#[derive(Debug)]
pub enum Command {
    /// Announce a service, unasked.
    SendUnsolicited { svc: ServiceData, ttl: u32, include_ip: bool },
    /// Stop responding.
    Shutdown,
}

/// A [`Command`] over a mathematical service.
pub enum CommandView {
    SendUnsolicited { svc: ServiceView, ttl: u32, include_ip: bool },
    Shutdown,
}

impl View for Command {
    type V = CommandView;

    open spec fn view(&self) -> CommandView {
        match *self {
            Command::SendUnsolicited { svc, ttl, include_ip } => CommandView::SendUnsolicited {
                svc: svc@,
                ttl,
                include_ip,
            },
            Command::Shutdown => CommandView::Shutdown,
        }
    }
}

impl Clone for Command {
    fn clone(&self) -> (r: Command)
        ensures
            r@ == self@,
    {
        match self {
            Command::SendUnsolicited { svc, ttl, include_ip } => Command::SendUnsolicited {
                svc: svc.clone(),
                ttl: *ttl,
                include_ip: *include_ip,
            },
            Command::Shutdown => Command::Shutdown,
        }
    }
}

/// How many bytes the buffer has that the packets of one poll are received into.
pub const RECV_BUFFER_SIZE: usize = 4096;

/// What happened during a poll.
pub enum Event<'a, 'b> {
    /// The responder is polled.
    Woken,
    /// A command came, or, with `None`, it is certain that none will come any more.
    Command(Option<Command>),
    /// No command waits.
    NoCommand,
    /// A packet from `src_addr` was received into `buf`.
    Received { buf: &'a ReadBuf<'b>, src_addr: (SocketAddr, Option<Iface>) },
    /// Receiving failed.
    RecvFailed,
    /// No packet waits.
    NoPacket,
    /// The message that was to be sent was sent, or was not and is given up.
    SendEnded,
}

/// An [`Event`] over mathematical commands and bytes.
pub enum EventView {
    Woken,
    Command(Option<CommandView>),
    NoCommand,
    Received { bytes: Seq<u8>, src_addr: (SocketAddr, Option<Iface>) },
    RecvFailed,
    NoPacket,
    SendEnded,
}

impl<'a, 'b> View for Event<'a, 'b> {
    type V = EventView;

    open spec fn view(&self) -> EventView {
        match *self {
            Event::Woken => EventView::Woken,
            Event::Command(Some(cmd)) => EventView::Command(Some(cmd@)),
            Event::Command(None) => EventView::Command(None),
            Event::NoCommand => EventView::NoCommand,
            Event::Received { buf, src_addr } => EventView::Received {
                bytes: read_buf::read_buf_filled(*buf),
                src_addr,
            },
            Event::RecvFailed => EventView::RecvFailed,
            Event::NoPacket => EventView::NoPacket,
            Event::SendEnded => EventView::SendEnded,
        }
    }
}

/// What a poll asks for next.
#[derive(Debug, PartialEq, Eq)]
pub enum Action {
    /// See whether a command waits.
    PollCommand,
    /// See whether a packet waits.
    PollRecv,
    /// Try to send the message, once.
    Send(Outgoing),
    /// Return that the responder goes on.
    Pending,
    /// Return that the responder has ended.
    Ready,
}

/// An [`Action`] over a mathematical message.
pub enum ActionView {
    PollCommand,
    PollRecv,
    Send(OutgoingView),
    Pending,
    Ready,
}

impl View for Action {
    type V = ActionView;

    open spec fn view(&self) -> ActionView {
        match *self {
            Action::PollCommand => ActionView::PollCommand,
            Action::PollRecv => ActionView::PollRecv,
            Action::Send(next) => ActionView::Send(next@),
            Action::Pending => ActionView::Pending,
            Action::Ready => ActionView::Ready,
        }
    }
}

/// What a step finds out from outside: what was made of the bytes of a packet, the outcomes
/// of listing the interfaces for each of its questions, and that of listing them for an
/// announcement.
pub struct Findings {
    pub packet: Option<PacketView>,
    pub listings: Seq<Seq<Listing>>,
    pub listing: Option<Listing>,
}

impl Findings {
    /// The interfaces that are known for each question.
    pub open spec fn lookups(self) -> Seq<Seq<Seq<Interface>>> {
        packet_listed(self.listings)
    }

    /// The interfaces that are known for an announcement.
    pub open spec fn interfaces(self) -> Option<Seq<Interface>> {
        known(self.listing)
    }

    /// The outcomes of all listings that a step makes, in order.
    pub open spec fn made(self, event: EventView) -> Seq<Listing> {
        match event {
            EventView::Command(Some(CommandView::SendUnsolicited { .. })) => once(self.listing),
            EventView::Received { .. } => self.listings.flatten(),
            _ => seq![],
        }
    }
}

/// Whether `parse` may make `packet` of `bytes`.
pub open spec fn parsed<P: Fn(&[u8]) -> Option<Packet>>(
    parse: P,
    bytes: &[u8],
    packet: Option<Packet>,
) -> bool {
    call_ensures(parse, (bytes,), packet)
}

/// Whether a step may find out this: the packet is one that `parse` makes of the bytes that
/// were received, and the listings are of this machine, as many as are needed.
pub open spec fn possible<P: Fn(&[u8]) -> Option<Packet>>(
    event: Event<'_, '_>,
    parse: P,
    services: ServicesView,
    findings: Findings,
) -> bool {
    match event@ {
        EventView::Command(
            Some(CommandView::SendUnsolicited { include_ip, .. }),
        ) => {
            &&& findings.listing is Some <==> include_ip
            &&& findings.listing matches Some(outcome) ==> net::listing_gives(outcome)
        },
        EventView::Received { bytes, .. } => {
            &&& exists|s: &[u8], packet: Option<Packet>|
                s@ == bytes && #[trigger] parsed(parse, s, packet) && findings.packet
                    == packet_view(packet)
            &&& listings_made(findings.packet, services, findings.listings)
        },
        _ => true,
    }
}

/// The messages that are left, and what is asked for, when the next message is due: the
/// message that has waited longest is to be sent, and the poll ends when there is none.
pub open spec fn next_step(queue: Seq<OutgoingView>) -> (Seq<OutgoingView>, ActionView) {
    if queue.len() == 0 {
        (queue, ActionView::Pending)
    } else {
        (queue.drop_first(), ActionView::Send(queue[0]))
    }
}

/// The messages that wait after a step, and what it asks for.
///
/// Commands are taken until none waits, then packets until none waits or receiving fails, and
/// then every message is sent. A command to stop, or the end of the commands, ends the
/// responder at once.
pub open spec fn poll_step(
    queue: Seq<OutgoingView>,
    event: EventView,
    services: ServicesView,
    domain: Domain,
    group: IpAddr,
    findings: Findings,
) -> (Seq<OutgoingView>, ActionView) {
    match event {
        EventView::Woken => (queue, ActionView::PollCommand),
        EventView::Command(Some(CommandView::SendUnsolicited { svc, ttl, .. })) => (
            queue.push(announcement(svc, ttl, services, domain, group, findings.interfaces())),
            ActionView::PollCommand,
        ),
        EventView::Command(_) => (queue, ActionView::Ready),
        EventView::NoCommand => (queue, ActionView::PollRecv),
        EventView::Received { src_addr, .. } => (
            queue + replies(
                findings.packet,
                src_addr,
                services,
                domain,
                group,
                findings.lookups(),
            ),
            ActionView::PollRecv,
        ),
        EventView::RecvFailed => next_step(queue),
        EventView::NoPacket => next_step(queue),
        EventView::SendEnded => next_step(queue),
    }
}

/// How an attempt to send a message of the responder ended.
#[derive(Clone, Copy, Debug, PartialEq, Eq)]
pub enum SendOutcome {
    /// So many bytes were sent.
    Sent(usize),
    /// Sending would have had to wait.
    WouldBlock,
    /// Sending failed otherwise.
    Failed,
    /// The socket was not ready.
    Pending,
}

/// What is worth a warning of how an attempt to send ended.
#[derive(Clone, Copy, Debug, PartialEq, Eq)]
pub enum SendReport {
    /// Nothing.
    Nothing,
    /// Only a part of the message was sent.
    Partial,
    /// The message could not be sent.
    Failed,
}

/// What is worth a warning of an attempt to send a message of `len` bytes.
pub open spec fn report_of(len: usize, outcome: SendOutcome) -> SendReport {
    match outcome {
        SendOutcome::Sent(n) if n != len => SendReport::Partial,
        SendOutcome::Failed => SendReport::Failed,
        _ => SendReport::Nothing,
    }
}

/// What is worth a warning of an attempt to send a message of `len` bytes.
pub fn send_report(len: usize, outcome: SendOutcome) -> (r: SendReport)
    ensures
        r == report_of(len, outcome),
{
    match outcome {
        SendOutcome::Sent(n) => {
            if n == len {
                SendReport::Nothing
            } else {
                SendReport::Partial
            }
        },
        SendOutcome::WouldBlock => SendReport::Nothing,
        SendOutcome::Failed => SendReport::Failed,
        SendOutcome::Pending => SendReport::Nothing,
    }
}

/// The responder for an address family: the messages that wait to be sent, in order, and the
/// outcomes of the listings of the interfaces that were made, in order, until they are taken.
pub struct FSM<AF: AddressFamily> {
    pub outgoing: VecDeque<Outgoing>,
    pub listings: Vec<Listing>,
    pub family: PhantomData<AF>,
}

impl<AF: AddressFamily> View for FSM<AF> {
    type V = Seq<OutgoingView>;

    /// The messages that wait. Contracts speak of the listings apart from them.
    open spec fn view(&self) -> Seq<OutgoingView> {
        Seq::new(self.outgoing@.len(), |i: int| self.outgoing@[i]@)
    }
}

impl<AF: AddressFamily> FSM<AF> {
    /// Adds a record for each address that is announced in the family, of the interfaces that
    /// were listed. A listing that failed adds nothing.
    pub fn add_ip_rr(
        hostname: &String,
        builder: AnswerBuilder,
        ttl: u32,
        listing: &Listing,
    ) -> (r: AnswerBuilder)
        ensures
            r@ == builder@.plus(
                address_records(hostname@, ttl, AF::family(), net::listed(*listing)),
            ),
            listing is Err ==> r@ == builder@,
    {
        match listing {
            Ok(interfaces) => Self::add_addresses(hostname, builder, ttl, interfaces),
            Err(_) => {
                proof {
                    no_interfaces_no_records(hostname@, ttl, AF::family());
                    assert(builder@.answers + Seq::<AnswerView>::empty() =~= builder@.answers);
                }
                builder
            },
        }
    }

    /// Adds a record for each address of `interfaces` that is announced in the family.
    fn add_addresses(
        hostname: &String,
        builder: AnswerBuilder,
        ttl: u32,
        interfaces: &Vec<Interface>,
    ) -> (r: AnswerBuilder)
        ensures
            r@ == builder@.plus(address_records(hostname@, ttl, AF::family(), interfaces@)),
    {
        let ghost all = interfaces@;
        let ghost wanted = |iface: Interface| announced(iface, AF::family());
        let ghost record = |iface: Interface| address_record(hostname@, ttl, iface.ip);
        let ghost start = builder@;
        let mut builder = builder;
        let mut i: usize = 0;
        proof {
            reveal(Seq::filter);
            assert(all.take(0).filter(wanted).map_values(record) =~= seq![]);
            assert(start.answers + Seq::<AnswerView>::empty() =~= start.answers);
        }
        while i < interfaces.len()
            invariant
                i <= interfaces@.len(),
                all == interfaces@,
                wanted == (|iface: Interface| announced(iface, AF::family())),
                record == (|iface: Interface| address_record(hostname@, ttl, iface.ip)),
                builder@ == start.plus(all.take(i as int).filter(wanted).map_values(record)),
            decreases interfaces@.len() - i,
        {
            let iface = interfaces[i];
            let ghost before = builder@;
            let ghost done = all.take(i as int).filter(wanted);
            proof {
                reveal(Seq::filter);
                assert(all.take(i + 1).drop_last() =~= all.take(i as int));
                assert(all.take(i + 1).last() == iface);
                assert(done.push(iface).map_values(record) =~= done.map_values(record)
                    + seq![record(iface)]);
                assert(start.answers + (done.map_values(record) + seq![record(iface)])
                    =~= before.answers + seq![record(iface)]);
            }
            if !iface.is_loopback() {
                match (iface.ip, AF::domain()) {
                    (IpAddr::V4(ip), Domain::IPV4) => {
                        builder = builder.add_answer(
                            Answer::Address {
                                name: hostname.clone(),
                                class: QueryClass::IN,
                                ttl,
                                data: RRData::A(ip),
                            },
                        );
                    },
                    (IpAddr::V6(ip), Domain::IPV6) => {
                        builder = builder.add_answer(
                            Answer::Address {
                                name: hostname.clone(),
                                class: QueryClass::IN,
                                ttl,
                                data: RRData::AAAA(ip),
                            },
                        );
                    },
                    _ => {},
                }
            }
            i += 1;
        }
        assert(all.take(i as int) =~= all);
        builder
    }

    /// How often the interfaces are to be listed to answer `question`.
    pub fn count_lookups(question: &Question, services: &Services) -> (r: usize)
        ensures
            r == lookups_needed(question@, services@),
    {
        match question.qtype {
            QueryType::A | QueryType::AAAA | QueryType::All => {
                if question.qname == *services.get_hostname() {
                    1
                } else {
                    0
                }
            },
            QueryType::PTR => services.find_by_type(&question.qname).len(),
            QueryType::SRV => match services.find_by_name(&question.qname) {
                Some(_) => 1,
                None => 0,
            },
            _ => 0,
        }
    }

    /// Adds the records that answer `question`, where `lookups` are the interfaces as they were
    /// listed, one time after another.
    pub fn handle_question(
        question: &Question,
        services: &Services,
        builder: AnswerBuilder,
        lookups: &Vec<Listing>,
    ) -> (r: AnswerBuilder)
        requires
            lookups@.len() == lookups_needed(question@, services@),
        ensures
            r@ == builder@.plus(
                question_answers(question@, services@, AF::family(), lookups_view(lookups@)),
            ),
    {
        let hostname = services.get_hostname();
        let ghost start = builder@;
        let ghost nothing = Seq::<AnswerView>::empty();
        assert(start.answers + nothing =~= start.answers);
        match question.qtype {
            QueryType::A | QueryType::AAAA | QueryType::All => {
                if question.qname == *hostname {
                    Self::add_ip_rr(hostname, builder, DEFAULT_TTL, &lookups[0])
                } else {
                    builder
                }
            },
            QueryType::PTR => {
                let svcs = services.find_by_type(&question.qname);
                Self::answer_type(&svcs, hostname, builder, lookups)
            },
            QueryType::SRV => match services.find_by_name(&question.qname) {
                Some(svc) => {
                    let builder = svc.add_srv_rr(hostname, builder, DEFAULT_TTL);
                    let ghost own = seq![
                        AnswerView::Srv { svc: svc@, hostname: hostname@, ttl: DEFAULT_TTL },
                    ];
                    let ghost addresses = address_records(
                        hostname@,
                        DEFAULT_TTL,
                        AF::family(),
                        net::listed(lookups@[0]),
                    );
                    assert(start.answers + own + addresses =~= start.answers + (own + addresses));
                    Self::add_ip_rr(hostname, builder, DEFAULT_TTL, &lookups[0])
                },
                None => builder,
            },
            QueryType::TXT => match services.find_by_name(&question.qname) {
                Some(svc) => svc.add_txt_rr(builder, DEFAULT_TTL),
                None => builder,
            },
            QueryType::Other(_) => builder,
        }
    }

    /// Adds the records for each of `svcs`: its own, and those of the addresses of its host.
    fn answer_type(
        svcs: &Vec<&ServiceData>,
        hostname: &String,
        builder: AnswerBuilder,
        lookups: &Vec<Listing>,
    ) -> (r: AnswerBuilder)
        requires
            lookups@.len() == svcs@.len(),
        ensures
            r@ == builder@.plus(
                type_answers(
                    Seq::new(svcs@.len(), |i: int| svcs@[i]@),
                    hostname@,
                    AF::family(),
                    lookups_view(lookups@),
                ),
            ),
    {
        let ghost all = Seq::new(svcs@.len(), |i: int| svcs@[i]@);
        let ghost listed = lookups_view(lookups@);
        let ghost start = builder@;
        let mut builder = builder;
        let mut i: usize = 0;
        assert(start.answers + Seq::<AnswerView>::empty() =~= start.answers);
        while i < svcs.len()
            invariant
                i <= svcs@.len(),
                lookups@.len() == svcs@.len(),
                all == Seq::new(svcs@.len(), |i: int| svcs@[i]@),
                listed == lookups_view(lookups@),
                builder@ == start.plus(
                    type_answers(all.take(i as int), hostname@, AF::family(), listed),
                ),
            decreases svcs@.len() - i,
        {
            let svc = svcs[i];
            let ghost before = builder@;
            builder = svc.add_ptr_rr(builder, DEFAULT_TTL);
            builder = svc.add_srv_rr(hostname, builder, DEFAULT_TTL);
            builder = svc.add_txt_rr(builder, DEFAULT_TTL);
            assert(builder@.answers =~= before.answers + svc@.records(hostname@, DEFAULT_TTL));
            builder = Self::add_ip_rr(hostname, builder, DEFAULT_TTL, &lookups[i]);
            proof {
                assert(all.take(i + 1).drop_last() =~= all.take(i as int));
                assert(all.take(i + 1).last() == svc@);
                assert(builder@.answers =~= start.answers + type_answers(
                    all.take(i + 1),
                    hostname@,
                    AF::family(),
                    listed,
                ));
            }
            i += 1;
        }
        assert(all.take(i as int) =~= all);
        builder
    }

    /// Lists the interfaces of this machine `n` times, one time after another.
    fn list_times(n: usize) -> (r: Vec<Listing>)
        ensures
            r@.len() == n,
            forall|i: int| 0 <= i < n ==> net::listing_gives(#[trigger] r@[i]),
    {
        let mut lookups: Vec<Listing> = Vec::new();
        while lookups.len() < n
            invariant
                lookups@.len() <= n,
                forall|i: int|
                    0 <= i < lookups@.len() ==> net::listing_gives(#[trigger] lookups@[i]),
            decreases n - lookups@.len(),
        {
            lookups.push(net::list_interfaces());
        }
        lookups
    }

    /// Lists the interfaces of this machine as often as each question of `packet` needs them.
    fn list_for_packet(packet: &Option<Packet>, services: &Services) -> (r: Vec<Vec<Listing>>)
        ensures
            listings_made(packet_view(*packet), services@, outcomes(r@)),
    {
        let mut lookups: Vec<Vec<Listing>> = Vec::new();
        let packet = match packet {
            Some(packet) if packet.header.query && !packet.header.truncated => packet,
            _ => return lookups,
        };
        let questions = &packet.questions;
        while lookups.len() < questions.len()
            invariant
                lookups@.len() <= questions@.len(),
                forall|i: int|
                    0 <= i < lookups@.len() ==> (#[trigger] lookups@[i])@.len() == lookups_made(
                        questions@[i]@,
                        services@,
                    ),
                forall|i: int, j: int|
                    0 <= i < lookups@.len() && 0 <= j < lookups@[i]@.len()
                        ==> net::listing_gives(#[trigger] lookups@[i]@[j]),
            decreases questions@.len() - lookups@.len(),
        {
            let question = &questions[lookups.len()];
            let n = if Self::serves(question) {
                Self::count_lookups(question, services)
            } else {
                0
            };
            lookups.push(Self::list_times(n));
        }
        lookups
    }

    /// Keeps the outcomes of listings until they are taken.
    fn keep_listings(&mut self, lookups: Vec<Vec<Listing>>)
        ensures
            final(self)@ == old(self)@,
            final(self).listings@ == old(self).listings@ + outcomes(lookups@).flatten(),
    {
        let ghost all = outcomes(lookups@);
        let ghost start = self.listings@;
        let ghost queue = self@;
        let mut lookups = lookups;
        let mut i: usize = 0;
        assert(start + all.take(0).flatten() =~= start);
        while i < lookups.len()
            invariant
                i <= lookups@.len(),
                lookups@.len() == all.len(),
                forall|j: int| i <= j < all.len() ==> (#[trigger] lookups@[j])@ == all[j],
                self@ == queue,
                self.listings@ == start + all.take(i as int).flatten(),
            decreases lookups@.len() - i,
        {
            proof {
                let now = all.take(i + 1);
                now.lemma_flatten_and_flatten_alt_are_equivalent();
                now.drop_last().lemma_flatten_and_flatten_alt_are_equivalent();
                assert(now.drop_last() =~= all.take(i as int));
                assert(now.last() == all[i as int]);
                assert(start + all.take(i as int).flatten() + all[i as int] =~= start
                    + now.flatten());
            }
            self.listings.append(&mut lookups[i]);
            i += 1;
        }
        assert(all.take(i as int) =~= all);
    }

    /// Takes the outcomes of the listings that were made since they were last taken.
    pub fn take_listings(&mut self) -> (r: Vec<Listing>)
        ensures
            r@ == old(self).listings@,
            final(self).listings@ == Seq::<Listing>::empty(),
            final(self)@ == old(self)@,
    {
        let mut taken: Vec<Listing> = Vec::new();
        taken.append(&mut self.listings);
        taken
    }

    /// Whether answering `packet` reads the services.
    pub fn reads_services(packet: &Option<Packet>) -> (r: bool)
        ensures
            r == needs_services(packet_view(*packet)),
    {
        let asked = match packet {
            Some(packet) if packet.header.query && !packet.header.truncated => packet,
            _ => return false,
        };
        let ghost questions = asked@.questions;
        let mut i: usize = 0;
        while i < asked.questions.len()
            invariant
                i <= asked.questions@.len(),
                packet_view(*packet) == Some(asked@),
                answerable(Some(asked@)),
                questions == asked@.questions,
                forall|j: int| 0 <= j < i ==> !(#[trigger] questions[j]).served(),
            decreases asked.questions@.len() - i,
        {
            assert(questions[i as int] == asked.questions@[i as int]@);
            if Self::serves(&asked.questions[i]) {
                return true;
            }
            i += 1;
        }
        false
    }

    /// Whether the question is in a class that is served.
    fn serves(question: &Question) -> (r: bool)
        ensures
            r == question@.served(),
    {
        question.qclass == QueryClass::IN || question.qclass == QueryClass::Any
    }

    /// Puts a message behind those that wait to be sent, unless it has no records.
    fn enqueue(&mut self, message: AnswerBuilder, target: (SocketAddr, Option<Iface>))
        ensures
            final(self)@ == old(self)@ + (if message@.answers.len() == 0 {
                seq![]
            } else {
                seq![OutgoingView { message: message@, target }]
            }),
            final(self).listings == old(self).listings,
    {
        if !message.is_empty() {
            self.outgoing.push_back(Outgoing { message, target });
            assert(self@ =~= old(self)@ + seq![OutgoingView { message: message@, target }]);
        } else {
            assert(self@ =~= old(self)@ + seq![]);
        }
    }

    /// The address that messages to the group are sent to.
    fn group_addr() -> (r: SocketAddr)
        ensures
            r == SocketAddr::of(AF::ip(AF::group()), MDNS_PORT),
    {
        SocketAddr::new(AF::into_ip(AF::mdns_group()), MDNS_PORT)
    }

    /// Queues the answers to `packet`, which came from `src_addr`, where `lookups` are the
    /// interfaces as they were listed for each of its questions.
    ///
    /// Bytes that could not be parsed are no packet, and get no answer.
    pub fn answer_packet(
        &mut self,
        packet: &Option<Packet>,
        src_addr: (SocketAddr, Option<Iface>),
        services: &Services,
        lookups: &Vec<Vec<Listing>>,
    )
        requires
            answerable(packet_view(*packet)) ==> lookups_fit(
                packet->Some_0@.questions,
                services@,
                packet_listed(outcomes(lookups@)),
            ),
        ensures
            final(self)@ == old(self)@ + replies(
                packet_view(*packet),
                src_addr,
                services@,
                AF::family(),
                AF::ip(AF::group()),
                packet_listed(outcomes(lookups@)),
            ),
            final(self).listings == old(self).listings,
    {
        let ghost start = self@;
        assert(start + Seq::<OutgoingView>::empty() =~= start);
        let packet = match packet {
            Some(packet) => packet,
            None => return,
        };
        if !packet.header.query || packet.header.truncated {
            return;
        }
        let id = packet.header.id;
        let ghost questions = packet@.questions;
        let ghost listed = packet_listed(outcomes(lookups@));
        let mut unicast = AnswerBuilder::response(id);
        let mut multicast = AnswerBuilder::response(id);
        let mut i: usize = 0;
        while i < packet.questions.len()
            invariant
                i <= packet.questions@.len(),
                questions == packet@.questions,
                listed == packet_listed(outcomes(lookups@)),
                lookups_fit(questions, services@, listed),
                unicast@ == MessageView::response(
                    id,
                    packet_answers(
                        questions.take(i as int),
                        true,
                        services@,
                        AF::family(),
                        listed,
                    ),
                ),
                multicast@ == MessageView::response(
                    id,
                    packet_answers(
                        questions.take(i as int),
                        false,
                        services@,
                        AF::family(),
                        listed,
                    ),
                ),
            decreases packet.questions@.len() - i,
        {
            let question = &packet.questions[i];
            proof {
                let now = questions.take(i + 1);
                assert(now.drop_last() =~= questions.take(i as int));
                assert(now.last() == question@);
                assert(lookups_view(lookups@[i as int]@) == listed[i as int]);
                let unasked = Seq::<AnswerView>::empty();
                assert(unicast@.answers + unasked =~= unicast@.answers);
                assert(multicast@.answers + unasked =~= multicast@.answers);
            }
            if Self::serves(question) {
                if question.qu {
                    unicast = Self::handle_question(question, services, unicast, &lookups[i]);
                } else {
                    multicast = Self::handle_question(question, services, multicast, &lookups[i]);
                }
            }
            i += 1;
        }
        assert(questions.take(i as int) =~= questions);
        self.enqueue(multicast, (Self::group_addr(), src_addr.1));
        self.enqueue(unicast, src_addr);
        assert(self@ =~= start + replies(
            Some(packet@),
            src_addr,
            services@,
            AF::family(),
            AF::ip(AF::group()),
            listed,
        ));
    }

    /// Queues the answers to the packet that `parse` makes of `buffer`, with the addresses
    /// that this machine has.
    ///
    /// The interfaces are listed as often as the questions need them, and the outcomes are
    /// kept. Whatever `parse` and the listings give, the messages are the ones for it.
    pub fn handle_packet<P: Fn(&[u8]) -> Option<Packet>>(
        &mut self,
        buffer: &[u8],
        src_addr: (SocketAddr, Option<Iface>),
        services: &Services,
        parse: P,
    )
        requires
            call_requires(parse, (buffer,)),
        ensures
            exists|packet: Option<Packet>, listings: Seq<Seq<Listing>>|
                {
                    &&& call_ensures(parse, (buffer,), packet)
                    &&& listings_made(packet_view(packet), services@, listings)
                    &&& final(self)@ == old(self)@ + #[trigger] replies(
                        packet_view(packet),
                        src_addr,
                        services@,
                        AF::family(),
                        AF::ip(AF::group()),
                        packet_listed(listings),
                    )
                    &&& final(self).listings@ == old(self).listings@ + listings.flatten()
                },
    {
        let packet = parse(buffer);
        let lookups = Self::list_for_packet(&packet, services);
        self.answer_packet(&packet, src_addr, services, &lookups);
        self.keep_listings(lookups);
    }

    /// Queues the announcement of `svc`, with the addresses of its host if a listing of the
    /// interfaces is given. A listing that failed adds no address.
    pub fn announce(
        &mut self,
        svc: &ServiceData,
        ttl: u32,
        services: &Services,
        listing: Option<&Listing>,
    )
        ensures
            final(self)@ == old(self)@.push(
                announcement(
                    svc@,
                    ttl,
                    services@,
                    AF::family(),
                    AF::ip(AF::group()),
                    match listing {
                        Some(outcome) => Some(net::listed(*outcome)),
                        None => None,
                    },
                ),
            ),
            final(self).listings == old(self).listings,
    {
        let hostname = services.get_hostname();
        let mut builder = AnswerBuilder::response(0);
        builder = svc.add_ptr_rr(builder, ttl);
        builder = svc.add_srv_rr(hostname, builder, ttl);
        builder = svc.add_txt_rr(builder, ttl);
        assert(builder@.answers =~= svc@.records(hostname@, ttl));
        assert(builder@.answers + Seq::<AnswerView>::empty() =~= builder@.answers);
        if let Some(outcome) = listing {
            builder = Self::add_ip_rr(hostname, builder, ttl, outcome);
        }
        self.enqueue(builder, (Self::group_addr(), None));
        assert(self@ =~= old(self)@.push(self@.last()));
    }

    /// Queues the announcement of `svc`, with the addresses that this machine has if
    /// `include_ip`.
    ///
    /// The interfaces are listed once if `include_ip`, and else not at all, and the outcome is
    /// kept. Whatever the listing gives, the announcement is the one for it.
    pub fn send_unsolicited(
        &mut self,
        svc: &ServiceData,
        ttl: u32,
        include_ip: bool,
        services: &Services,
    )
        ensures
            exists|listing: Option<Listing>|
                {
                    &&& listing is Some <==> include_ip
                    &&& listing matches Some(outcome) ==> net::listing_gives(outcome)
                    &&& final(self)@ == old(self)@.push(
                        #[trigger] announcement(
                            svc@,
                            ttl,
                            services@,
                            AF::family(),
                            AF::ip(AF::group()),
                            known(listing),
                        ),
                    )
                    &&& final(self).listings@ == old(self).listings@ + once(listing)
                },
    {
        if include_ip {
            let listing = net::list_interfaces();
            self.announce(svc, ttl, services, Some(&listing));
            assert(known(Some(listing)) == Some(net::listed(listing)));
            assert(self.listings@.push(listing) =~= self.listings@ + once(Some(listing)));
            self.listings.push(listing);
        } else {
            self.announce(svc, ttl, services, None);
            assert(known(None) == None::<Seq<Interface>>);
            assert(self.listings@ =~= self.listings@ + once(None));
        }
    }

    /// Takes the message that has waited longest, if there is one.
    fn next_outgoing(&mut self) -> (r: Action)
        ensures
            (final(self)@, r@) == next_step(old(self)@),
            final(self).listings == old(self).listings,
    {
        match self.outgoing.pop_front() {
            Some(next) => {
                assert(self@ =~= old(self)@.drop_first());
                Action::Send(next)
            },
            None => Action::Pending,
        }
    }

    /// One step of a poll: takes what happened, and says what to do next.
    ///
    /// The interfaces are listed as often as the step needs them, and the outcomes are kept.
    /// Whatever `parse` and the listings give, the step is the one for it.
    pub fn poll<P: Fn(&[u8]) -> Option<Packet>>(
        &mut self,
        event: Event<'_, '_>,
        services: &Services,
        parse: P,
    ) -> (r: Action)
        requires
            event matches Event::Received { buf, .. } ==> forall|s: &[u8]|
                s@ == read_buf::read_buf_filled(*buf) ==> call_requires(parse, (s,)),
        ensures
            exists|findings: Findings|
                {
                    &&& possible(event, parse, services@, findings)
                    &&& (final(self)@, r@) == #[trigger] poll_step(
                        old(self)@,
                        event@,
                        services@,
                        AF::family(),
                        AF::ip(AF::group()),
                        findings,
                    )
                    &&& final(self).listings@ == old(self).listings@ + findings.made(event@)
                },
    {
        let ghost start = self@;
        let ghost kept = self.listings@;
        let ghost mut findings = Findings { packet: None, listings: seq![], listing: None };
        let ghost domain = AF::family();
        let ghost group = AF::ip(AF::group());
        assert(kept + Seq::<Listing>::empty() =~= kept);
        let action = match event {
            Event::Woken => Action::PollCommand,
            Event::Command(Some(Command::Shutdown)) => Action::Ready,
            Event::Command(Some(Command::SendUnsolicited { svc, ttl, include_ip })) => {
                self.send_unsolicited(&svc, ttl, include_ip, services);
                proof {
                    findings.listing = choose|listing: Option<Listing>|
                        {
                            &&& listing is Some <==> include_ip
                            &&& listing matches Some(outcome) ==> net::listing_gives(outcome)
                            &&& self@ == start.push(
                                #[trigger] announcement(
                                    svc@,
                                    ttl,
                                    services@,
                                    domain,
                                    group,
                                    known(listing),
                                ),
                            )
                            &&& self.listings@ == kept + once(listing)
                        };
                }
                Action::PollCommand
            },
            Event::Command(None) => Action::Ready,
            Event::NoCommand => Action::PollRecv,
            Event::Received { buf, src_addr } => {
                let filled = buf.filled();
                self.handle_packet(filled, src_addr, services, parse);
                proof {
                    let (packet, listings) = choose|
                        packet: Option<Packet>,
                        listings: Seq<Seq<Listing>>,
                    |
                        {
                            &&& call_ensures(parse, (filled,), packet)
                            &&& listings_made(packet_view(packet), services@, listings)
                            &&& self@ == start + #[trigger] replies(
                                packet_view(packet),
                                src_addr,
                                services@,
                                domain,
                                group,
                                packet_listed(listings),
                            )
                            &&& self.listings@ == kept + listings.flatten()
                        };
                    findings.packet = packet_view(packet);
                    findings.listings = listings;
                    assert(parsed(parse, filled, packet));
                }
                Action::PollRecv
            },
            Event::RecvFailed => self.next_outgoing(),
            Event::NoPacket => self.next_outgoing(),
            Event::SendEnded => self.next_outgoing(),
        };
        assert(possible(event, parse, services@, findings));
        assert((self@, action@) == poll_step(start, event@, services@, domain, group, findings));
        action
    }

    /// A responder with no messages and no listings, and the setup of the socket that it works with.
    /// `reuse_port` says whether the system has the option that lets several sockets share
    /// a port.
    pub fn new(reuse_port: bool) -> (r: (FSM<AF>, Setup))
        ensures
            r.0@ == Seq::<OutgoingView>::empty(),
            r.0.listings@ == Seq::<Listing>::empty(),
            r.1@ == address_family::bind_plan(
                AF::family(),
                AF::ip(AF::any()),
                AF::join(AF::group()),
                reuse_port,
            ) + seq![SocketOp::SetPacketInfo(AF::packet_info()), SocketOp::Register],
    {
        let mut plan = AF::bind(reuse_port);
        let mut rest = UdpSocket::<AF>::from_std();
        plan.append(&mut rest);
        let fsm = FSM { outgoing: VecDeque::new(), listings: Vec::new(), family: PhantomData };
        assert(fsm@ =~= Seq::<OutgoingView>::empty());
        (fsm, Setup::new(plan))
    }
}

} // verus!
