use mdns_responder::address_family::{Inet, Inet6};
use mdns_responder::fsm::{
    send_report, Action, Command, Event, Outgoing, SendOutcome, SendReport, FSM,
    RECV_BUFFER_SIZE,
};
use mdns_responder::message::{
    Answer, AnswerBuilder, Header, Packet, QueryClass, QueryType, Question, RRData,
};
use mdns_responder::net::{list_interfaces, Interface, IpAddr, Ipv4Addr, Ipv6Addr, Listing, SocketAddr};
use mdns_responder::services::{ServiceData, Services};
use mdns_responder::udp_socket::{Iface, Ipv4PktInfo};
use mdns_responder::{DEFAULT_TTL, MDNS_PORT};
use tokio::io::ReadBuf;

const HOST: &str = "kitchen.local";
const HTTP: &str = "_http._tcp.local";

fn service(name: &str, typ: &str, port: u16) -> ServiceData {
    ServiceData { name: name.to_string(), typ: typ.to_string(), port, txt: vec![1, b'x'] }
}

fn services() -> Services {
    Services {
        hostname: HOST.to_string(),
        services: vec![
            service("web._http._tcp.local", HTTP, 80),
            service("shell._ssh._tcp.local", "_ssh._tcp.local", 22),
            service("alt._http._tcp.local", HTTP, 8080),
        ],
    }
}

fn v4(a: u8, b: u8, c: u8, d: u8) -> Interface {
    Interface { ip: IpAddr::V4(Ipv4Addr::new(a, b, c, d)) }
}

fn v6(first: u16, last: u16) -> Interface {
    Interface { ip: IpAddr::V6(Ipv6Addr::new(first, 0, 0, 0, 0, 0, 0, last)) }
}

fn machine() -> Listing {
    Ok(vec![v4(127, 0, 0, 1), v6(0, 1), v4(192, 168, 1, 7), v6(0xfe80, 7), v4(10, 0, 0, 7)])
}

fn failed() -> Listing {
    Err(std::io::Error::from(std::io::ErrorKind::PermissionDenied))
}

fn question(qname: &str, qtype: QueryType, qu: bool) -> Question {
    Question { qname: qname.to_string(), qtype, qclass: QueryClass::IN, qu }
}

fn query(id: u16, questions: Vec<Question>) -> Option<Packet> {
    Some(Packet { header: Header { id, query: true, truncated: false }, questions })
}

fn sender() -> (SocketAddr, Option<Iface>) {
    let iface = Iface::V4(Ipv4PktInfo { ifindex: 3, spec_dst: 7, addr: 9 });
    (SocketAddr::new(IpAddr::V4(Ipv4Addr::new(192, 168, 1, 9)), 40000), Some(iface))
}

fn group() -> SocketAddr {
    SocketAddr::new(IpAddr::V4(Ipv4Addr::new(224, 0, 0, 251)), 5353)
}

fn address(data: RRData, ttl: u32) -> Answer {
    Answer::Address { name: HOST.to_string(), class: QueryClass::IN, ttl, data }
}

fn host_addresses(ttl: u32) -> Vec<Answer> {
    vec![
        address(RRData::A(Ipv4Addr::new(192, 168, 1, 7)), ttl),
        address(RRData::A(Ipv4Addr::new(10, 0, 0, 7)), ttl),
    ]
}

fn ptr(svc: ServiceData, ttl: u32) -> Answer {
    Answer::Ptr { svc, ttl }
}

fn srv(svc: ServiceData, ttl: u32) -> Answer {
    Answer::Srv { svc, hostname: HOST.to_string(), ttl }
}

fn txt(svc: ServiceData, ttl: u32) -> Answer {
    Answer::Txt { svc, ttl }
}

fn response(id: u16, answers: Vec<Answer>) -> AnswerBuilder {
    AnswerBuilder { id, recursion: false, authoritative: true, max_size: None, answers }
}

/// The messages that an IPv4 responder queues for `packet`.
fn answers(packet: Option<Packet>, lookups: Vec<Vec<Listing>>) -> Vec<Outgoing> {
    let (mut fsm, _) = FSM::<Inet>::new(true);
    fsm.answer_packet(&packet, sender(), &services(), &lookups);
    fsm.outgoing.into_iter().collect()
}

fn multicast(id: u16, answers: Vec<Answer>) -> Outgoing {
    Outgoing { message: response(id, answers), target: (group(), sender().1) }
}

fn unicast(id: u16, answers: Vec<Answer>) -> Outgoing {
    Outgoing { message: response(id, answers), target: sender() }
}

#[test]
fn constants() {
    assert_eq!(MDNS_PORT, 5353);
    assert_eq!(DEFAULT_TTL, 60);
    assert_eq!(RECV_BUFFER_SIZE, 4096);
}

#[test]
fn host_question_is_answered_with_the_addresses_of_the_family() {
    for qtype in [QueryType::A, QueryType::AAAA, QueryType::All] {
        let packet = query(7, vec![question(HOST, qtype, false)]);
        assert_eq!(
            answers(packet, vec![vec![machine()]]),
            vec![multicast(7, host_addresses(60))]
        );
    }
}

#[test]
fn ipv6_responder_announces_ipv6_addresses_to_its_group() {
    let (mut fsm, _) = FSM::<Inet6>::new(true);
    let packet = query(8, vec![question(HOST, QueryType::A, false)]);
    fsm.answer_packet(&packet, sender(), &services(), &vec![vec![machine()]]);
    let sent: Vec<Outgoing> = fsm.outgoing.into_iter().collect();
    let ip = Ipv6Addr::new(0xfe80, 0, 0, 0, 0, 0, 0, 7);
    assert_eq!(sent.len(), 1);
    assert_eq!(sent[0].message, response(8, vec![address(RRData::AAAA(ip), 60)]));
    assert_eq!(
        sent[0].target.0,
        SocketAddr::V6 {
            ip: Ipv6Addr::new(0xff02, 0, 0, 0, 0, 0, 0, 0xfb),
            port: 5353,
            flowinfo: 0,
            scope_id: 0,
        }
    );
    assert_eq!(sent[0].target.1, sender().1);
}

#[test]
fn other_hosts_are_not_answered_for() {
    for qtype in [QueryType::A, QueryType::AAAA, QueryType::All] {
        let packet = query(7, vec![question("cellar.local", qtype, false)]);
        assert_eq!(answers(packet, vec![vec![]]), vec![]);
    }
    let packet = query(7, vec![question("web._http._tcp.local", QueryType::All, false)]);
    assert_eq!(answers(packet, vec![vec![]]), vec![]);
}

#[test]
fn no_addresses_no_reply() {
    let packet = query(7, vec![question(HOST, QueryType::A, false)]);
    assert_eq!(answers(packet, vec![vec![Ok(vec![v4(127, 3, 2, 1), v6(0xfe80, 1)])]]), vec![]);
    let packet = query(7, vec![question(HOST, QueryType::A, false)]);
    assert_eq!(answers(packet, vec![vec![Ok(vec![])]]), vec![]);
}

#[test]
fn type_question_is_answered_for_every_service_of_the_type() {
    let packet = query(9, vec![question(HTTP, QueryType::PTR, false)]);
    let web = service("web._http._tcp.local", HTTP, 80);
    let alt = service("alt._http._tcp.local", HTTP, 8080);
    let mut expected = vec![ptr(web.clone(), 60), srv(web.clone(), 60), txt(web, 60)];
    expected.extend(host_addresses(60));
    expected.extend(vec![ptr(alt.clone(), 60), srv(alt.clone(), 60), txt(alt, 60)]);
    expected.push(address(RRData::A(Ipv4Addr::new(10, 9, 8, 7)), 60));
    assert_eq!(
        answers(packet, vec![vec![machine(), Ok(vec![v4(10, 9, 8, 7)])]]),
        vec![multicast(9, expected)]
    );
    let packet = query(9, vec![question("_ftp._tcp.local", QueryType::PTR, false)]);
    assert_eq!(answers(packet, vec![vec![]]), vec![]);
}

#[test]
fn srv_and_txt_questions_are_answered_by_name() {
    let name = "shell._ssh._tcp.local";
    let shell = service(name, "_ssh._tcp.local", 22);
    let mut expected = vec![srv(shell.clone(), 60)];
    expected.extend(host_addresses(60));
    let packet = query(1, vec![question(name, QueryType::SRV, false)]);
    assert_eq!(answers(packet, vec![vec![machine()]]), vec![multicast(1, expected)]);
    let packet = query(2, vec![question(name, QueryType::TXT, false)]);
    assert_eq!(answers(packet, vec![vec![]]), vec![multicast(2, vec![txt(shell, 60)])]);
    for qtype in [QueryType::SRV, QueryType::TXT, QueryType::Other(2)] {
        let packet = query(3, vec![question("none._ssh._tcp.local", qtype, false)]);
        assert_eq!(answers(packet, vec![vec![]]), vec![]);
    }
    let packet = query(3, vec![question(name, QueryType::Other(5), false)]);
    assert_eq!(answers(packet, vec![vec![]]), vec![]);
}

#[test]
fn unicast_answers_go_to_the_sender_behind_those_to_the_group() {
    let name = "shell._ssh._tcp.local";
    let shell = service(name, "_ssh._tcp.local", 22);
    let packet = query(
        4,
        vec![
            question(HOST, QueryType::A, true),
            question(name, QueryType::TXT, false),
            question(name, QueryType::TXT, true),
        ],
    );
    let mut direct = host_addresses(60);
    direct.push(txt(shell.clone(), 60));
    assert_eq!(
        answers(packet, vec![vec![machine()], vec![], vec![]]),
        vec![multicast(4, vec![txt(shell, 60)]), unicast(4, direct)]
    );
}

#[test]
fn only_some_classes_are_served() {
    let name = "shell._ssh._tcp.local";
    let shell = service(name, "_ssh._tcp.local", 22);
    let mut any = question(name, QueryType::TXT, false);
    any.qclass = QueryClass::Any;
    assert_eq!(
        answers(query(5, vec![any]), vec![vec![]]),
        vec![multicast(5, vec![txt(shell, 60)])]
    );
    let mut chaos = question(HOST, QueryType::A, false);
    chaos.qclass = QueryClass::Other(3);
    assert_eq!(answers(query(5, vec![chaos]), vec![vec![]]), vec![]);
}

#[test]
fn packets_that_are_no_whole_queries_are_dropped() {
    assert_eq!(answers(None, vec![]), vec![]);
    let ask = || vec![question("shell._ssh._tcp.local", QueryType::TXT, false)];
    let reply = Packet { header: Header { id: 1, query: false, truncated: false }, questions: ask() };
    assert_eq!(answers(Some(reply), vec![]), vec![]);
    let cut = Packet { header: Header { id: 1, query: true, truncated: true }, questions: ask() };
    assert_eq!(answers(Some(cut), vec![]), vec![]);
    assert_eq!(answers(query(1, vec![]), vec![]), vec![]);
}

#[test]
fn lookups_are_counted() {
    let count = |qname: &str, qtype: QueryType| {
        FSM::<Inet>::count_lookups(&question(qname, qtype, false), &services())
    };
    assert_eq!(count(HOST, QueryType::A), 1);
    assert_eq!(count(HOST, QueryType::All), 1);
    assert_eq!(count("cellar.local", QueryType::AAAA), 0);
    assert_eq!(count(HTTP, QueryType::PTR), 2);
    assert_eq!(count("_ftp._tcp.local", QueryType::PTR), 0);
    assert_eq!(count("web._http._tcp.local", QueryType::SRV), 1);
    assert_eq!(count("none._http._tcp.local", QueryType::SRV), 0);
    assert_eq!(count("web._http._tcp.local", QueryType::TXT), 0);
}

#[test]
fn services_are_found_by_type_and_by_name() {
    let mut all = services();
    let found = all.find_by_type(&HTTP.to_string()).len();
    assert_eq!(found, 2);
    all.services.push(service("web._http._tcp.local", HTTP, 8081));
    let found = all.find_by_name(&"web._http._tcp.local".to_string());
    assert_eq!(found.map(|svc| svc.port), Some(80));
    assert!(all.find_by_name(&HOST.to_string()).is_none());
    assert_eq!(all.get_hostname(), HOST);
}

#[test]
fn announcements_go_to_the_group() {
    let web = service("web._http._tcp.local", HTTP, 80);
    let (mut fsm, _) = FSM::<Inet>::new(true);
    fsm.announce(&web, 0, &services(), None);
    fsm.announce(&web, 120, &services(), Some(&machine()));
    let own = |ttl: u32| vec![ptr(web.clone(), ttl), srv(web.clone(), ttl), txt(web.clone(), ttl)];
    let mut full = own(120);
    full.extend(host_addresses(120));
    let sent: Vec<Outgoing> = fsm.outgoing.into_iter().collect();
    assert_eq!(
        sent,
        vec![
            Outgoing { message: response(0, own(0)), target: (group(), None) },
            Outgoing { message: response(0, full), target: (group(), None) },
        ]
    );
}

#[test]
fn a_failed_listing_adds_no_addresses() {
    let start = response(1, vec![txt(service("web._http._tcp.local", HTTP, 80), 9)]);
    let host = HOST.to_string();
    let kept = FSM::<Inet>::add_ip_rr(
        &host,
        response(1, vec![txt(service("web._http._tcp.local", HTTP, 80), 9)]),
        30,
        &failed(),
    );
    assert_eq!(kept, start);
    let grown = FSM::<Inet>::add_ip_rr(&host, kept, 30, &machine());
    assert_eq!(&grown.answers[..1], &start.answers[..]);
    assert_eq!(&grown.answers[1..], &host_addresses(30)[..]);

    let packet = query(7, vec![question(HOST, QueryType::A, false)]);
    assert_eq!(answers(packet, vec![vec![failed()]]), vec![]);
    let name = "shell._ssh._tcp.local";
    let packet = query(7, vec![question(name, QueryType::SRV, true)]);
    let shell = service(name, "_ssh._tcp.local", 22);
    assert_eq!(answers(packet, vec![vec![failed()]]), vec![unicast(7, vec![srv(shell, 60)])]);

    let web = service("web._http._tcp.local", HTTP, 80);
    let alt = service("alt._http._tcp.local", HTTP, 8080);
    let packet = query(7, vec![question(HTTP, QueryType::PTR, false)]);
    let mut expected = vec![ptr(web.clone(), 60), srv(web.clone(), 60), txt(web.clone(), 60)];
    expected.extend(vec![ptr(alt.clone(), 60), srv(alt.clone(), 60), txt(alt, 60)]);
    expected.extend(host_addresses(60));
    assert_eq!(
        answers(packet, vec![vec![failed(), machine()]]),
        vec![multicast(7, expected)]
    );

    let (mut fsm, _) = FSM::<Inet>::new(true);
    fsm.announce(&web, 3, &services(), Some(&failed()));
    fsm.announce(&web, 3, &services(), None);
    assert_eq!(fsm.outgoing.pop_front(), fsm.outgoing.pop_front());
    assert!(fsm.outgoing.is_empty());
}

#[test]
fn the_interfaces_of_this_machine_are_listed() {
    let ours: Vec<Interface> = list_interfaces().unwrap();
    let mut theirs = vec![];
    for iface in if_addrs::get_if_addrs().unwrap() {
        theirs.push(match iface.addr {
            if_addrs::IfAddr::V4(a) => {
                Interface { ip: IpAddr::V4(Ipv4Addr { octets: a.ip.octets() }) }
            }
            if_addrs::IfAddr::V6(a) => {
                Interface { ip: IpAddr::V6(Ipv6Addr { segments: a.ip.segments() }) }
            }
        });
    }
    assert_eq!(ours, theirs);
}

/// The addresses of this machine that an IPv4 responder announces, as records.
fn real_addresses(ttl: u32) -> Vec<Answer> {
    let mut records = vec![];
    for iface in if_addrs::get_if_addrs().unwrap() {
        if iface.is_loopback() {
            continue;
        }
        if let if_addrs::IfAddr::V4(addr) = iface.addr {
            records.push(address(RRData::A(Ipv4Addr { octets: addr.ip.octets() }), ttl));
        }
    }
    records
}

#[test]
fn the_addresses_of_this_machine_are_announced() {
    let web = service("web._http._tcp.local", HTTP, 80);
    let (mut fsm, _) = FSM::<Inet>::new(true);
    fsm.send_unsolicited(&web, 30, true, &services());
    fsm.send_unsolicited(&web, 30, false, &services());
    let own = vec![ptr(web.clone(), 30), srv(web.clone(), 30), txt(web, 30)];
    let full: Vec<Answer> = fsm.outgoing.pop_front().unwrap().message.answers;
    assert_eq!(&full[..3], &own[..]);
    assert_eq!(&full[3..], &real_addresses(30)[..]);
    assert_eq!(fsm.outgoing.pop_front().unwrap().message.answers, own);
}

#[test]
fn packets_are_parsed_and_answered_with_the_addresses_of_this_machine() {
    let (mut fsm, _) = FSM::<Inet>::new(true);
    let name = "web._http._tcp.local";
    let parse = |bytes: &[u8]| {
        assert_eq!(bytes, b"ask");
        query(6, vec![question(name, QueryType::SRV, false), question(HOST, QueryType::A, true)])
    };
    fsm.handle_packet(b"ask", sender(), &services(), parse);
    let mut expected = vec![srv(service(name, HTTP, 80), 60)];
    expected.extend(real_addresses(60));
    assert_eq!(fsm.outgoing.pop_front(), Some(multicast(6, expected)));
    match fsm.outgoing.pop_front() {
        Some(reply) => assert_eq!(reply, unicast(6, real_addresses(60))),
        None => assert_eq!(real_addresses(60), vec![]),
    }
    fsm.handle_packet(b"ask", sender(), &services(), |_: &[u8]| None);
    assert!(fsm.outgoing.is_empty());
}

/// The interfaces of this machine, as the outcome of one listing.
fn real_listing() -> Vec<Interface> {
    list_interfaces().unwrap()
}

#[test]
fn listings_are_kept_until_they_are_taken() {
    let all = services();
    let (mut fsm, _) = FSM::<Inet>::new(true);
    assert!(fsm.take_listings().is_empty());
    fsm.send_unsolicited(&all.services[0], 30, false, &all);
    assert!(fsm.listings.is_empty());
    fsm.send_unsolicited(&all.services[0], 30, true, &all);
    let parse = |_: &[u8]| {
        let mut unserved = question(HOST, QueryType::A, false);
        unserved.qclass = QueryClass::Other(3);
        query(6, vec![question(HTTP, QueryType::PTR, false), unserved])
    };
    fsm.handle_packet(b"ask", sender(), &all, parse);
    let queue = fsm.outgoing.len();
    let taken: Vec<Vec<Interface>> =
        fsm.take_listings().into_iter().map(|listing| listing.unwrap()).collect();
    assert_eq!(taken, vec![real_listing(), real_listing(), real_listing()]);
    assert!(fsm.listings.is_empty());
    assert_eq!(fsm.outgoing.len(), queue);

    fsm.handle_packet(b"ask", sender(), &all, |_: &[u8]| None);
    fsm.handle_packet(b"ask", sender(), &all, |_: &[u8]| {
        let mut unserved = question(HOST, QueryType::A, false);
        unserved.qclass = QueryClass::Other(3);
        query(6, vec![unserved])
    });
    fsm.announce(&all.services[0], 1, &all, Some(&failed()));
    assert!(fsm.listings.is_empty());
    fsm.listings.push(failed());
    fsm.poll(Event::NoPacket, &all, nothing);
    let kept = fsm.take_listings();
    assert_eq!(kept.len(), 1);
    assert_eq!(
        kept[0].as_ref().unwrap_err().kind(),
        std::io::ErrorKind::PermissionDenied
    );
}

#[test]
fn only_served_questions_read_the_services() {
    let reads = |packet: Option<Packet>| FSM::<Inet>::reads_services(&packet);
    let mut chaos = question(HOST, QueryType::A, false);
    chaos.qclass = QueryClass::Other(3);
    let mut any = question("cellar.local", QueryType::Other(5), true);
    any.qclass = QueryClass::Any;
    assert!(!reads(None));
    assert!(!reads(query(1, vec![])));
    assert!(!reads(query(1, vec![chaos])));
    assert!(reads(query(1, vec![any])));
    let header = Header { id: 1, query: false, truncated: false };
    let questions = vec![question(HOST, QueryType::A, false)];
    assert!(!reads(Some(Packet { header, questions })));
    let header = Header { id: 1, query: true, truncated: true };
    let questions = vec![question(HOST, QueryType::A, false)];
    assert!(!reads(Some(Packet { header, questions })));
    assert!(reads(query(1, vec![question(HOST, QueryType::A, false)])));
}

#[test]
fn questions_that_are_not_wanted_may_be_left_out() {
    let name = "shell._ssh._tcp.local";
    let chaos = || {
        let mut asked = question(HOST, QueryType::A, false);
        asked.qclass = QueryClass::Other(3);
        asked
    };
    let kept = || vec![question(HOST, QueryType::A, false), question(name, QueryType::TXT, true)];
    let mut with = kept();
    with.insert(1, chaos());
    assert_eq!(
        answers(query(4, with), vec![vec![machine()], vec![], vec![]]),
        answers(query(4, kept()), vec![vec![machine()], vec![]])
    );
    let both = answers(query(4, kept()), vec![vec![machine()], vec![]]);
    let group_only = query(4, vec![question(HOST, QueryType::A, false)]);
    assert_eq!(answers(group_only, vec![vec![machine()]])[..], both[..1]);
    let sender_only = query(4, vec![question(name, QueryType::TXT, true)]);
    assert_eq!(answers(sender_only, vec![vec![]])[..], both[1..]);
}

#[test]
fn loopback_is_told_as_by_if_addrs() {
    for octets in [[127, 0, 0, 1], [127, 255, 1, 2], [126, 0, 0, 1], [128, 0, 0, 1], [0, 0, 0, 0]] {
        let theirs = if_addrs::Ifv4Addr {
            ip: octets.into(),
            netmask: [255, 0, 0, 0].into(),
            broadcast: None,
        };
        let ours = Interface { ip: IpAddr::V4(Ipv4Addr { octets }) };
        assert_eq!(ours.is_loopback(), theirs.is_loopback());
    }
    for segments in [
        [0, 0, 0, 0, 0, 0, 0, 1],
        [0, 0, 0, 0, 0, 0, 0, 0],
        [0, 0, 0, 0, 0, 0, 1, 1],
        [1, 0, 0, 0, 0, 0, 0, 1],
        [0, 0, 0, 0, 0, 0, 0, 2],
    ] {
        let theirs = if_addrs::Ifv6Addr {
            ip: segments.into(),
            netmask: segments.into(),
            broadcast: None,
        };
        let ours = Interface { ip: IpAddr::V6(Ipv6Addr { segments }) };
        assert_eq!(ours.is_loopback(), theirs.is_loopback());
    }
    assert!(v6(0, 1).is_loopback());
    assert!(!v6(0xfe80, 1).is_loopback());
}

fn nothing(_: &[u8]) -> Option<Packet> {
    None
}

#[test]
fn a_poll_takes_commands_then_packets_then_sends_in_order() {
    let all = services();
    let (mut fsm, _) = FSM::<Inet>::new(false);
    assert_eq!(fsm.poll(Event::Woken, &all, nothing), Action::PollCommand);
    let svc = service("web._http._tcp.local", HTTP, 80);
    let command = Command::SendUnsolicited { svc: svc.clone(), ttl: 5, include_ip: false };
    let action = fsm.poll(Event::Command(Some(command.clone())), &all, nothing);
    assert_eq!(action, Action::PollCommand);
    assert_eq!(fsm.poll(Event::NoCommand, &all, nothing), Action::PollRecv);

    let mut bytes = [0u8; 32];
    let mut buf = ReadBuf::new(&mut bytes);
    buf.put_slice(b"one");
    let parse = |bytes: &[u8]| {
        assert_eq!(bytes, b"one");
        query(11, vec![question("web._http._tcp.local", QueryType::TXT, true)])
    };
    let event = Event::Received { buf: &buf, src_addr: sender() };
    assert_eq!(fsm.poll(event, &all, parse), Action::PollRecv);
    buf.put_slice(b"two");
    let parse = |bytes: &[u8]| {
        assert_eq!(bytes, b"onetwo");
        query(12, vec![question("web._http._tcp.local", QueryType::TXT, false)])
    };
    let event = Event::Received { buf: &buf, src_addr: sender() };
    assert_eq!(fsm.poll(event, &all, parse), Action::PollRecv);

    let first = Outgoing {
        message: response(0, vec![ptr(svc.clone(), 5), srv(svc.clone(), 5), txt(svc.clone(), 5)]),
        target: (group(), None),
    };
    assert_eq!(fsm.poll(Event::NoPacket, &all, nothing), Action::Send(first));
    let second = unicast(11, vec![txt(svc.clone(), 60)]);
    assert_eq!(fsm.poll(Event::SendEnded, &all, nothing), Action::Send(second));
    let third = multicast(12, vec![txt(svc, 60)]);
    assert_eq!(fsm.poll(Event::SendEnded, &all, nothing), Action::Send(third));
    assert_eq!(fsm.poll(Event::SendEnded, &all, nothing), Action::Pending);
    assert!(fsm.outgoing.is_empty());
}

#[test]
fn a_failed_receive_does_not_stop_sending() {
    let all = services();
    let (mut fsm, _) = FSM::<Inet>::new(true);
    assert_eq!(fsm.poll(Event::RecvFailed, &all, nothing), Action::Pending);
    fsm.announce(&all.services[0], 1, &all, None);
    match fsm.poll(Event::RecvFailed, &all, nothing) {
        Action::Send(outgoing) => assert_eq!(outgoing.target, (group(), None)),
        _ => panic!("nothing to send"),
    }
    assert_eq!(fsm.poll(Event::SendEnded, &all, nothing), Action::Pending);
}

#[test]
fn the_responder_ends_on_shutdown_and_when_commands_end() {
    let all = services();
    let (mut fsm, _) = FSM::<Inet>::new(true);
    fsm.announce(&all.services[0], 1, &all, None);
    let stop = Event::Command(Some(Command::Shutdown));
    assert_eq!(fsm.poll(stop, &all, nothing), Action::Ready);
    assert_eq!(fsm.poll(Event::Command(None), &all, nothing), Action::Ready);
    assert_eq!(fsm.outgoing.len(), 1);
}

#[test]
fn sends_that_went_wrong_are_reported() {
    assert_eq!(send_report(5, SendOutcome::Sent(5)), SendReport::Nothing);
    assert_eq!(send_report(5, SendOutcome::Sent(4)), SendReport::Partial);
    assert_eq!(send_report(5, SendOutcome::WouldBlock), SendReport::Nothing);
    assert_eq!(send_report(5, SendOutcome::Failed), SendReport::Failed);
    assert_eq!(send_report(5, SendOutcome::Pending), SendReport::Nothing);
}
