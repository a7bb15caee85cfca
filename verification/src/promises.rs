//! What callers may rely on: for each operation, what its result holds for what it is given,
//! and how the results of related calls go together.
use crate::address_family::{AddressFamily, Inet, Inet6, PacketInfo, SocketOp};
use crate::error::IoErrorView;
use crate::fsm::{
    Action, ActionView, Command, CommandView, Event, EventView, Findings, OutgoingView,
    SendOutcome, FSM,
};
use crate::laws::Step;
use crate::message::{
    Answer, AnswerView, Header, MessageView, Packet, PacketView, QueryClass, QuestionView,
    RRData,
};
use crate::net::{Domain, Interface, IpAddr, Ipv4Addr, Ipv6Addr, Listing, SocketAddr};
use crate::services::{ServiceView, Services, ServicesView};
use crate::setup::SetupStep;
use crate::udp_socket::{
    ControlMessage, Iface, RecvAction, RecvEvent, RecvMsg, SendAction, SendEvent, SendRequest,
    SockAddr, SocketError,
};
use crate::{address_family, fsm, laws, net, read_buf, setup, udp_socket};
use tokio::io::ReadBuf;
use vstd::prelude::*;

verus! {

// Addresses

/// Of the IPv4 addresses those that start with 127 are loopback addresses, of the IPv6
/// addresses `::1` alone.
pub proof fn loopback_addresses(v4: Ipv4Addr, v6: Ipv6Addr)
    ensures
        IpAddr::V4(v4).loopback() <==> v4.octets[0] == 127,
        IpAddr::V6(v6).loopback() <==> is_one(v6),
        IpAddr::V4(v4).domain() == Domain::IPV4,
        IpAddr::V6(v6).domain() == Domain::IPV6,
{
    let one = Ipv6Addr::of(0, 0, 0, 0, 0, 0, 0, 1);
    if is_one(v6) {
        assert(v6.segments =~= one.segments);
    } else if v6 == one {
        assert(is_one(one));
    }
}

/// Whether the segments of the address are all zero but for the last, which is one.
pub open spec fn is_one(v6: Ipv6Addr) -> bool {
    &&& v6.segments[0] == 0
    &&& v6.segments[1] == 0
    &&& v6.segments[2] == 0
    &&& v6.segments[3] == 0
    &&& v6.segments[4] == 0
    &&& v6.segments[5] == 0
    &&& v6.segments[6] == 0
    &&& v6.segments[7] == 1
}

/// Whether other machines of the family `domain` can reach the host at the address.
pub open spec fn reachable(ip: IpAddr, domain: Domain) -> bool {
    match ip {
        IpAddr::V4(v4) => domain == Domain::IPV4 && v4.octets[0] != 127,
        IpAddr::V6(v6) => domain == Domain::IPV6 && !is_one(v6),
    }
}

/// Whether `answer` says, for `ttl`, that the host `hostname` has the address `ip`.
pub open spec fn gives_address(
    answer: AnswerView,
    hostname: Seq<char>,
    ttl: u32,
    ip: IpAddr,
) -> bool {
    match ip {
        IpAddr::V4(v4) => answer == (AnswerView::Address {
            name: hostname,
            class: QueryClass::IN,
            ttl,
            data: RRData::A(v4),
        }),
        IpAddr::V6(v6) => answer == (AnswerView::Address {
            name: hostname,
            class: QueryClass::IN,
            ttl,
            data: RRData::AAAA(v6),
        }),
    }
}

/// Whether `answers` give an address.
pub open spec fn give_address(
    answers: Seq<AnswerView>,
    hostname: Seq<char>,
    ttl: u32,
    ip: IpAddr,
) -> bool {
    exists|i: int| 0 <= i < answers.len() && gives_address(#[trigger] answers[i], hostname, ttl, ip)
}

/// The port of a socket address, and its IP address, are those that it was made of; an IPv6
/// address has no flow label and no scope.
pub proof fn socket_addresses_keep_their_parts(v4: Ipv4Addr, v6: Ipv6Addr, port: u16)
    ensures
        SocketAddr::of(IpAddr::V4(v4), port) == (SocketAddr::V4 { ip: v4, port }),
        SocketAddr::of(IpAddr::V6(v6), port) == (SocketAddr::V6 {
            ip: v6,
            port,
            flowinfo: 0,
            scope_id: 0,
        }),
        SocketAddr::of(IpAddr::V4(v4), port).domain() == Domain::IPV4,
        SocketAddr::of(IpAddr::V6(v6), port).domain() == Domain::IPV6,
{
}

/// The bytes of an address stand in the order they are written.
pub proof fn addresses_keep_their_order(a: u8, b: u8, c: u8, d: u8, s: Seq<u16>)
    requires
        s.len() == 8,
    ensures
        Ipv4Addr::of(a, b, c, d).octets@ == seq![a, b, c, d],
        Ipv6Addr::of(s[0], s[1], s[2], s[3], s[4], s[5], s[6], s[7]).segments@ == s,
{
    assert(Ipv4Addr::of(a, b, c, d).octets@ =~= seq![a, b, c, d]);
    assert(Ipv6Addr::of(s[0], s[1], s[2], s[3], s[4], s[5], s[6], s[7]).segments@ =~= s);
}

/// One interface gets one record if its address is reachable in the family, and else none.
pub proof fn one_interface_has_one_record(
    hostname: Seq<char>,
    ttl: u32,
    domain: Domain,
    iface: Interface,
)
    ensures
        ({
            let records = fsm::address_records(hostname, ttl, domain, seq![iface]);
            if reachable(iface.ip, domain) {
                records.len() == 1 && gives_address(records[0], hostname, ttl, iface.ip)
            } else {
                records.len() == 0
            }
        }),
        fsm::address_records(hostname, ttl, domain, seq![]).len() == 0,
{
    reveal_with_fuel(Seq::filter, 3);
    reachable_is_announced(iface, domain);
    assert(seq![iface].drop_last() =~= Seq::<Interface>::empty());
    fsm::no_interfaces_no_records(hostname, ttl, domain);
}

/// The addresses that are announced are those that are reachable.
proof fn reachable_is_announced(iface: Interface, domain: Domain)
    ensures
        reachable(iface.ip, domain) == fsm::announced(iface, domain),
{
    match iface.ip {
        IpAddr::V4(v4) => {
            loopback_addresses(v4, Ipv6Addr::of(0, 0, 0, 0, 0, 0, 0, 0));
        },
        IpAddr::V6(v6) => {
            loopback_addresses(Ipv4Addr::of(0, 0, 0, 0), v6);
        },
    }
}

/// The records of interfaces do not depend on which others there are: those of two lists
/// together are those of the first, followed by those of the second.
pub proof fn address_records_join(
    hostname: Seq<char>,
    ttl: u32,
    domain: Domain,
    first: Seq<Interface>,
    second: Seq<Interface>,
)
    ensures
        fsm::address_records(hostname, ttl, domain, first + second) == fsm::address_records(
            hostname,
            ttl,
            domain,
            first,
        ) + fsm::address_records(hostname, ttl, domain, second),
{
    let wanted = |iface: Interface| fsm::announced(iface, domain);
    Seq::filter_distributes_over_add(first, second, wanted);
    assert(fsm::address_records(hostname, ttl, domain, first + second) =~= fsm::address_records(
        hostname,
        ttl,
        domain,
        first,
    ) + fsm::address_records(hostname, ttl, domain, second));
}

/// Every reachable address is given.
pub proof fn every_reachable_address_is_given(
    hostname: Seq<char>,
    ttl: u32,
    domain: Domain,
    interfaces: Seq<Interface>,
    k: int,
)
    requires
        0 <= k < interfaces.len(),
        reachable(interfaces[k].ip, domain),
    ensures
        give_address(
            fsm::address_records(hostname, ttl, domain, interfaces),
            hostname,
            ttl,
            interfaces[k].ip,
        ),
{
    reachable_is_announced(interfaces[k], domain);
    laws::addresses_are_announced(hostname, ttl, domain, interfaces, k);
    let records = fsm::address_records(hostname, ttl, domain, interfaces);
    let record = fsm::address_record(hostname, ttl, interfaces[k].ip);
    let i = choose|i: int| 0 <= i < records.len() && records[i] == record;
    assert(gives_address(records[i], hostname, ttl, interfaces[k].ip));
}

/// What more records hold, they hold beside others.
proof fn more_answers_give_more(
    before: Seq<AnswerView>,
    answers: Seq<AnswerView>,
    hostname: Seq<char>,
    ttl: u32,
    ip: IpAddr,
)
    requires
        give_address(answers, hostname, ttl, ip),
    ensures
        give_address(before + answers, hostname, ttl, ip),
{
    let i = choose|i: int|
        0 <= i < answers.len() && gives_address(#[trigger] answers[i], hostname, ttl, ip);
    assert((before + answers)[before.len() + i] == answers[i]);
}

// Services

/// The services of a type are, in order, those that were registered with that type: asking
/// for them among the services of two lists together gives those of the first, followed by
/// those of the second.
pub proof fn services_of_a_type_join(
    hostname: Seq<char>,
    first: Seq<ServiceView>,
    second: Seq<ServiceView>,
    svc: ServiceView,
    typ: Seq<char>,
)
    ensures
        (ServicesView { hostname, services: first + second }).of_type(typ) == (ServicesView {
            hostname,
            services: first,
        }).of_type(typ) + (ServicesView { hostname, services: second }).of_type(typ),
        (ServicesView { hostname, services: seq![svc] }).of_type(typ) == (if svc.typ == typ {
            seq![svc]
        } else {
            seq![]
        }),
        (ServicesView { hostname, services: seq![] }).of_type(typ).len() == 0,
{
    let wanted = |svc: ServiceView| svc.typ == typ;
    Seq::filter_distributes_over_add(first, second, wanted);
    reveal_with_fuel(Seq::filter, 3);
    assert(seq![svc].drop_last() =~= Seq::<ServiceView>::empty());
    assert(seq![svc].filter(wanted) =~= (if svc.typ == typ {
        seq![svc]
    } else {
        seq![]
    }));
}

/// The service of a name is the first that was registered with it.
pub proof fn the_first_of_a_name_is_found(services: ServicesView, name: Seq<char>, k: int)
    requires
        0 <= k < services.services.len(),
        services.services[k].name == name,
        forall|j: int| 0 <= j < k ==> (#[trigger] services.services[j]).name != name,
    ensures
        services.of_name(name) == Some(services.services[k]),
{
    let wanted = |svc: ServiceView| svc.name == name;
    let all = services.services;
    nothing_passes(all.take(k), wanted);
    reveal(Seq::filter);
    assert(all.take(k + 1).drop_last() =~= all.take(k));
    assert(all.take(k + 1).filter(wanted) =~= seq![all[k]]);
    assert(all =~= all.take(k + 1) + all.skip(k + 1));
    Seq::filter_distributes_over_add(all.take(k + 1), all.skip(k + 1), wanted);
    assert(all.filter(wanted)[0] == all[k]);
}

/// A filter that nothing passes leaves nothing.
proof fn nothing_passes<A>(s: Seq<A>, pred: spec_fn(A) -> bool)
    requires
        forall|i: int| 0 <= i < s.len() ==> !pred(#[trigger] s[i]),
    ensures
        s.filter(pred).len() == 0,
    decreases s.len(),
{
    reveal(Seq::filter);
    if s.len() > 0 {
        nothing_passes(s.drop_last(), pred);
        assert(!pred(s[s.len() - 1]));
    }
}

/// A name that no service was registered with is not found.
pub proof fn an_unknown_name_is_not_found(services: ServicesView, name: Seq<char>)
    requires
        forall|j: int|
            0 <= j < services.services.len() ==> (#[trigger] services.services[j]).name != name,
    ensures
        services.of_name(name) is None,
{
    nothing_passes(services.services, |svc: ServiceView| svc.name == name);
}

/// A service has three records, which live for the time that is asked for: one from its type
/// to its name, one that says where it is, and one with its TXT data.
pub proof fn a_service_has_three_records(svc: ServiceView, hostname: Seq<char>, ttl: u32)
    ensures
        three_records(svc.records(hostname, ttl), svc, hostname, ttl),
{
}

/// Whether `answers` are the PTR, the SRV and the TXT record of the service, in this order.
pub open spec fn three_records(
    answers: Seq<AnswerView>,
    svc: ServiceView,
    hostname: Seq<char>,
    ttl: u32,
) -> bool {
    &&& answers.len() == 3
    &&& answers[0] == (AnswerView::Ptr { svc, ttl })
    &&& answers[1] == (AnswerView::Srv { svc, hostname, ttl })
    &&& answers[2] == (AnswerView::Txt { svc, ttl })
}

// Questions

/// Who asks for the host by its name, for addresses of either family or for anything, is
/// given every address of the family that is reachable.
pub proof fn the_host_is_found(
    question: QuestionView,
    services: ServicesView,
    domain: Domain,
    lookups: Seq<Seq<Interface>>,
    k: int,
)
    requires
        question.qtype is A || question.qtype is AAAA || question.qtype is All,
        question.qname == services.hostname,
        0 <= k < lookups[0].len(),
        reachable(lookups[0][k].ip, domain),
    ensures
        give_address(
            fsm::question_answers(question, services, domain, lookups),
            services.hostname,
            60,
            lookups[0][k].ip,
        ),
{
    every_reachable_address_is_given(services.hostname, 60, domain, lookups[0], k);
    assert(fsm::question_answers(question, services, domain, lookups) == fsm::address_records(
        services.hostname,
        60,
        domain,
        lookups[0],
    ));
}

/// Who asks for the host by its name is given its addresses and nothing else, whichever of
/// the three types is asked for, and who asks for another host is given nothing.
pub proof fn only_the_host_is_found(
    question: QuestionView,
    services: ServicesView,
    domain: Domain,
    lookups: Seq<Seq<Interface>>,
)
    requires
        question.qtype is A || question.qtype is AAAA || question.qtype is All,
    ensures
        question.qname == services.hostname ==> fsm::question_answers(
            question,
            services,
            domain,
            lookups,
        ) == fsm::address_records(services.hostname, 60, domain, lookups[0]),
        question.qname != services.hostname ==> fsm::question_answers(
            question,
            services,
            domain,
            lookups,
        ).len() == 0,
{
}

/// Only the first lookups count for as many services.
proof fn type_answers_need_their_lookups(
    svcs: Seq<ServiceView>,
    hostname: Seq<char>,
    domain: Domain,
    lookups: Seq<Seq<Interface>>,
    more: Seq<Seq<Interface>>,
)
    requires
        svcs.len() <= lookups.len(),
    ensures
        fsm::type_answers(svcs, hostname, domain, lookups + more) == fsm::type_answers(
            svcs,
            hostname,
            domain,
            lookups,
        ),
    decreases svcs.len(),
{
    if svcs.len() > 0 {
        type_answers_need_their_lookups(svcs.drop_last(), hostname, domain, lookups, more);
    }
}

/// The records for two lists of services are those for the first, and then the second.
proof fn type_answers_join(
    first: Seq<ServiceView>,
    second: Seq<ServiceView>,
    hostname: Seq<char>,
    domain: Domain,
    lookups: Seq<Seq<Interface>>,
    more: Seq<Seq<Interface>>,
)
    requires
        lookups.len() == first.len(),
        more.len() == second.len(),
    ensures
        fsm::type_answers(first + second, hostname, domain, lookups + more) == fsm::type_answers(
            first,
            hostname,
            domain,
            lookups,
        ) + fsm::type_answers(second, hostname, domain, more),
    decreases second.len(),
{
    let whole = fsm::type_answers(first + second, hostname, domain, lookups + more);
    let left = fsm::type_answers(first, hostname, domain, lookups);
    if second.len() == 0 {
        assert(first + second =~= first);
        assert(lookups + more =~= lookups);
        assert(left + fsm::type_answers(second, hostname, domain, more) =~= left);
    } else {
        let n = second.len() - 1;
        type_answers_join(
            first,
            second.drop_last(),
            hostname,
            domain,
            lookups,
            more.drop_last(),
        );
        assert((first + second).drop_last() =~= first + second.drop_last());
        assert((lookups + more.drop_last()) + seq![more.last()] =~= lookups + more);
        assert(more.drop_last() + seq![more.last()] =~= more);
        type_answers_need_their_lookups(
            first + second.drop_last(),
            hostname,
            domain,
            lookups + more.drop_last(),
            seq![more.last()],
        );
        type_answers_need_their_lookups(
            second.drop_last(),
            hostname,
            domain,
            more.drop_last(),
            seq![more.last()],
        );
        assert((lookups + more)[(first + second).len() - 1] == more[n]);
        assert(whole =~= left + fsm::type_answers(second, hostname, domain, more));
    }
}

/// Who asks for a type of services is told of each service apart: the answer over the
/// services of two lists together is the answer over the first, followed by that over the
/// second.
pub proof fn services_are_answered_apart(
    question: QuestionView,
    hostname: Seq<char>,
    first: Seq<ServiceView>,
    second: Seq<ServiceView>,
    domain: Domain,
    lookups: Seq<Seq<Interface>>,
    more: Seq<Seq<Interface>>,
)
    requires
        question.qtype is PTR,
        lookups.len() == fsm::lookups_needed(
            question,
            ServicesView { hostname, services: first },
        ),
        more.len() == fsm::lookups_needed(question, ServicesView { hostname, services: second }),
    ensures
        fsm::question_answers(
            question,
            ServicesView { hostname, services: first + second },
            domain,
            lookups + more,
        ) == fsm::question_answers(
            question,
            ServicesView { hostname, services: first },
            domain,
            lookups,
        ) + fsm::question_answers(
            question,
            ServicesView { hostname, services: second },
            domain,
            more,
        ),
{
    let svc = ServiceView { name: seq![], typ: seq![], port: 0, txt: seq![] };
    services_of_a_type_join(hostname, first, second, svc, question.qname);
    type_answers_join(
        (ServicesView { hostname, services: first }).of_type(question.qname),
        (ServicesView { hostname, services: second }).of_type(question.qname),
        hostname,
        domain,
        lookups,
        more,
    );
}

/// The records for one service are its own, followed by the addresses of the host.
proof fn one_service_of_a_type(
    svc: ServiceView,
    hostname: Seq<char>,
    domain: Domain,
    lookups: Seq<Seq<Interface>>,
)
    ensures
        fsm::type_answers(seq![svc], hostname, domain, lookups) == svc.records(hostname, 60)
            + fsm::address_records(hostname, 60, domain, lookups[0]),
        fsm::type_answers(seq![], hostname, domain, lookups).len() == 0,
{
    reveal_with_fuel(fsm::type_answers, 2);
    assert(seq![svc].drop_last() =~= Seq::<ServiceView>::empty());
    assert(fsm::type_answers(seq![svc], hostname, domain, lookups) =~= svc.records(hostname, 60)
        + fsm::address_records(hostname, 60, domain, lookups[0]));
}

/// Where records are followed by those of interfaces, every reachable address is given.
proof fn addresses_are_given_behind(
    before: Seq<AnswerView>,
    hostname: Seq<char>,
    ttl: u32,
    domain: Domain,
    interfaces: Seq<Interface>,
)
    ensures
        forall|k: int|
            0 <= k < interfaces.len() && reachable((#[trigger] interfaces[k]).ip, domain)
                ==> give_address(
                before + fsm::address_records(hostname, ttl, domain, interfaces),
                hostname,
                ttl,
                interfaces[k].ip,
            ),
{
    let addresses = fsm::address_records(hostname, ttl, domain, interfaces);
    assert forall|k: int|
        0 <= k < interfaces.len() && reachable(
            (#[trigger] interfaces[k]).ip,
            domain,
        ) implies give_address(before + addresses, hostname, ttl, interfaces[k].ip) by {
        every_reachable_address_is_given(hostname, ttl, domain, interfaces, k);
        more_answers_give_more(before, addresses, hostname, ttl, interfaces[k].ip);
    }
}

/// Where one service is registered, who asks for its type is given its three records and
/// every reachable address of the host, and who asks for another type is given nothing.
#[verifier::spinoff_prover]
#[verifier::rlimit(40)]
pub proof fn one_service_is_answered_by_its_type(
    question: QuestionView,
    hostname: Seq<char>,
    svc: ServiceView,
    domain: Domain,
    lookups: Seq<Seq<Interface>>,
)
    requires
        question.qtype is PTR,
    ensures
        ({
            let answers = fsm::question_answers(
                question,
                ServicesView { hostname, services: seq![svc] },
                domain,
                lookups,
            );
            if svc.typ == question.qname {
                &&& answers.len() >= 3
                &&& three_records(answers.take(3), svc, hostname, 60)
                &&& answers.skip(3) == fsm::address_records(hostname, 60, domain, lookups[0])
                &&& forall|k: int|
                    0 <= k < lookups[0].len() && reachable(
                        (#[trigger] lookups[0][k]).ip,
                        domain,
                    ) ==> give_address(answers, hostname, 60, lookups[0][k].ip)
            } else {
                answers.len() == 0
            }
        }),
        fsm::question_answers(
            question,
            ServicesView { hostname, services: seq![] },
            domain,
            lookups,
        ).len() == 0,
{
    services_of_a_type_join(hostname, seq![], seq![], svc, question.qname);
    one_service_of_a_type(svc, hostname, domain, lookups);
    let none = (ServicesView { hostname, services: seq![] }).of_type(question.qname);
    assert(none =~= Seq::<ServiceView>::empty());
    if svc.typ == question.qname {
        let own = svc.records(hostname, 60);
        let addresses = fsm::address_records(hostname, 60, domain, lookups[0]);
        assert((own + addresses).take(3) =~= own);
        assert((own + addresses).skip(3) =~= addresses);
        addresses_are_given_behind(own, hostname, 60, domain, lookups[0]);
    }
}

/// Who asks where a service is, or for its TXT data, is answered for the first service that
/// was registered with the name: with its SRV record and the addresses of the host, or with
/// its TXT record alone.
pub proof fn the_named_service_is_answered(
    question: QuestionView,
    services: ServicesView,
    domain: Domain,
    lookups: Seq<Seq<Interface>>,
    k: int,
)
    requires
        0 <= k < services.services.len(),
        services.services[k].name == question.qname,
        forall|j: int| 0 <= j < k ==> (#[trigger] services.services[j]).name != question.qname,
    ensures
        ({
            let svc = services.services[k];
            let hostname = services.hostname;
            let answers = fsm::question_answers(question, services, domain, lookups);
            &&& question.qtype is TXT ==> answers == seq![AnswerView::Txt { svc, ttl: 60 }]
            &&& question.qtype is SRV ==> {
                &&& answers.len() >= 1
                &&& answers[0] == (AnswerView::Srv { svc, hostname, ttl: 60 })
                &&& answers.skip(1) == fsm::address_records(hostname, 60, domain, lookups[0])
                &&& forall|i: int|
                    0 <= i < lookups[0].len() && reachable(
                        (#[trigger] lookups[0][i]).ip,
                        domain,
                    ) ==> give_address(answers, hostname, 60, lookups[0][i].ip)
            }
        }),
{
    the_first_of_a_name_is_found(services, question.qname, k);
    let hostname = services.hostname;
    let answers = fsm::question_answers(question, services, domain, lookups);
    if question.qtype is SRV {
        let addresses = fsm::address_records(hostname, 60, domain, lookups[0]);
        assert(answers.skip(1) =~= addresses);
        assert(answers =~= seq![answers[0]] + addresses);
        addresses_are_given_behind(seq![answers[0]], hostname, 60, domain, lookups[0]);
    }
}

/// A service that is not there, and a type that there are no answers for, get none.
pub proof fn unknown_things_are_not_answered(
    question: QuestionView,
    services: ServicesView,
    domain: Domain,
    lookups: Seq<Seq<Interface>>,
)
    requires
        question.qtype is Other || ((question.qtype is SRV || question.qtype is TXT)
            && forall|j: int|
            0 <= j < services.services.len() ==> (#[trigger] services.services[j]).name
                != question.qname),
    ensures
        fsm::question_answers(question, services, domain, lookups).len() == 0,
{
    if !(question.qtype is Other) {
        an_unknown_name_is_not_found(services, question.qname);
    }
}

// Packets

/// The answers to the questions of a packet do not depend on each other: those to two lists
/// of questions together are those to the first, followed by those to the second.
pub proof fn questions_are_answered_apart(
    first: Seq<QuestionView>,
    second: Seq<QuestionView>,
    qu: bool,
    services: ServicesView,
    domain: Domain,
    lookups: Seq<Seq<Seq<Interface>>>,
    more: Seq<Seq<Seq<Interface>>>,
)
    requires
        lookups.len() == first.len(),
        more.len() == second.len(),
    ensures
        fsm::packet_answers(first + second, qu, services, domain, lookups + more)
            == fsm::packet_answers(first, qu, services, domain, lookups) + fsm::packet_answers(
            second,
            qu,
            services,
            domain,
            more,
        ),
    decreases second.len(),
{
    let left = fsm::packet_answers(first, qu, services, domain, lookups);
    let whole = fsm::packet_answers(first + second, qu, services, domain, lookups + more);
    if second.len() == 0 {
        assert(first + second =~= first);
        assert(lookups + more =~= lookups);
        assert(left + fsm::packet_answers(second, qu, services, domain, more) =~= left);
    } else {
        let rest = more.drop_last();
        questions_are_answered_apart(
            first,
            second.drop_last(),
            qu,
            services,
            domain,
            lookups,
            rest,
        );
        assert((first + second).drop_last() =~= first + second.drop_last());
        assert((lookups + rest) + seq![more.last()] =~= lookups + more);
        assert(rest + seq![more.last()] =~= more);
        packet_answers_need_their_lookups(
            first + second.drop_last(),
            qu,
            services,
            domain,
            lookups + rest,
            seq![more.last()],
        );
        packet_answers_need_their_lookups(
            second.drop_last(),
            qu,
            services,
            domain,
            rest,
            seq![more.last()],
        );
        assert((lookups + more)[(first + second).len() - 1] == more[second.len() - 1]);
        assert(whole =~= left + fsm::packet_answers(second, qu, services, domain, more));
    }
}

/// Only the first lookups count for as many questions.
proof fn packet_answers_need_their_lookups(
    questions: Seq<QuestionView>,
    qu: bool,
    services: ServicesView,
    domain: Domain,
    lookups: Seq<Seq<Seq<Interface>>>,
    more: Seq<Seq<Seq<Interface>>>,
)
    requires
        questions.len() <= lookups.len(),
    ensures
        fsm::packet_answers(questions, qu, services, domain, lookups + more)
            == fsm::packet_answers(questions, qu, services, domain, lookups),
    decreases questions.len(),
{
    if questions.len() > 0 {
        packet_answers_need_their_lookups(
            questions.drop_last(),
            qu,
            services,
            domain,
            lookups,
            more,
        );
    }
}

/// A single question of the internet class, or of any class, is answered by unicast if it
/// asks for that, and to the group if it does not; one of another class is not answered.
pub proof fn one_question_is_answered_where_it_asks(
    question: QuestionView,
    qu: bool,
    services: ServicesView,
    domain: Domain,
    lookups: Seq<Seq<Interface>>,
)
    ensures
        fsm::packet_answers(seq![question], qu, services, domain, seq![lookups]) == (if (
        question.qclass is IN || question.qclass is Any) && question.qu == qu {
            fsm::question_answers(question, services, domain, lookups)
        } else {
            seq![]
        }),
        fsm::packet_answers(seq![], qu, services, domain, seq![]).len() == 0,
{
    reveal_with_fuel(fsm::packet_answers, 2);
    assert(seq![question].drop_last() =~= Seq::<QuestionView>::empty());
    assert(fsm::packet_answers(seq![question], qu, services, domain, seq![lookups]) =~= (if (
    question.qclass is IN || question.qclass is Any) && question.qu == qu {
        fsm::question_answers(question, services, domain, lookups)
    } else {
        seq![]
    }));
}

/// Whether `outgoing` is an authoritative response with the id, with exactly the records and
/// with no limit on its size.
pub open spec fn responds(outgoing: OutgoingView, id: u16, answers: Seq<AnswerView>) -> bool {
    &&& outgoing.message.id == id
    &&& outgoing.message.answers == answers
    &&& outgoing.message.authoritative
    &&& !outgoing.message.recursion
    &&& outgoing.message.max_size is None
}

/// Whether `addr` is the multicast DNS port of the group.
pub open spec fn is_group(addr: SocketAddr, group: IpAddr) -> bool {
    match group {
        IpAddr::V4(v4) => addr == (SocketAddr::V4 { ip: v4, port: 5353 }),
        IpAddr::V6(v6) => addr == (SocketAddr::V6 {
            ip: v6,
            port: 5353,
            flowinfo: 0,
            scope_id: 0,
        }),
    }
}

/// A whole query is replied to wherever it came from: the sender gets exactly the answers to
/// the questions that want unicast answers, if there are any, at the very address that it
/// sent from, and the group gets exactly the answers to the others, if there are any, through
/// the interface that the query came in on. There are no other replies.
pub proof fn queries_are_replied_to(
    packet: PacketView,
    src_addr: (SocketAddr, Option<Iface>),
    services: ServicesView,
    domain: Domain,
    group: IpAddr,
    lookups: Seq<Seq<Seq<Interface>>>,
)
    requires
        packet.header.query,
        !packet.header.truncated,
    ensures
        ({
            let to_group = fsm::packet_answers(
                packet.questions,
                false,
                services,
                domain,
                lookups,
            );
            let to_sender = fsm::packet_answers(
                packet.questions,
                true,
                services,
                domain,
                lookups,
            );
            let replies = fsm::replies(
                Some(packet),
                src_addr,
                services,
                domain,
                group,
                lookups,
            );
            let id = packet.header.id;
            &&& to_group.len() > 0 ==> {
                &&& replies.len() > 0
                &&& responds(replies[0], id, to_group)
                &&& is_group(replies[0].target.0, group)
                &&& replies[0].target.1 == src_addr.1
            }
            &&& to_sender.len() > 0 ==> {
                &&& replies.len() > 0
                &&& responds(replies.last(), id, to_sender)
                &&& replies.last().target == src_addr
            }
            &&& replies.len() == (if to_group.len() > 0 {
                1int
            } else {
                0
            }) + (if to_sender.len() > 0 {
                1int
            } else {
                0
            })
        }),
{
}

/// What is no whole query is not replied to.
pub proof fn nothing_else_is_replied_to(
    packet: Option<PacketView>,
    src_addr: (SocketAddr, Option<Iface>),
    services: ServicesView,
    domain: Domain,
    group: IpAddr,
    lookups: Seq<Seq<Seq<Interface>>>,
)
    requires
        packet is None || !packet->Some_0.header.query || packet->Some_0.header.truncated,
    ensures
        fsm::replies(packet, src_addr, services, domain, group, lookups).len() == 0,
{
}

/// A query for the host that wants a unicast answer is replied to, whoever asks, as soon as
/// the host has an address of the family that is reachable; the reply goes to the sender.
pub proof fn a_query_for_the_host_is_replied_to(
    question: QuestionView,
    id: u16,
    src_addr: (SocketAddr, Option<Iface>),
    services: ServicesView,
    domain: Domain,
    group: IpAddr,
    lookups: Seq<Seq<Interface>>,
    k: int,
)
    requires
        question.qtype is A || question.qtype is AAAA || question.qtype is All,
        question.qclass is IN || question.qclass is Any,
        question.qname == services.hostname,
        0 <= k < lookups[0].len(),
        reachable(lookups[0][k].ip, domain),
    ensures
        ({
            let packet = PacketView {
                header: Header { id, query: true, truncated: false },
                questions: seq![question],
            };
            let replies = fsm::replies(
                Some(packet),
                src_addr,
                services,
                domain,
                group,
                seq![lookups],
            );
            &&& replies.len() == 1
            &&& replies[0].message.id == id
            &&& replies[0].target.1 == src_addr.1
            &&& if question.qu {
                replies[0].target.0 == src_addr.0
            } else {
                is_group(replies[0].target.0, group)
            }
            &&& give_address(
                replies[0].message.answers,
                services.hostname,
                60,
                lookups[0][k].ip,
            )
        }),
{
    let packet = PacketView {
        header: Header { id, query: true, truncated: false },
        questions: seq![question],
    };
    the_host_is_found(question, services, domain, lookups, k);
    one_question_is_answered_where_it_asks(question, true, services, domain, lookups);
    one_question_is_answered_where_it_asks(question, false, services, domain, lookups);
    queries_are_replied_to(packet, src_addr, services, domain, group, seq![lookups]);
}

/// A packet reads the services if, and only if, it is a whole query with a question of the
/// internet class, or of any class.
pub proof fn queries_read_the_services(packet: Option<PacketView>)
    ensures
        fsm::needs_services(packet) <==> {
            &&& packet is Some
            &&& packet->Some_0.header.query
            &&& !packet->Some_0.header.truncated
            &&& exists|i: int|
                0 <= i < packet->Some_0.questions.len() && ((
                #[trigger] packet->Some_0.questions[i]).qclass is IN
                    || packet->Some_0.questions[i].qclass is Any)
        },
{
    if let Some(packet) = packet {
        assert forall|i: int| 0 <= i < packet.questions.len() implies (
        #[trigger] packet.questions[i]).served() == (packet.questions[i].qclass is IN
            || packet.questions[i].qclass is Any) by {}
    }
}

// Announcements

/// An announcement goes to the group, with the id zero, whatever the family: it holds the PTR,
/// the SRV and the TXT record of its service, followed, where interfaces are given, by every
/// address of the family that is reachable. All live for the time that was asked for.
pub proof fn announcements_hold_service_and_addresses(
    svc: ServiceView,
    ttl: u32,
    services: ServicesView,
    domain: Domain,
    group: IpAddr,
    interfaces: Option<Seq<Interface>>,
)
    ensures
        ({
            let outgoing = fsm::announcement(svc, ttl, services, domain, group, interfaces);
            let answers = outgoing.message.answers;
            &&& responds(outgoing, 0, answers)
            &&& is_group(outgoing.target.0, group)
            &&& outgoing.target.1 is None
            &&& answers.len() >= 3
            &&& three_records(answers.take(3), svc, services.hostname, ttl)
            &&& interfaces is None ==> answers.len() == 3
            &&& interfaces matches Some(list) ==> {
                &&& answers.skip(3) == fsm::address_records(
                    services.hostname,
                    ttl,
                    domain,
                    list,
                )
                &&& forall|k: int|
                    0 <= k < list.len() && reachable((#[trigger] list[k]).ip, domain)
                        ==> give_address(answers, services.hostname, ttl, list[k].ip)
            }
        }),
{
    let outgoing = fsm::announcement(svc, ttl, services, domain, group, interfaces);
    let answers = outgoing.message.answers;
    let own = svc.records(services.hostname, ttl);
    assert(answers.take(3) =~= own);
    if let Some(list) = interfaces {
        let addresses = fsm::address_records(services.hostname, ttl, domain, list);
        assert(answers =~= own + addresses);
        assert(answers.skip(3) =~= addresses);
        addresses_are_given_behind(own, services.hostname, ttl, domain, list);
    }
}

// Listings

/// A listing that succeeded makes known exactly the interfaces that it gave, in order, and
/// one that failed makes known none.
pub proof fn listings_make_interfaces_known(interfaces: Vec<Interface>, e: std::io::Error)
    ensures
        net::listed(Ok(interfaces)) == interfaces@,
        net::listed(Err(e)).len() == 0,
        fsm::known(Some(Ok(interfaces))) == Some(interfaces@),
        fsm::known(Some(Err(e))) == Some(Seq::<Interface>::empty()),
        fsm::known(None) is None,
{
    assert(net::listed(Err(e)) =~= Seq::<Interface>::empty());
}

/// What is known for a question is what its own listings made known, and what a step keeps
/// is the outcome of every listing that it made, in order.
pub proof fn listings_are_known_and_kept(findings: Findings, i: int, j: int)
    requires
        0 <= i < findings.listings.len(),
        0 <= j < findings.listings[i].len(),
    ensures
        findings.lookups().len() == findings.listings.len(),
        findings.lookups()[i].len() == findings.listings[i].len(),
        findings.lookups()[i][j] == net::listed(findings.listings[i][j]),
{
}

/// The outcomes that a step keeps: that of the one listing for an announcement, or those of
/// the listings for the questions of a packet, one question after another.
pub proof fn steps_keep_their_listings(
    packet: Option<PacketView>,
    listings: Seq<Seq<Listing>>,
    more: Seq<Listing>,
    listing: Option<Listing>,
    event: EventView,
)
    ensures
        ({
            let found = Findings { packet, listings, listing };
            let longer = Findings { packet, listings: listings.push(more), listing };
            let none = Findings { packet, listings: seq![], listing };
            match event {
                EventView::Received { .. } => {
                    &&& longer.made(event) == found.made(event) + more
                    &&& none.made(event).len() == 0
                },
                EventView::Command(Some(CommandView::SendUnsolicited { .. })) => match listing {
                    Some(outcome) => found.made(event) == seq![outcome],
                    None => found.made(event).len() == 0,
                },
                _ => found.made(event).len() == 0,
            }
        }),
{
    listings.lemma_flatten_push(more);
    assert(Seq::<Seq<Listing>>::empty().flatten() =~= Seq::<Listing>::empty());
}

/// How often the interfaces are listed for a question: once for a question for the host by
/// its name, once where a service has the name whose place is asked for, and else, but for
/// questions for a type of services, never.
pub proof fn listings_that_a_question_needs(question: QuestionView, services: ServicesView)
    ensures
        question.qtype is A || question.qtype is AAAA || question.qtype is All
            ==> fsm::lookups_needed(question, services) == (if question.qname
            == services.hostname {
            1nat
        } else {
            0
        }),
        question.qtype is TXT || question.qtype is Other ==> fsm::lookups_needed(
            question,
            services,
        ) == 0,
        question.qtype is SRV ==> (fsm::lookups_needed(question, services) == 1 <==> exists|
            j: int,
        |
            0 <= j < services.services.len() && (#[trigger] services.services[j]).name
                == question.qname),
        question.qtype is SRV ==> fsm::lookups_needed(question, services) <= 1,
        fsm::lookups_made(question, services) == (if question.qclass is IN
            || question.qclass is Any {
            fsm::lookups_needed(question, services)
        } else {
            0
        }),
{
    let all = services.services;
    let name = question.qname;
    if question.qtype is SRV {
        if exists|j: int| 0 <= j < all.len() && (#[trigger] all[j]).name == name {
            let j = choose|j: int| 0 <= j < all.len() && (#[trigger] all[j]).name == name;
            all.lemma_filter_contains(|svc: ServiceView| svc.name == name, j);
            assert(services.of_name(name) is Some);
        } else {
            an_unknown_name_is_not_found(services, name);
        }
    }
}

/// For a question for a type of services the interfaces are listed once for each service that
/// was registered with the type.
pub proof fn listings_that_a_type_needs(
    question: QuestionView,
    hostname: Seq<char>,
    first: Seq<ServiceView>,
    second: Seq<ServiceView>,
    svc: ServiceView,
)
    requires
        question.qtype is PTR,
    ensures
        fsm::lookups_needed(question, ServicesView { hostname, services: first + second })
            == fsm::lookups_needed(question, ServicesView { hostname, services: first })
            + fsm::lookups_needed(question, ServicesView { hostname, services: second }),
        fsm::lookups_needed(question, ServicesView { hostname, services: seq![svc] }) == (
        if svc.typ == question.qname {
            1nat
        } else {
            0
        }),
        fsm::lookups_needed(question, ServicesView { hostname, services: seq![] }) == 0,
{
    services_of_a_type_join(hostname, first, second, svc, question.qname);
}

/// The listings that are made for a packet are, for each question of a whole query, as many
/// as it needs, and none for anything else; each is a listing of this machine.
pub proof fn packets_have_their_listings(
    packet: Option<PacketView>,
    services: ServicesView,
    listings: Seq<Seq<Listing>>,
)
    requires
        fsm::listings_made(packet, services, listings),
    ensures
        packet is Some && packet->Some_0.header.query && !packet->Some_0.header.truncated ==> {
            &&& listings.len() == packet->Some_0.questions.len()
            &&& forall|i: int|
                0 <= i < listings.len() ==> (#[trigger] listings[i]).len() == fsm::lookups_made(
                    packet->Some_0.questions[i],
                    services,
                )
        },
        !(packet is Some && packet->Some_0.header.query && !packet->Some_0.header.truncated)
            ==> listings.len() == 0,
        forall|i: int, j: int|
            0 <= i < listings.len() && 0 <= j < listings[i].len() ==> net::listing_gives(
                #[trigger] listings[i][j],
            ),
{
}

/// Lookups fit the questions of a packet if, and only if, there are as many as questions, and
/// those for each question of the internet class, or of any class, are as many as it needs.
pub proof fn lookups_that_fit(
    questions: Seq<QuestionView>,
    services: ServicesView,
    lookups: Seq<Seq<Seq<Interface>>>,
)
    ensures
        fsm::lookups_fit(questions, services, lookups) <==> {
            &&& lookups.len() == questions.len()
            &&& forall|i: int|
                0 <= i < questions.len() && (questions[i].qclass is IN
                    || questions[i].qclass is Any) ==> (#[trigger] lookups[i]).len()
                    == fsm::lookups_needed(questions[i], services)
        },
{
    assert forall|i: int| 0 <= i < questions.len() implies (#[trigger] questions[i]).served() == (
    questions[i].qclass is IN || questions[i].qclass is Any) by {}
}

// Polls

/// Whether the commands of a poll are taken up to the step `a`, and packets then up to the
/// step `b`: `a` finds that no command waits, every step between the first and `a` takes a
/// command, `b` finds that no packet waits or fails to receive, and every step between `a`
/// and `b` takes a packet. Every step after `b` has sent a message.
pub open spec fn goes_through(steps: Seq<Step>, a: int, b: int) -> bool {
    &&& 0 < a < b < steps.len()
    &&& steps[0].event is Woken
    &&& forall|i: int|
        0 < i < a ==> ((#[trigger] steps[i]).event matches EventView::Command(Some(command))
            && command is SendUnsolicited)
    &&& steps[a].event is NoCommand
    &&& forall|i: int| a < i < b ==> (#[trigger] steps[i]).event is Received
    &&& steps[b].event is NoPacket || steps[b].event is RecvFailed
    &&& forall|i: int| b < i < steps.len() ==> (#[trigger] steps[i]).event is SendEnded
}

/// Whether all steps so far, but for the first, have taken a command.
spec fn takes_commands(steps: Seq<Step>, n: int) -> bool {
    forall|i: int|
        0 < i < n ==> ((#[trigger] steps[i]).event matches EventView::Command(Some(command))
            && command is SendUnsolicited)
}

/// Whether the steps so far have taken the commands up to `a`, and packets since.
spec fn takes_packets(steps: Seq<Step>, a: int, n: int) -> bool {
    &&& 0 < a < n
    &&& takes_commands(steps, a)
    &&& steps[a].event is NoCommand
    &&& forall|i: int| a < i < n ==> (#[trigger] steps[i]).event is Received
}

/// Whether the steps so far have taken the commands, then the packets, and have sent since.
spec fn sends_messages(steps: Seq<Step>, a: int, b: int, n: int) -> bool {
    &&& takes_packets(steps, a, b)
    &&& b < n
    &&& steps[b].event is NoPacket || steps[b].event is RecvFailed
    &&& forall|i: int| b < i < n ==> (#[trigger] steps[i]).event is SendEnded
}

spec fn has_taken_packets(steps: Seq<Step>, n: int) -> bool {
    exists|a: int| takes_packets(steps, a, n)
}

spec fn has_sent_messages(steps: Seq<Step>, n: int) -> bool {
    exists|a: int, b: int| sends_messages(steps, a, b, n)
}

/// Whether a step that takes `event` may ask for `action`.
spec fn may_ask(event: EventView, action: ActionView) -> bool {
    match action {
        ActionView::PollCommand => event is Woken || (event matches EventView::Command(
            Some(command),
        ) && command is SendUnsolicited),
        ActionView::PollRecv => event is NoCommand || event is Received,
        ActionView::Ready => event is Command,
        _ => event is NoPacket || event is RecvFailed || event is SendEnded,
    }
}

/// What a step asks for is something that it may ask for.
#[verifier::spinoff_prover]
#[verifier::rlimit(40)]
proof fn steps_ask_what_they_may(
    queue: Seq<OutgoingView>,
    steps: Seq<Step>,
    domain: Domain,
    group: IpAddr,
    i: int,
)
    requires
        0 <= i < steps.len(),
    ensures
        may_ask(steps[i].event, laws::action_at(queue, steps, domain, group, i)),
{
    let step = steps[i];
    assert(steps.take(i + 1).last() == step);
    let before = laws::queue_after(queue, steps.take(i + 1).drop_last(), domain, group);
    waiting_messages_hold_nothing_up(
        before,
        step.event,
        step.services,
        domain,
        group,
        step.findings,
    );
}

/// What the steps have gone through once the last of them asks for `action`.
spec fn went_through(steps: Seq<Step>, action: ActionView, n: int) -> bool {
    match action {
        ActionView::PollCommand => takes_commands(steps, n),
        ActionView::PollRecv => has_taken_packets(steps, n),
        ActionView::Ready => true,
        _ => has_sent_messages(steps, n),
    }
}

/// One more step goes on from what was gone through.
proof fn one_more_step(steps: Seq<Step>, asked: ActionView, action: ActionView, i: int)
    requires
        0 < i < steps.len(),
        went_through(steps, asked, i),
        laws::comes_of(asked, steps[i].event),
        asked !is Pending,
        may_ask(steps[i].event, action),
    ensures
        went_through(steps, action, i + 1),
{
    match asked {
        ActionView::PollCommand => {
            if action is PollRecv {
                assert(takes_packets(steps, i, i + 1));
            }
        },
        ActionView::PollRecv => {
            let a = choose|a: int| takes_packets(steps, a, i);
            if action is PollRecv {
                assert(takes_packets(steps, a, i + 1));
            } else {
                assert(sends_messages(steps, a, i, i + 1));
            }
        },
        ActionView::Send(_) => {
            let (a, b) = choose|a: int, b: int| sends_messages(steps, a, b, i);
            assert(sends_messages(steps, a, b, i + 1));
        },
        _ => {},
    }
}

/// How far the poll has come tells what it has gone through.
#[verifier::spinoff_prover]
#[verifier::rlimit(40)]
proof fn what_a_poll_went_through(
    queue: Seq<OutgoingView>,
    steps: Seq<Step>,
    domain: Domain,
    group: IpAddr,
    i: int,
)
    requires
        laws::is_poll(queue, steps, domain, group),
        0 <= i < steps.len(),
    ensures
        went_through(steps, laws::action_at(queue, steps, domain, group, i), i + 1),
    decreases i,
{
    let action = laws::action_at(queue, steps, domain, group, i);
    steps_ask_what_they_may(queue, steps, domain, group, i);
    if i > 0 {
        let asked = laws::action_at(queue, steps, domain, group, i - 1);
        what_a_poll_went_through(queue, steps, domain, group, i - 1);
        assert(laws::comes_of(asked, steps[i].event) && asked !is Pending);
        one_more_step(steps, asked, action, i);
    } else {
        assert(steps[0].event is Woken);
        assert(takes_commands(steps, 1));
    }
}

/// Where nothing is asked for any more, all steps have been gone through.
proof fn all_steps_go_through(steps: Seq<Step>, action: ActionView)
    requires
        steps.len() > 0,
        steps[0].event is Woken,
        action is Pending,
        went_through(steps, action, steps.len() as int),
    ensures
        exists|a: int, b: int| goes_through(steps, a, b),
{
    let n = steps.len() as int;
    let (a, b) = choose|a: int, b: int| sends_messages(steps, a, b, n);
    assert(goes_through(steps, a, b));
}

/// A poll that returns with the responder going on has taken commands until none waited, and
/// then packets until none waited or receiving failed, whatever waited to be sent; and all
/// that it has done since is to send. So no poll ends without having looked for packets.
#[verifier::spinoff_prover]
#[verifier::rlimit(40)]
pub proof fn every_poll_looks_for_commands_and_packets(
    queue: Seq<OutgoingView>,
    steps: Seq<Step>,
    domain: Domain,
    group: IpAddr,
)
    requires
        laws::is_poll(queue, steps, domain, group),
        laws::last_action(queue, steps, domain, group) is Pending,
    ensures
        exists|a: int, b: int| goes_through(steps, a, b),
{
    the_last_step_asks_last(queue, steps, domain, group);
    what_a_poll_went_through(queue, steps, domain, group, steps.len() - 1);
    all_steps_go_through(steps, laws::last_action(queue, steps, domain, group));
}

/// What the last step of a poll asks for is what its step at that place asks for.
proof fn the_last_step_asks_last(
    queue: Seq<OutgoingView>,
    steps: Seq<Step>,
    domain: Domain,
    group: IpAddr,
)
    requires
        steps.len() > 0,
    ensures
        laws::action_at(queue, steps, domain, group, steps.len() - 1) == laws::last_action(
            queue,
            steps,
            domain,
            group,
        ),
{
    assert(steps.take(steps.len() as int) =~= steps);
}

/// A step that ends the responder took a command to stop, or the end of the commands.
proof fn the_responder_ends_on_a_command(
    queue: Seq<OutgoingView>,
    steps: Seq<Step>,
    domain: Domain,
    group: IpAddr,
)
    requires
        steps.len() > 0,
        laws::last_action(queue, steps, domain, group) is Ready,
    ensures
        steps.last().event == EventView::Command(None) || steps.last().event
            == EventView::Command(Some(CommandView::Shutdown)),
{
    let step = steps.last();
    laws::ends_on_shutdown_alone(
        laws::queue_after(queue, steps.drop_last(), domain, group),
        step.event,
        step.services,
        domain,
        group,
        step.findings,
    );
}

/// A poll that ends the responder was told to stop, or found the commands to have ended, after
/// nothing but commands to announce.
#[verifier::spinoff_prover]
#[verifier::rlimit(40)]
pub proof fn a_poll_ends_the_responder_on_a_command(
    queue: Seq<OutgoingView>,
    steps: Seq<Step>,
    domain: Domain,
    group: IpAddr,
)
    requires
        laws::is_poll(queue, steps, domain, group),
        laws::last_action(queue, steps, domain, group) is Ready,
    ensures
        steps.last().event == EventView::Command(None) || steps.last().event
            == EventView::Command(Some(CommandView::Shutdown)),
        forall|i: int|
            0 < i < steps.len() - 1 ==> ((#[trigger] steps[i]).event matches EventView::Command(
                Some(command),
            ) && command is SendUnsolicited),
{
    let n = steps.len() as int;
    the_responder_ends_on_a_command(queue, steps, domain, group);
    assert(steps[n - 1].event is Command);
    assert(n > 1);
    what_a_poll_went_through(queue, steps, domain, group, n - 2);
    let asked = laws::action_at(queue, steps, domain, group, n - 2);
    assert(laws::comes_of(asked, steps[n - 1].event));
    assert(asked is PollCommand);
    assert(takes_commands(steps, n - 1));
}

/// A poll that ends the responder has sent nothing.
#[verifier::spinoff_prover]
#[verifier::rlimit(40)]
pub proof fn a_poll_that_ends_the_responder_sends_nothing(
    queue: Seq<OutgoingView>,
    steps: Seq<Step>,
    domain: Domain,
    group: IpAddr,
)
    requires
        laws::is_poll(queue, steps, domain, group),
        laws::last_action(queue, steps, domain, group) is Ready,
    ensures
        laws::sent_by(queue, steps, domain, group).len() == 0,
{
    let n = steps.len() as int;
    a_poll_ends_the_responder_on_a_command(queue, steps, domain, group);
    assert(takes_commands(steps, n - 1));
    commands_send_nothing(queue, steps, domain, group, n - 1);
    assert(steps.take(n - 1) =~= steps.drop_last());
}

/// While commands are taken nothing is sent.
#[verifier::spinoff_prover]
#[verifier::rlimit(40)]
proof fn commands_send_nothing(
    queue: Seq<OutgoingView>,
    steps: Seq<Step>,
    domain: Domain,
    group: IpAddr,
    n: int,
)
    requires
        0 <= n <= steps.len(),
        steps.len() > 0,
        steps[0].event is Woken,
        takes_commands(steps, n),
    ensures
        laws::sent_by(queue, steps.take(n), domain, group).len() == 0,
    decreases n,
{
    if n > 0 {
        commands_send_nothing(queue, steps, domain, group, n - 1);
        assert(steps.take(n).drop_last() =~= steps.take(n - 1));
        assert(steps.take(n).last() == steps[n - 1]);
    }
}

/// What a step queues is among what all steps queue.
#[verifier::spinoff_prover]
#[verifier::rlimit(40)]
proof fn queued_is_queued(
    steps: Seq<Step>,
    domain: Domain,
    group: IpAddr,
    i: int,
    outgoing: OutgoingView,
)
    requires
        0 <= i < steps.len(),
        laws::queued(
            steps[i].event,
            steps[i].services,
            domain,
            group,
            steps[i].findings,
        ).contains(outgoing),
    ensures
        laws::queued_by(steps, domain, group).contains(outgoing),
    decreases steps.len(),
{
    let last = steps.last();
    let earlier = laws::queued_by(steps.drop_last(), domain, group);
    let added = laws::queued(last.event, last.services, domain, group, last.findings);
    let all = laws::queued_by(steps, domain, group);
    assert(all == earlier + added);
    if i == steps.len() - 1 {
        let k = choose|k: int| 0 <= k < added.len() && added[k] == outgoing;
        assert(all[earlier.len() + k] == outgoing);
    } else {
        queued_is_queued(steps.drop_last(), domain, group, i, outgoing);
        let k = choose|k: int| 0 <= k < earlier.len() && earlier[k] == outgoing;
        assert(all[k] == outgoing);
    }
}

/// What is asked for is done in the same poll: when a poll returns with the responder going
/// on, it has tried to send every reply to each packet that it received, and the announcement
/// for each command to announce that it took.
#[verifier::spinoff_prover]
#[verifier::rlimit(40)]
pub proof fn a_poll_sends_what_it_was_asked_for(
    queue: Seq<OutgoingView>,
    steps: Seq<Step>,
    domain: Domain,
    group: IpAddr,
    i: int,
    outgoing: OutgoingView,
)
    requires
        0 <= i < steps.len(),
        laws::last_action(queue, steps, domain, group) is Pending,
        match steps[i].event {
            EventView::Received { src_addr, .. } => fsm::replies(
                steps[i].findings.packet,
                src_addr,
                steps[i].services,
                domain,
                group,
                steps[i].findings.lookups(),
            ).contains(outgoing),
            EventView::Command(Some(CommandView::SendUnsolicited { svc, ttl, .. })) => outgoing
                == fsm::announcement(
                svc,
                ttl,
                steps[i].services,
                domain,
                group,
                steps[i].findings.interfaces(),
            ),
            _ => false,
        },
    ensures
        laws::sent_by(queue, steps, domain, group).contains(outgoing),
{
    let step = steps[i];
    let added = laws::queued(step.event, step.services, domain, group, step.findings);
    if step.event is Command {
        assert(added[0] == outgoing);
    }
    assert(added.contains(outgoing));
    queued_is_queued(steps, domain, group, i, outgoing);
    laws::a_pending_poll_has_sent_everything(queue, steps, domain, group);
    let all = laws::queued_by(steps, domain, group);
    let k = choose|k: int| 0 <= k < all.len() && all[k] == outgoing;
    assert((queue + all)[queue.len() + k] == outgoing);
}

/// What a poll does after each event, whatever messages wait: it asks for a command when it
/// starts and after each announcement, and for a packet once no command waits and after each
/// packet.
pub proof fn waiting_messages_hold_nothing_up(
    queue: Seq<OutgoingView>,
    event: EventView,
    services: ServicesView,
    domain: Domain,
    group: IpAddr,
    findings: Findings,
)
    ensures
        ({
            let action = fsm::poll_step(queue, event, services, domain, group, findings).1;
            match event {
                EventView::Woken => action is PollCommand,
                EventView::Command(Some(CommandView::SendUnsolicited { .. })) => action
                    is PollCommand,
                EventView::Command(Some(CommandView::Shutdown)) => action is Ready,
                EventView::Command(None) => action is Ready,
                EventView::NoCommand => action is PollRecv,
                EventView::Received { .. } => action is PollRecv,
                _ => if queue.len() == 0 {
                    action is Pending
                } else {
                    action == ActionView::Send(queue[0])
                },
            }
        }),
{
}

/// What waits after each event: what waited before, and behind it the one announcement that
/// was asked for or the replies to the packet that was received. Only sending takes a message
/// away, and that is the one that waited longest.
pub proof fn messages_wait_behind_each_other(
    queue: Seq<OutgoingView>,
    event: EventView,
    services: ServicesView,
    domain: Domain,
    group: IpAddr,
    findings: Findings,
)
    ensures
        ({
            let after = fsm::poll_step(queue, event, services, domain, group, findings).0;
            match event {
                EventView::Command(Some(CommandView::SendUnsolicited { svc, ttl, .. })) => {
                    &&& after.len() == queue.len() + 1
                    &&& after.drop_last() == queue
                    &&& after.last() == fsm::announcement(
                        svc,
                        ttl,
                        services,
                        domain,
                        group,
                        findings.interfaces(),
                    )
                },
                EventView::Received { src_addr, .. } => {
                    &&& queue.len() <= after.len()
                    &&& after.take(queue.len() as int) == queue
                    &&& after.skip(queue.len() as int) == fsm::replies(
                        findings.packet,
                        src_addr,
                        services,
                        domain,
                        group,
                        findings.lookups(),
                    )
                },
                EventView::NoPacket | EventView::RecvFailed | EventView::SendEnded => {
                    if queue.len() == 0 {
                        after.len() == 0
                    } else {
                        after == queue.skip(1)
                    }
                },
                _ => after == queue,
            }
        }),
{
    let after = fsm::poll_step(queue, event, services, domain, group, findings).0;
    match event {
        EventView::Command(Some(CommandView::SendUnsolicited { .. })) => {
            assert(after.drop_last() =~= queue);
        },
        EventView::Received { src_addr, .. } => {
            let n = queue.len() as int;
            assert(after.take(n) =~= queue);
            assert(after.skip(n) =~= fsm::replies(
                findings.packet,
                src_addr,
                services,
                domain,
                group,
                findings.lookups(),
            ));
        },
        _ => {},
    }
}

/// A step lists the interfaces for an announcement if, and only if, addresses were asked for,
/// and answers what the parser made of exactly the bytes that the buffer is filled with.
pub proof fn steps_find_out_what_they_need<P: Fn(&[u8]) -> Option<Packet>>(
    event: Event<'_, '_>,
    parse: P,
    services: ServicesView,
    findings: Findings,
)
    requires
        fsm::possible(event, parse, services, findings),
    ensures
        event matches Event::Command(Some(Command::SendUnsolicited { include_ip, .. })) ==> {
            &&& findings.listing is Some <==> include_ip
            &&& findings.listing matches Some(outcome) ==> net::listing_gives(outcome)
        },
        event matches Event::Received { buf, .. } ==> {
            &&& fsm::listings_made(findings.packet, services, findings.listings)
            &&& exists|bytes: &[u8], packet: Option<Packet>|
                {
                    &&& bytes@ == read_buf::read_buf_filled(*buf)
                    &&& #[trigger] call_ensures(parse, (bytes,), packet)
                    &&& match packet {
                        Some(packet) => findings.packet == Some(packet@),
                        None => findings.packet is None,
                    }
                }
        },
{
    if let Event::Received { buf, .. } = event {
        let (bytes, packet) = choose|bytes: &[u8], packet: Option<Packet>|
            bytes@ == read_buf::read_buf_filled(*buf) && #[trigger] fsm::parsed(
                parse,
                bytes,
                packet,
            ) && findings.packet == fsm::packet_view(packet);
        assert(call_ensures(parse, (bytes,), packet));
    }
}

/// An attempt to send is worth a warning if, and only if, a part of the message was sent or
/// sending failed for another reason than that it would have had to wait.
pub proof fn only_failures_are_reported(len: usize, outcome: SendOutcome)
    ensures
        fsm::report_of(len, outcome) is Failed <==> outcome is Failed,
        fsm::report_of(len, outcome) is Partial <==> (outcome matches SendOutcome::Sent(n) && n
            != len),
        fsm::report_of(len, outcome) is Nothing <==> outcome == SendOutcome::Sent(len)
            || outcome is WouldBlock || outcome is Pending,
{
}

// Receiving

/// A datagram that came from an internet address, of either family, is accepted: the address
/// is returned together with the interface that the control messages report.
pub proof fn datagrams_from_the_internet_are_accepted<E>(
    msg: RecvMsg,
    addr: SocketAddr,
    before: ReadBuf<'_>,
    after: ReadBuf<'_>,
    action: RecvAction<E>,
)
    requires
        msg.address == Some(SockAddr::Inet(addr)),
        udp_socket::recv_step(RecvEvent::Received(msg), before, after, action),
    ensures
        action == RecvAction::<E>::Return(Ok((addr, udp_socket::reported(msg.cmsgs@)))),
{
}

/// A datagram is refused for want of an address if, and only if, none was reported for it, or
/// one that is no internet address.
pub proof fn only_datagrams_from_elsewhere_are_refused<E>(
    msg: RecvMsg,
    before: ReadBuf<'_>,
    after: ReadBuf<'_>,
    action: RecvAction<E>,
)
    requires
        udp_socket::recv_step(RecvEvent::Received(msg), before, after, action),
    ensures
        action matches RecvAction::Return(result) && (result is Err <==> msg.address is None
            || msg.address == Some(SockAddr::Other)),
        action matches RecvAction::Return(Err(e)) ==> (e matches SocketError::Reported(e)
            && e.kind is Other && e.message@ == "no address found"@),
{
}

/// A datagram fills the buffer with as many bytes more as it has, and nothing else does; no
/// byte of the buffer changes.
pub proof fn datagrams_fill_the_buffer<E>(
    event: RecvEvent<E>,
    before: ReadBuf<'_>,
    after: ReadBuf<'_>,
    action: RecvAction<E>,
)
    requires
        udp_socket::recv_step(event, before, after, action),
    ensures
        read_buf::read_buf_initialized(after) == read_buf::read_buf_initialized(before),
        event matches RecvEvent::Received(msg) ==> read_buf::read_buf_filled_len(after)
            == read_buf::read_buf_filled_len(before) + msg.bytes,
        event !is Received ==> read_buf::read_buf_filled_len(after)
            == read_buf::read_buf_filled_len(before),
{
}

/// The bytes that a buffer is filled with are its first ones.
pub proof fn buffers_are_filled_from_the_start(buf: ReadBuf<'_>)
    requires
        read_buf::read_buf_filled_len(buf) <= read_buf::read_buf_initialized(buf).len(),
    ensures
        read_buf::read_buf_filled(buf).len() == read_buf::read_buf_filled_len(buf),
        forall|i: int|
            0 <= i < read_buf::read_buf_filled_len(buf) ==> (
            #[trigger] read_buf::read_buf_filled(buf)[i])
                == read_buf::read_buf_initialized(buf)[i],
{
}

/// A buffer has room for every event but a datagram that is longer than what is left of it.
pub proof fn only_long_datagrams_do_not_fit<E>(event: RecvEvent<E>, buf: ReadBuf<'_>)
    ensures
        event !is Received ==> udp_socket::recv_fits(event, buf),
        event matches RecvEvent::Received(msg) ==> (udp_socket::recv_fits(event, buf)
            <==> read_buf::read_buf_filled_len(buf) + msg.bytes
            <= read_buf::read_buf_initialized(buf).len()),
{
}

/// Receiving asks whether the socket is ready when it starts and whenever there was nothing to
/// be read after all, reads when it is, waits when it is not, and returns the error that it
/// fails with.
pub proof fn receiving_goes_on_until_it_ends<E>(
    event: RecvEvent<E>,
    before: ReadBuf<'_>,
    after: ReadBuf<'_>,
    action: RecvAction<E>,
)
    requires
        udp_socket::recv_step(event, before, after, action),
    ensures
        action is PollReady <==> event is Polled || event is WouldBlock,
        action is Receive <==> event is Ready,
        action is Pending <==> event is NotReady,
        action is Return <==> event is Failed || event is Received,
        event matches RecvEvent::Failed(e) ==> action == RecvAction::<E>::Return(
            Err(SocketError::System(e)),
        ),
{
}

/// A whole attempt to receive that received a datagram from an internet address returns that
/// address, whatever had to be waited for.
pub proof fn a_receive_returns_where_its_datagram_came_from<E>(
    events: Seq<RecvEvent<E>>,
    actions: Seq<RecvAction<E>>,
    before: Seq<ReadBuf<'_>>,
    after: Seq<ReadBuf<'_>>,
    blocks: spec_fn(E) -> bool,
    msg: RecvMsg,
    addr: SocketAddr,
    i: int,
)
    requires
        udp_socket::is_recv(events, actions, before, after, blocks),
        0 <= i < events.len(),
        events[i] == RecvEvent::<E>::Received(msg),
        msg.address == Some(SockAddr::Inet(addr)),
    ensures
        actions.last() == RecvAction::<E>::Return(
            Ok((addr, udp_socket::reported(msg.cmsgs@))),
        ),
{
    udp_socket::a_receive_receives_at_most_once(events, actions, before, after, blocks);
    assert(udp_socket::recv_step(events[i], before[i], after[i], actions[i]));
    datagrams_from_the_internet_are_accepted(msg, addr, before[i], after[i], actions[i]);
}

/// Control messages report the interface of the last that names one: behind any others, one
/// that names an interface decides, and one that names none changes nothing.
pub proof fn the_last_named_interface_is_reported(
    cmsgs: Seq<ControlMessage>,
    last: ControlMessage,
)
    ensures
        udp_socket::reported(seq![]) is None,
        udp_socket::reported(cmsgs.push(last)) == (match last {
            ControlMessage::Ipv4PacketInfo(p) => Some(Iface::V4(p)),
            ControlMessage::Ipv6PacketInfo(p) => Some(Iface::V6(p)),
            ControlMessage::Other => udp_socket::reported(cmsgs),
        }),
{
    assert(cmsgs.push(last).drop_last() =~= cmsgs);
}

// Sending

/// The control message of an interface is of its family, and holds all that is known of it.
pub proof fn interfaces_keep_their_family(iface: Iface)
    ensures
        iface matches Iface::V4(p) ==> iface.control_message()
            == ControlMessage::Ipv4PacketInfo(p),
        iface matches Iface::V6(p) ==> iface.control_message()
            == ControlMessage::Ipv6PacketInfo(p),
{
}

/// A request to send has exactly the bytes and the address that it was made for, whatever
/// they are, and asks not to wait; it names an interface if, and only if, one was given, and
/// that one.
pub proof fn requests_send_what_they_are_given(
    request: SendRequest<'_>,
    bytes: Seq<u8>,
    target: (SocketAddr, Option<Iface>),
)
    requires
        udp_socket::sends(request, bytes, target),
    ensures
        request.bytes@ == bytes,
        request.addr == target.0,
        request.dont_wait,
        target.1 is None ==> request.cmsgs@.len() == 0,
        target.1 is Some ==> request.cmsgs@.len() == 1,
        target.1 matches Some(Iface::V4(p)) ==> request.cmsgs@[0]
            == ControlMessage::Ipv4PacketInfo(p),
        target.1 matches Some(Iface::V6(p)) ==> request.cmsgs@[0]
            == ControlMessage::Ipv6PacketInfo(p),
{
}

/// Sending asks whether the socket is ready when it starts and whenever it would have had to
/// wait after all, sends when it is, waits when it is not, and returns how many bytes were
/// sent, or the error that it fails with.
pub proof fn sending_goes_on_until_it_ends<E>(
    event: SendEvent<E>,
    bytes: Seq<u8>,
    target: (SocketAddr, Option<Iface>),
    action: SendAction<'_, E>,
)
    requires
        udp_socket::send_step(event, bytes, target, action),
    ensures
        action is PollReady <==> event is Polled || event is WouldBlock,
        action is Send <==> event is Ready,
        action is Pending <==> event is NotReady,
        action is Return <==> event is Failed || event is Sent,
        action matches SendAction::Send(request) ==> udp_socket::sends(request, bytes, target),
        event matches SendEvent::Failed(e) ==> action == SendAction::<E>::Return(Err(e)),
        event matches SendEvent::Sent(n) ==> action == SendAction::<E>::Return(Ok(n)),
{
}

/// A whole attempt to send that sent a datagram returns how many bytes were sent, whatever
/// had to be waited for.
pub proof fn a_send_returns_what_was_sent<E>(
    events: Seq<SendEvent<E>>,
    actions: Seq<SendAction<'_, E>>,
    bytes: Seq<u8>,
    target: (SocketAddr, Option<Iface>),
    blocks: spec_fn(E) -> bool,
    n: usize,
    i: int,
)
    requires
        udp_socket::is_send(events, actions, bytes, target, blocks),
        0 <= i < events.len(),
        events[i] == SendEvent::<E>::Sent(n),
    ensures
        actions.last() == SendAction::<E>::Return(Ok(n)),
        actions[i - 1] matches SendAction::Send(request) && request.bytes@ == bytes
            && request.addr == target.0,
{
    udp_socket::a_send_sends_at_most_once(events, actions, bytes, target, blocks);
    assert(i > 0);
    assert(udp_socket::send_comes_of(actions[i - 1], events[i], blocks));
    assert(udp_socket::send_step(events[i - 1], bytes, target, actions[i - 1]));
}

// Setting up

/// A setup performs its operations one by one, is done when none is left, and fails with the
/// error of an operation that failed, after which none is left.
pub proof fn setups_go_on_while_they_succeed<E>(
    remaining: Seq<SocketOp>,
    outcome: Result<(), E>,
)
    ensures
        ({
            let (rest, step) = setup::setup_step(remaining, outcome);
            &&& outcome matches Err(e) ==> step == SetupStep::Failed(e) && rest.len() == 0
            &&& outcome is Ok && remaining.len() == 0 ==> step is Done && rest.len() == 0
            &&& outcome is Ok && remaining.len() > 0 ==> step == SetupStep::<E>::Perform(
                remaining[0],
            ) && rest == remaining.skip(1)
        }),
{
}

/// A socket is created in its family, is set to share its address and not to block, and, where
/// the system can, to share its port; it is then bound to the multicast DNS port, and joins
/// the group last.
pub proof fn sockets_are_planned_in_this_order(
    domain: Domain,
    any: IpAddr,
    join: SocketOp,
    reuse_port: bool,
)
    ensures
        ({
            let plan = address_family::bind_plan(domain, any, join, reuse_port);
            let n = plan.len() as int;
            &&& n == (if reuse_port {
                6int
            } else {
                5
            })
            &&& plan[0] == (SocketOp::Create { domain })
            &&& plan[1] == SocketOp::SetReuseAddress(true)
            &&& plan[2] == SocketOp::SetNonblocking(true)
            &&& reuse_port ==> plan[3] == SocketOp::SetReusePort(true)
            &&& plan[n - 2] matches SocketOp::Bind(addr) && is_group(addr, any)
            &&& plan[n - 1] == join
        }),
{
}

/// The families are those of IPv4 and IPv6: each has its own domain, its own addresses, its
/// own option for the interface, and joins exactly the group that it is asked to join, on the
/// interface that the system picks.
pub proof fn the_families_are_these(v4: Ipv4Addr, v6: Ipv6Addr)
    ensures
        <Inet as AddressFamily>::family() == Domain::IPV4,
        <Inet6 as AddressFamily>::family() == Domain::IPV6,
        <Inet as AddressFamily>::ip(v4) == IpAddr::V4(v4),
        <Inet6 as AddressFamily>::ip(v6) == IpAddr::V6(v6),
        <Inet as AddressFamily>::packet_info() == PacketInfo::Ipv4PacketInfo,
        <Inet6 as AddressFamily>::packet_info() == PacketInfo::Ipv6RecvPacketInfo,
        <Inet as AddressFamily>::join(v4) matches SocketOp::JoinMulticastV4 { group, interface }
            && group == v4 && interface.octets@ == seq![0u8, 0, 0, 0],
        <Inet6 as AddressFamily>::join(v6) == (SocketOp::JoinMulticastV6 {
            group: v6,
            interface: 0,
        }),
        <Inet as AddressFamily>::any().octets@ == seq![0u8, 0, 0, 0],
        <Inet as AddressFamily>::group().octets@ == seq![224u8, 0, 0, 251],
        <Inet6 as AddressFamily>::any().segments@ == seq![0u16, 0, 0, 0, 0, 0, 0, 0],
        <Inet6 as AddressFamily>::group().segments@ == seq![0xff02u16, 0, 0, 0, 0, 0, 0, 0xfb],
        <Inet as AddressFamily>::packet_info_prefix() == "IP_PKTINFO set error: "@,
        <Inet6 as AddressFamily>::packet_info_prefix() == "IPV6_RECV_PKTINFO set error: "@,
{
    assert(Ipv4Addr::of(0, 0, 0, 0).octets@ =~= seq![0u8, 0, 0, 0]);
    assert(Ipv4Addr::of(224, 0, 0, 251).octets@ =~= seq![224u8, 0, 0, 251]);
    assert(Ipv6Addr::of(0, 0, 0, 0, 0, 0, 0, 0).segments@ =~= seq![0u16, 0, 0, 0, 0, 0, 0, 0]);
    assert(Ipv6Addr::of(0xff02, 0, 0, 0, 0, 0, 0, 0xfb).segments@ =~= seq![
        0xff02u16,
        0,
        0,
        0,
        0,
        0,
        0,
        0xfb,
    ]);
}

/// A transfer that is to be tried again is reported as one that would block, with the message
/// for that; any other failure is reported with its prefix and the text of the system.
pub proof fn failures_are_reported_with_their_text(
    blocked: Seq<char>,
    prefix: Seq<char>,
    again: bool,
    text: Seq<char>,
)
    ensures
        ({
            let e = IoErrorView::of_transfer(blocked, prefix, again, text);
            &&& again ==> e.kind is WouldBlock && e.message == blocked
            &&& !again ==> e.kind is Other && e.message == prefix + text
        }),
        IoErrorView::of_text(prefix, text).kind is Other,
        IoErrorView::of_text(prefix, text).message == prefix + text,
{
}

// Messages and what contracts see of values

/// A response has the id and the records that it is made of, is authoritative, does not ask
/// for recursion and has no limit on its size; more records come behind those it has, and
/// change nothing else.
pub proof fn responses_hold_their_records(
    id: u16,
    answers: Seq<AnswerView>,
    message: MessageView,
    more: Seq<AnswerView>,
)
    ensures
        responds(
            OutgoingView {
                message: MessageView::response(id, answers),
                target: (
                    SocketAddr::V4 { ip: Ipv4Addr { octets: [0, 0, 0, 0] }, port: 0 },
                    None,
                ),
            },
            id,
            answers,
        ),
        message.plus(more).answers == message.answers + more,
        message.plus(more).id == message.id,
        message.plus(more).recursion == message.recursion,
        message.plus(more).authoritative == message.authoritative,
        message.plus(more).max_size == message.max_size,
{
}

/// Contracts see every question of a packet, and all of it.
pub proof fn every_question_is_seen(packet: Packet, i: int)
    requires
        0 <= i < packet.questions@.len(),
    ensures
        packet@.header == packet.header,
        packet@.questions.len() == packet.questions@.len(),
        packet@.questions[i].qname == packet.questions@[i].qname@,
        packet@.questions[i].qtype == packet.questions@[i].qtype,
        packet@.questions[i].qclass == packet.questions@[i].qclass,
        packet@.questions[i].qu == packet.questions@[i].qu,
{
}

/// Contracts see every service, and all of it.
pub proof fn every_service_is_seen(services: Services, i: int)
    requires
        0 <= i < services.services@.len(),
    ensures
        services@.hostname == services.hostname@,
        services@.services.len() == services.services@.len(),
        services@.services[i].name == services.services@[i].name@,
        services@.services[i].typ == services.services@[i].typ@,
        services@.services[i].port == services.services@[i].port,
        services@.services[i].txt == services.services@[i].txt@,
{
}

/// Contracts see every message that waits, where it goes, and every record in it.
pub proof fn every_message_is_seen<AF: AddressFamily>(responder: FSM<AF>, i: int, j: int)
    requires
        0 <= i < responder.outgoing@.len(),
        0 <= j < responder.outgoing@[i].message.answers@.len(),
    ensures
        responder@.len() == responder.outgoing@.len(),
        ({
            let seen = responder@[i];
            let outgoing = responder.outgoing@[i];
            &&& seen.target == outgoing.target
            &&& seen.message.id == outgoing.message.id
            &&& seen.message.recursion == outgoing.message.recursion
            &&& seen.message.authoritative == outgoing.message.authoritative
            &&& seen.message.max_size == outgoing.message.max_size
            &&& seen.message.answers.len() == outgoing.message.answers@.len()
            &&& seen.message.answers[j] == outgoing.message.answers@[j]@
        }),
{
}

/// Contracts see what a record is, and all of it.
pub proof fn every_record_is_seen(answer: Answer)
    ensures
        match answer {
            Answer::Address { name, class, ttl, data } => answer@ == (AnswerView::Address {
                name: name@,
                class,
                ttl,
                data,
            }),
            Answer::Ptr { svc, ttl } => answer@ == (AnswerView::Ptr { svc: svc@, ttl }),
            Answer::Srv { svc, hostname, ttl } => answer@ == (AnswerView::Srv {
                svc: svc@,
                hostname: hostname@,
                ttl,
            }),
            Answer::Txt { svc, ttl } => answer@ == (AnswerView::Txt { svc: svc@, ttl }),
        },
        answer@.ttl() == (match answer {
            Answer::Address { ttl, .. } => ttl,
            Answer::Ptr { ttl, .. } => ttl,
            Answer::Srv { ttl, .. } => ttl,
            Answer::Txt { ttl, .. } => ttl,
        }),
{
}

/// Contracts see what happened, and tell every event from the others.
pub proof fn every_event_is_seen(event: Event<'_, '_>)
    ensures
        event is Woken <==> event@ is Woken,
        event is NoCommand <==> event@ is NoCommand,
        event is RecvFailed <==> event@ is RecvFailed,
        event is NoPacket <==> event@ is NoPacket,
        event is SendEnded <==> event@ is SendEnded,
        event matches Event::Received { buf, src_addr } ==> event@ == (EventView::Received {
            bytes: read_buf::read_buf_filled(*buf),
            src_addr,
        }),
        event matches Event::Command(None) ==> event@ == EventView::Command(None),
        event matches Event::Command(Some(Command::Shutdown)) ==> event@ == EventView::Command(
            Some(CommandView::Shutdown),
        ),
        event matches Event::Command(Some(Command::SendUnsolicited { svc, ttl, include_ip }))
            ==> event@ == EventView::Command(
            Some(CommandView::SendUnsolicited { svc: svc@, ttl, include_ip }),
        ),
{
}

/// Contracts see what is asked for, and tell every action from the others.
pub proof fn every_action_is_seen(action: Action)
    ensures
        action is PollCommand <==> action@ is PollCommand,
        action is PollRecv <==> action@ is PollRecv,
        action is Pending <==> action@ is Pending,
        action is Ready <==> action@ is Ready,
        action matches Action::Send(next) ==> (action@ matches ActionView::Send(seen)
            && seen.target == next.target && seen.message == next.message@),
{
}

} // verus!
