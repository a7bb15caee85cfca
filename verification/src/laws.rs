//! What holds of the responder as a whole.
use crate::address_family::{AddressFamily, SocketOp};
use crate::error::{ErrorKind, IoErrorView};
use crate::fsm::{ActionView, CommandView, EventView, Findings, OutgoingView};
use crate::message::{
    AnswerView, MessageView, PacketView, QueryClass, QueryType, QuestionView, RRData,
};
use crate::net::{Domain, Interface, IpAddr, Listing, SocketAddr};
use crate::services::{ServiceView, ServicesView};
use crate::udp_socket::Iface;
use crate::{address_family, fsm, net, DEFAULT_TTL, MDNS_PORT};
use vstd::prelude::*;

verus! {

// Answers to packets

/// A packet that cannot be parsed, is no query or is truncated gets no reply.
pub proof fn other_packets_get_no_reply(
    packet: Option<PacketView>,
    src_addr: (SocketAddr, Option<Iface>),
    services: ServicesView,
    domain: Domain,
    group: IpAddr,
    lookups: Seq<Seq<Seq<Interface>>>,
)
    requires
        packet matches Some(packet) ==> !packet.header.query || packet.header.truncated,
    ensures
        fsm::replies(packet, src_addr, services, domain, group, lookups).len() == 0,
{
}

/// A packet gets at most one reply to the group and one to its sender, in this order. Both
/// repeat the id of the packet and go through the interface that it came in on.
pub proof fn replies_go_to_group_and_sender(
    packet: PacketView,
    src_addr: (SocketAddr, Option<Iface>),
    services: ServicesView,
    domain: Domain,
    group: IpAddr,
    lookups: Seq<Seq<Seq<Interface>>>,
)
    ensures
        ({
            let replies = fsm::replies(
                Some(packet),
                src_addr,
                services,
                domain,
                group,
                lookups,
            );
            let to_group = (SocketAddr::of(group, MDNS_PORT), src_addr.1);
            &&& replies.len() <= 2
            &&& replies.len() == 2 ==> replies[0].target == to_group && replies[1].target
                == src_addr
            &&& forall|i: int|
                0 <= i < replies.len() ==> (#[trigger] replies[i]).message.id == packet.header.id
                    && (replies[i].target == to_group || replies[i].target == src_addr)
        }),
{
}

/// Where no question wants a unicast answer, nothing is sent to the sender, and where every
/// question does, nothing is sent to the group.
pub proof fn answers_go_where_they_are_wanted(
    questions: Seq<QuestionView>,
    qu: bool,
    services: ServicesView,
    domain: Domain,
    lookups: Seq<Seq<Seq<Interface>>>,
)
    requires
        forall|i: int| 0 <= i < questions.len() ==> (#[trigger] questions[i]).qu != qu,
    ensures
        fsm::packet_answers(questions, qu, services, domain, lookups).len() == 0,
    decreases questions.len(),
{
    if questions.len() > 0 {
        answers_go_where_they_are_wanted(questions.drop_last(), qu, services, domain, lookups);
    }
}

/// Questions in a class that is not served get no answer.
pub proof fn other_classes_get_no_answer(
    questions: Seq<QuestionView>,
    qu: bool,
    services: ServicesView,
    domain: Domain,
    lookups: Seq<Seq<Seq<Interface>>>,
)
    requires
        forall|i: int|
            0 <= i < questions.len() ==> (#[trigger] questions[i]).qclass is Other,
    ensures
        fsm::packet_answers(questions, qu, services, domain, lookups).len() == 0,
    decreases questions.len(),
{
    if questions.len() > 0 {
        other_classes_get_no_answer(questions.drop_last(), qu, services, domain, lookups);
    }
}

/// The questions that are served and that want unicast answers, or do not, as `qu` says, in
/// order, each with the interfaces that are known for it.
pub open spec fn wanted(
    questions: Seq<QuestionView>,
    qu: bool,
    lookups: Seq<Seq<Seq<Interface>>>,
) -> Seq<(QuestionView, Seq<Seq<Interface>>)> {
    Seq::new(questions.len(), |i: int| (questions[i], lookups[i])).filter(
        |asked: (QuestionView, Seq<Seq<Interface>>)| asked.0.served() && asked.0.qu == qu,
    )
}

/// The records that answer questions, in order.
spec fn answers_to(
    asked: Seq<(QuestionView, Seq<Seq<Interface>>)>,
    services: ServicesView,
    domain: Domain,
) -> Seq<AnswerView>
    decreases asked.len(),
{
    if asked.len() == 0 {
        seq![]
    } else {
        answers_to(asked.drop_last(), services, domain) + fsm::question_answers(
            asked.last().0,
            services,
            domain,
            asked.last().1,
        )
    }
}

/// The answers to a packet are those to the questions that are wanted.
proof fn wanted_questions_are_answered(
    questions: Seq<QuestionView>,
    qu: bool,
    services: ServicesView,
    domain: Domain,
    lookups: Seq<Seq<Seq<Interface>>>,
)
    ensures
        fsm::packet_answers(questions, qu, services, domain, lookups) == answers_to(
            wanted(questions, qu, lookups),
            services,
            domain,
        ),
    decreases questions.len(),
{
    reveal(Seq::filter);
    let all = Seq::new(questions.len(), |i: int| (questions[i], lookups[i]));
    if questions.len() > 0 {
        let earlier = questions.drop_last();
        wanted_questions_are_answered(earlier, qu, services, domain, lookups);
        assert(all.drop_last() =~= Seq::new(
            earlier.len(),
            |i: int| (earlier[i], lookups[i]),
        ));
        let before = wanted(earlier, qu, lookups);
        assert(before.push(all.last()).drop_last() =~= before);
        let answers = fsm::packet_answers(earlier, qu, services, domain, lookups);
        assert(answers + Seq::<AnswerView>::empty() =~= answers);
    }
}

/// The answers to the sender depend only on the questions that are served and want unicast
/// answers, and those to the group only on the questions that are served and do not.
pub proof fn answers_depend_on_wanted_questions_alone(
    questions: Seq<QuestionView>,
    lookups: Seq<Seq<Seq<Interface>>>,
    other_questions: Seq<QuestionView>,
    other_lookups: Seq<Seq<Seq<Interface>>>,
    qu: bool,
    services: ServicesView,
    domain: Domain,
)
    requires
        wanted(questions, qu, lookups) == wanted(other_questions, qu, other_lookups),
    ensures
        fsm::packet_answers(questions, qu, services, domain, lookups) == fsm::packet_answers(
            other_questions,
            qu,
            services,
            domain,
            other_lookups,
        ),
{
    wanted_questions_are_answered(questions, qu, services, domain, lookups);
    wanted_questions_are_answered(other_questions, qu, services, domain, other_lookups);
}

/// What a filter drops may as well be left out before.
proof fn dropped_may_be_left_out<A>(s: Seq<A>, pred: spec_fn(A) -> bool, k: int)
    requires
        0 <= k < s.len(),
        !pred(s[k]),
    ensures
        s.remove(k).filter(pred) == s.filter(pred),
    decreases s.len(),
{
    reveal(Seq::filter);
    if k == s.len() - 1 {
        assert(s.remove(k) =~= s.drop_last());
    } else {
        dropped_may_be_left_out(s.drop_last(), pred, k);
        assert(s.remove(k).drop_last() =~= s.drop_last().remove(k));
        assert(s.remove(k).last() == s.last());
    }
}

/// A question that is not served, or that wants the other kind of answer, may be left out.
pub proof fn other_questions_may_be_left_out(
    questions: Seq<QuestionView>,
    qu: bool,
    services: ServicesView,
    domain: Domain,
    lookups: Seq<Seq<Seq<Interface>>>,
    k: int,
)
    requires
        lookups.len() == questions.len(),
        0 <= k < questions.len(),
        !questions[k].served() || questions[k].qu != qu,
    ensures
        fsm::packet_answers(questions.remove(k), qu, services, domain, lookups.remove(k))
            == fsm::packet_answers(questions, qu, services, domain, lookups),
{
    let all = Seq::new(questions.len(), |i: int| (questions[i], lookups[i]));
    let fewer = Seq::new(
        questions.remove(k).len(),
        |i: int| (questions.remove(k)[i], lookups.remove(k)[i]),
    );
    dropped_may_be_left_out(
        all,
        |asked: (QuestionView, Seq<Seq<Interface>>)| asked.0.served() && asked.0.qu == qu,
        k,
    );
    assert(all.remove(k) =~= fewer);
    answers_depend_on_wanted_questions_alone(
        questions.remove(k),
        lookups.remove(k),
        questions,
        lookups,
        qu,
        services,
        domain,
    );
}

/// A packet gets the same replies if a question in a class that is not served is left out.
pub proof fn unserved_questions_may_be_left_out(
    packet: PacketView,
    src_addr: (SocketAddr, Option<Iface>),
    services: ServicesView,
    domain: Domain,
    group: IpAddr,
    lookups: Seq<Seq<Seq<Interface>>>,
    k: int,
)
    requires
        lookups.len() == packet.questions.len(),
        0 <= k < packet.questions.len(),
        !packet.questions[k].served(),
    ensures
        ({
            let fewer = PacketView {
                header: packet.header,
                questions: packet.questions.remove(k),
            };
            fsm::replies(
                Some(fewer),
                src_addr,
                services,
                domain,
                group,
                lookups.remove(k),
            ) == fsm::replies(Some(packet), src_addr, services, domain, group, lookups)
        }),
{
    other_questions_may_be_left_out(packet.questions, true, services, domain, lookups, k);
    other_questions_may_be_left_out(packet.questions, false, services, domain, lookups, k);
}

/// A packet that does not need the services gets no reply, whatever they are.
pub proof fn only_needed_services_are_answered(
    packet: Option<PacketView>,
    src_addr: (SocketAddr, Option<Iface>),
    services: ServicesView,
    domain: Domain,
    group: IpAddr,
    lookups: Seq<Seq<Seq<Interface>>>,
)
    requires
        !fsm::needs_services(packet),
    ensures
        fsm::replies(packet, src_addr, services, domain, group, lookups).len() == 0,
{
    if fsm::answerable(packet) {
        let questions = packet->Some_0.questions;
        other_classes_get_no_answer(questions, false, services, domain, lookups);
        other_classes_get_no_answer(questions, true, services, domain, lookups);
    }
}

// What the records say

/// Whether the data of an address record is an address that is announced in the family
/// `domain`.
pub open spec fn announced_data(data: RRData, domain: Domain) -> bool {
    match data {
        RRData::A(ip) => domain == Domain::IPV4 && !IpAddr::V4(ip).loopback(),
        RRData::AAAA(ip) => domain == Domain::IPV6 && !IpAddr::V6(ip).loopback(),
    }
}

/// Whether a record lives for `ttl`, names this host as the host, and, if it gives an address,
/// gives one that is announced.
pub open spec fn true_record(
    answer: AnswerView,
    hostname: Seq<char>,
    ttl: u32,
    domain: Domain,
) -> bool {
    &&& answer.ttl() == ttl
    &&& match answer {
        AnswerView::Address { name, class, data, .. } => name == hostname && class
            == QueryClass::IN && announced_data(data, domain),
        AnswerView::Srv { hostname: host, .. } => host == hostname,
        _ => true,
    }
}

/// Whether a record is about a service that is registered, or about none.
pub open spec fn registered_record(answer: AnswerView, services: ServicesView) -> bool {
    match answer {
        AnswerView::Address { .. } => true,
        AnswerView::Ptr { svc, .. } => services.services.contains(svc),
        AnswerView::Srv { svc, .. } => services.services.contains(svc),
        AnswerView::Txt { svc, .. } => services.services.contains(svc),
    }
}

/// What is filtered out of a sequence is in the sequence.
proof fn filtered_are_members<A>(s: Seq<A>, pred: spec_fn(A) -> bool)
    ensures
        forall|i: int|
            0 <= i < s.filter(pred).len() ==> s.contains(#[trigger] s.filter(pred)[i]) && pred(
                s.filter(pred)[i],
            ),
    decreases s.len(),
{
    reveal(Seq::filter);
    if s.len() > 0 {
        let rest = s.drop_last();
        filtered_are_members(rest, pred);
        assert forall|i: int| 0 <= i < s.filter(pred).len() implies s.contains(
            #[trigger] s.filter(pred)[i],
        ) && pred(s.filter(pred)[i]) by {
            if i < rest.filter(pred).len() {
                let x = rest.filter(pred)[i];
                assert(s.filter(pred)[i] == x);
                let j = choose|j: int| 0 <= j < rest.len() && rest[j] == x;
                assert(s[j] == x);
            } else {
                assert(s.filter(pred)[i] == s[s.len() - 1]);
            }
        }
    }
}

/// An address record names the host and gives an address of the family that is no loopback
/// address.
pub proof fn address_records_are_true(
    hostname: Seq<char>,
    ttl: u32,
    domain: Domain,
    interfaces: Seq<Interface>,
)
    ensures
        forall|i: int|
            0 <= i < fsm::address_records(hostname, ttl, domain, interfaces).len() ==> {
                let record = #[trigger] fsm::address_records(
                    hostname,
                    ttl,
                    domain,
                    interfaces,
                )[i];
                record is Address && true_record(record, hostname, ttl, domain)
            },
{
    filtered_are_members(interfaces, |iface: Interface| fsm::announced(iface, domain));
}

/// Every address of the interfaces that belongs to the family and is no loopback address has
/// its record.
pub proof fn addresses_are_announced(
    hostname: Seq<char>,
    ttl: u32,
    domain: Domain,
    interfaces: Seq<Interface>,
    k: int,
)
    requires
        0 <= k < interfaces.len(),
        fsm::announced(interfaces[k], domain),
    ensures
        fsm::address_records(hostname, ttl, domain, interfaces).contains(
            fsm::address_record(hostname, ttl, interfaces[k].ip),
        ),
{
    let wanted = |iface: Interface| fsm::announced(iface, domain);
    let kept = interfaces.filter(wanted);
    interfaces.lemma_filter_contains(wanted, k);
    let i = choose|i: int| 0 <= i < kept.len() && kept[i] == interfaces[k];
    assert(fsm::address_records(hostname, ttl, domain, interfaces)[i] == fsm::address_record(
        hostname,
        ttl,
        interfaces[k].ip,
    ));
}

/// The records for services of a type are true, and about those services.
proof fn type_answers_are_true(
    svcs: Seq<ServiceView>,
    services: ServicesView,
    domain: Domain,
    lookups: Seq<Seq<Interface>>,
)
    requires
        forall|i: int| 0 <= i < svcs.len() ==> services.services.contains(#[trigger] svcs[i]),
    ensures
        forall|i: int|
            0 <= i < fsm::type_answers(svcs, services.hostname, domain, lookups).len() ==> {
                let answer = #[trigger] fsm::type_answers(
                    svcs,
                    services.hostname,
                    domain,
                    lookups,
                )[i];
                &&& true_record(answer, services.hostname, DEFAULT_TTL, domain)
                &&& registered_record(answer, services)
            },
    decreases svcs.len(),
{
    if svcs.len() > 0 {
        type_answers_are_true(svcs.drop_last(), services, domain, lookups);
        address_records_are_true(
            services.hostname,
            DEFAULT_TTL,
            domain,
            lookups[svcs.len() - 1],
        );
        assert(services.services.contains(svcs[svcs.len() - 1]));
    }
}

/// When the interfaces could not be listed, a question for the addresses of the host gets no
/// records, a question for a service gets its own record alone, and an announcement is the one
/// without addresses.
pub proof fn a_failed_listing_adds_no_address(
    listing: Listing,
    qtype: QueryType,
    qclass: QueryClass,
    qu: bool,
    svc: ServiceView,
    ttl: u32,
    services: ServicesView,
    domain: Domain,
    group: IpAddr,
)
    requires
        listing is Err,
    ensures
        fsm::address_records(services.hostname, ttl, domain, net::listed(listing)).len() == 0,
        (qtype is A || qtype is AAAA || qtype is All) ==> fsm::question_answers(
            QuestionView { qname: services.hostname, qtype, qclass, qu },
            services,
            domain,
            seq![net::listed(listing)],
        ).len() == 0,
        services.of_name(svc.name) == Some(svc) ==> fsm::question_answers(
            QuestionView { qname: svc.name, qtype: QueryType::SRV, qclass, qu },
            services,
            domain,
            seq![net::listed(listing)],
        ) == seq![AnswerView::Srv { svc, hostname: services.hostname, ttl: DEFAULT_TTL }],
        fsm::announcement(svc, ttl, services, domain, group, Some(net::listed(listing)))
            == fsm::announcement(svc, ttl, services, domain, group, None),
{
    fsm::no_interfaces_no_records(services.hostname, ttl, domain);
    fsm::no_interfaces_no_records(services.hostname, DEFAULT_TTL, domain);
}

/// An answer to a question says what is true: its records live for the default time, name
/// this host as the host, give only addresses of the family that are no loopback addresses,
/// and are about registered services.
pub proof fn question_answers_are_true(
    question: QuestionView,
    services: ServicesView,
    domain: Domain,
    lookups: Seq<Seq<Interface>>,
)
    ensures
        forall|i: int|
            0 <= i < fsm::question_answers(question, services, domain, lookups).len() ==> {
                let answer = #[trigger] fsm::question_answers(
                    question,
                    services,
                    domain,
                    lookups,
                )[i];
                &&& true_record(answer, services.hostname, DEFAULT_TTL, domain)
                &&& registered_record(answer, services)
            },
{
    address_records_are_true(services.hostname, DEFAULT_TTL, domain, lookups[0]);
    filtered_are_members(
        services.services,
        |svc: ServiceView| svc.typ == question.qname,
    );
    filtered_are_members(
        services.services,
        |svc: ServiceView| svc.name == question.qname,
    );
    type_answers_are_true(services.of_type(question.qname), services, domain, lookups);
}

/// The answers to the questions of a packet say what is true.
pub proof fn packet_answers_are_true(
    questions: Seq<QuestionView>,
    qu: bool,
    services: ServicesView,
    domain: Domain,
    lookups: Seq<Seq<Seq<Interface>>>,
)
    ensures
        forall|i: int|
            0 <= i < fsm::packet_answers(questions, qu, services, domain, lookups).len() ==> {
                let answer = #[trigger] fsm::packet_answers(
                    questions,
                    qu,
                    services,
                    domain,
                    lookups,
                )[i];
                &&& true_record(answer, services.hostname, DEFAULT_TTL, domain)
                &&& registered_record(answer, services)
            },
    decreases questions.len(),
{
    if questions.len() > 0 {
        packet_answers_are_true(questions.drop_last(), qu, services, domain, lookups);
        question_answers_are_true(
            questions.last(),
            services,
            domain,
            lookups[questions.len() - 1],
        );
    }
}

/// Each of the services has its three records among those for services of a type.
proof fn type_answers_hold_each_service(
    svcs: Seq<ServiceView>,
    hostname: Seq<char>,
    domain: Domain,
    lookups: Seq<Seq<Interface>>,
    k: int,
)
    requires
        0 <= k < svcs.len(),
    ensures
        ({
            let answers = fsm::type_answers(svcs, hostname, domain, lookups);
            &&& answers.contains(AnswerView::Ptr { svc: svcs[k], ttl: DEFAULT_TTL })
            &&& answers.contains(AnswerView::Srv { svc: svcs[k], hostname, ttl: DEFAULT_TTL })
            &&& answers.contains(AnswerView::Txt { svc: svcs[k], ttl: DEFAULT_TTL })
        }),
    decreases svcs.len(),
{
    let answers = fsm::type_answers(svcs, hostname, domain, lookups);
    let earlier = fsm::type_answers(svcs.drop_last(), hostname, domain, lookups);
    let n = earlier.len() as int;
    if k == svcs.len() - 1 {
        assert(answers[n] == AnswerView::Ptr { svc: svcs[k], ttl: DEFAULT_TTL });
        assert(answers[n + 1] == AnswerView::Srv { svc: svcs[k], hostname, ttl: DEFAULT_TTL });
        assert(answers[n + 2] == AnswerView::Txt { svc: svcs[k], ttl: DEFAULT_TTL });
    } else {
        type_answers_hold_each_service(svcs.drop_last(), hostname, domain, lookups, k);
        assert forall|x: AnswerView| #[trigger] earlier.contains(x) implies answers.contains(
            x,
        ) by {
            let i = choose|i: int| 0 <= i < earlier.len() && earlier[i] == x;
            assert(answers[i] == x);
        }
    }
}

/// Who asks for the services of a type is told of every service that is registered with that
/// type: its name, where it is, and its TXT data.
pub proof fn every_service_of_a_type_is_answered(
    question: QuestionView,
    services: ServicesView,
    domain: Domain,
    lookups: Seq<Seq<Interface>>,
    svc: ServiceView,
)
    requires
        question.qtype == QueryType::PTR,
        services.services.contains(svc),
        svc.typ == question.qname,
    ensures
        ({
            let answers = fsm::question_answers(question, services, domain, lookups);
            let hostname = services.hostname;
            &&& answers.contains(AnswerView::Ptr { svc, ttl: DEFAULT_TTL })
            &&& answers.contains(AnswerView::Srv { svc, hostname, ttl: DEFAULT_TTL })
            &&& answers.contains(AnswerView::Txt { svc, ttl: DEFAULT_TTL })
        }),
{
    let wanted = |svc: ServiceView| svc.typ == question.qname;
    let found = services.of_type(question.qname);
    let j = choose|j: int| 0 <= j < services.services.len() && services.services[j] == svc;
    services.services.lemma_filter_contains(wanted, j);
    let k = choose|k: int| 0 <= k < found.len() && found[k] == svc;
    type_answers_hold_each_service(found, services.hostname, domain, lookups, k);
}

/// Who asks for a service that is registered, and whose name no other service has, is told
/// where it is, or its TXT data.
pub proof fn a_named_service_is_answered(
    question: QuestionView,
    services: ServicesView,
    domain: Domain,
    lookups: Seq<Seq<Interface>>,
    svc: ServiceView,
)
    requires
        services.services.contains(svc),
        svc.name == question.qname,
        forall|i: int|
            0 <= i < services.services.len() && (#[trigger] services.services[i]).name
                == svc.name ==> services.services[i] == svc,
    ensures
        ({
            let answers = fsm::question_answers(question, services, domain, lookups);
            let hostname = services.hostname;
            &&& question.qtype == QueryType::SRV ==> answers.contains(
                AnswerView::Srv { svc, hostname, ttl: DEFAULT_TTL },
            )
            &&& question.qtype == QueryType::TXT ==> answers.contains(
                AnswerView::Txt { svc, ttl: DEFAULT_TTL },
            )
        }),
{
    let wanted = |svc: ServiceView| svc.name == question.qname;
    let j = choose|j: int| 0 <= j < services.services.len() && services.services[j] == svc;
    services.services.lemma_filter_contains(wanted, j);
    filtered_are_members(services.services, wanted);
    assert(services.services.filter(wanted).len() > 0);
    let first = services.services.filter(wanted)[0];
    let i = choose|i: int| 0 <= i < services.services.len() && services.services[i] == first;
    assert(services.services[i] == svc);
    assert(services.of_name(question.qname) == Some(svc));
    let answers = fsm::question_answers(question, services, domain, lookups);
    if question.qtype == QueryType::SRV || question.qtype == QueryType::TXT {
        assert(answers.contains(answers[0]));
    }
}

// The messages that wait

/// Whether a message may wait to be sent: it is an authoritative response with at least one
/// record and no limit on its size, and gives only addresses that are announced.
pub open spec fn sound(outgoing: OutgoingView, domain: Domain) -> bool {
    let answers = outgoing.message.answers;
    &&& outgoing.message == MessageView::response(outgoing.message.id, answers)
    &&& answers.len() > 0
    &&& forall|i: int|
        0 <= i < answers.len() ==> match #[trigger] answers[i] {
            AnswerView::Address { class, data, .. } => class == QueryClass::IN
                && announced_data(data, domain),
            _ => true,
        }
}

/// Whether every message that waits may.
pub open spec fn queue_sound(queue: Seq<OutgoingView>, domain: Domain) -> bool {
    forall|i: int| 0 <= i < queue.len() ==> sound(#[trigger] queue[i], domain)
}

/// The replies to a packet may wait to be sent.
pub proof fn replies_are_sound(
    packet: Option<PacketView>,
    src_addr: (SocketAddr, Option<Iface>),
    services: ServicesView,
    domain: Domain,
    group: IpAddr,
    lookups: Seq<Seq<Seq<Interface>>>,
)
    ensures
        queue_sound(
            fsm::replies(packet, src_addr, services, domain, group, lookups),
            domain,
        ),
{
    if fsm::answerable(packet) {
        let questions = packet->Some_0.questions;
        packet_answers_are_true(questions, false, services, domain, lookups);
        packet_answers_are_true(questions, true, services, domain, lookups);
    }
}

/// An announcement may wait to be sent, goes to the group, has the id zero, and each of its
/// records lives for the time that was asked for and names this host as the host.
pub proof fn announcements_are_sound(
    svc: ServiceView,
    ttl: u32,
    services: ServicesView,
    domain: Domain,
    group: IpAddr,
    interfaces: Option<Seq<Interface>>,
)
    ensures
        ({
            let outgoing = fsm::announcement(svc, ttl, services, domain, group, interfaces);
            let answers = outgoing.message.answers;
            &&& sound(outgoing, domain)
            &&& outgoing.message.id == 0
            &&& outgoing.target == (SocketAddr::of(group, MDNS_PORT), None::<Iface>)
            &&& forall|i: int|
                0 <= i < answers.len() ==> true_record(
                    #[trigger] answers[i],
                    services.hostname,
                    ttl,
                    domain,
                )
        }),
{
    if let Some(list) = interfaces {
        address_records_are_true(services.hostname, ttl, domain, list);
    }
}

/// Every step keeps to messages that may be sent: if those that wait may, so may those that
/// wait after it, and the one that it asks to send.
pub proof fn steps_keep_the_queue_sound(
    queue: Seq<OutgoingView>,
    event: EventView,
    services: ServicesView,
    domain: Domain,
    group: IpAddr,
    findings: Findings,
)
    requires
        queue_sound(queue, domain),
    ensures
        ({
            let (after, action) = fsm::poll_step(
                queue,
                event,
                services,
                domain,
                group,
                findings,
            );
            &&& queue_sound(after, domain)
            &&& action matches ActionView::Send(next) ==> sound(next, domain)
        }),
{
    match event {
        EventView::Command(Some(CommandView::SendUnsolicited { svc, ttl, .. })) => {
            announcements_are_sound(svc, ttl, services, domain, group, findings.interfaces());
        },
        EventView::Received { src_addr, .. } => {
            replies_are_sound(
                findings.packet,
                src_addr,
                services,
                domain,
                group,
                findings.lookups(),
            );
        },
        _ => {},
    }
}

/// The messages for the group go to an address of the family.
pub proof fn group_is_in_the_family<AF: AddressFamily>()
    ensures
        SocketAddr::of(AF::ip(AF::group()), MDNS_PORT).domain() == AF::family(),
{
    AF::addresses_in_domain(AF::group());
}

// Polls

/// The messages that a step queues.
pub open spec fn queued(
    event: EventView,
    services: ServicesView,
    domain: Domain,
    group: IpAddr,
    findings: Findings,
) -> Seq<OutgoingView> {
    match event {
        EventView::Command(Some(CommandView::SendUnsolicited { svc, ttl, .. })) => seq![
            fsm::announcement(svc, ttl, services, domain, group, findings.interfaces()),
        ],
        EventView::Received { src_addr, .. } => fsm::replies(
            findings.packet,
            src_addr,
            services,
            domain,
            group,
            findings.lookups(),
        ),
        _ => seq![],
    }
}

/// The messages that an action asks to send.
pub open spec fn sent(action: ActionView) -> Seq<OutgoingView> {
    match action {
        ActionView::Send(next) => seq![next],
        _ => seq![],
    }
}

/// One step of a poll: what happened, the services at the time, and what was found out.
pub struct Step {
    pub event: EventView,
    pub services: ServicesView,
    pub findings: Findings,
}

/// The messages that wait after `steps`.
pub open spec fn queue_after(
    queue: Seq<OutgoingView>,
    steps: Seq<Step>,
    domain: Domain,
    group: IpAddr,
) -> Seq<OutgoingView>
    decreases steps.len(),
{
    if steps.len() == 0 {
        queue
    } else {
        let step = steps.last();
        fsm::poll_step(
            queue_after(queue, steps.drop_last(), domain, group),
            step.event,
            step.services,
            domain,
            group,
            step.findings,
        ).0
    }
}

/// What the last of `steps` asks for.
pub open spec fn last_action(
    queue: Seq<OutgoingView>,
    steps: Seq<Step>,
    domain: Domain,
    group: IpAddr,
) -> ActionView {
    let step = steps.last();
    fsm::poll_step(
        queue_after(queue, steps.drop_last(), domain, group),
        step.event,
        step.services,
        domain,
        group,
        step.findings,
    ).1
}

/// The messages that `steps` ask to send, in order.
pub open spec fn sent_by(
    queue: Seq<OutgoingView>,
    steps: Seq<Step>,
    domain: Domain,
    group: IpAddr,
) -> Seq<OutgoingView>
    decreases steps.len(),
{
    if steps.len() == 0 {
        seq![]
    } else {
        sent_by(queue, steps.drop_last(), domain, group) + sent(
            last_action(queue, steps, domain, group),
        )
    }
}

/// The messages that `steps` queue, in order.
pub open spec fn queued_by(steps: Seq<Step>, domain: Domain, group: IpAddr) -> Seq<OutgoingView>
    decreases steps.len(),
{
    if steps.len() == 0 {
        seq![]
    } else {
        let step = steps.last();
        queued_by(steps.drop_last(), domain, group) + queued(
            step.event,
            step.services,
            domain,
            group,
            step.findings,
        )
    }
}

/// No message is lost, doubled or overtaken: whatever the steps are, the messages that they
/// ask to send, followed by those that wait then, are the messages that waited before,
/// followed by those that the steps queue.
pub proof fn messages_keep_their_order(
    queue: Seq<OutgoingView>,
    steps: Seq<Step>,
    domain: Domain,
    group: IpAddr,
)
    ensures
        sent_by(queue, steps, domain, group) + queue_after(queue, steps, domain, group) == queue
            + queued_by(steps, domain, group),
    decreases steps.len(),
{
    if steps.len() == 0 {
        assert(Seq::<OutgoingView>::empty() + queue =~= queue + Seq::<OutgoingView>::empty());
    } else {
        let earlier = steps.drop_last();
        let step = steps.last();
        messages_keep_their_order(queue, earlier, domain, group);
        let before = queue_after(queue, earlier, domain, group);
        let after = queue_after(queue, steps, domain, group);
        let added = queued(step.event, step.services, domain, group, step.findings);
        let gone = sent(last_action(queue, steps, domain, group));
        assert(gone + after =~= before + added);
        assert(sent_by(queue, steps, domain, group) + after =~= sent_by(
            queue,
            earlier,
            domain,
            group,
        ) + (gone + after));
        assert(queue + queued_by(steps, domain, group) =~= queue + queued_by(
            earlier,
            domain,
            group,
        ) + added);
        assert(sent_by(queue, earlier, domain, group) + (before + added) =~= (sent_by(
            queue,
            earlier,
            domain,
            group,
        ) + before) + added);
    }
}

/// A poll that returns with the responder going on has tried to send, once and in order,
/// every message that waited before it and every message that it queued, and leaves none.
pub proof fn a_pending_poll_has_sent_everything(
    queue: Seq<OutgoingView>,
    steps: Seq<Step>,
    domain: Domain,
    group: IpAddr,
)
    requires
        steps.len() > 0,
        last_action(queue, steps, domain, group) == ActionView::Pending,
    ensures
        queue_after(queue, steps, domain, group).len() == 0,
        sent_by(queue, steps, domain, group) == queue + queued_by(steps, domain, group),
{
    messages_keep_their_order(queue, steps, domain, group);
    let after = queue_after(queue, steps, domain, group);
    assert(sent_by(queue, steps, domain, group) + after =~= sent_by(
        queue,
        steps,
        domain,
        group,
    ));
}

/// Whatever the steps are, if the messages that waited before them may be sent, so may all
/// that they ask to send, and those that wait after them.
pub proof fn everything_sent_is_sound(
    queue: Seq<OutgoingView>,
    steps: Seq<Step>,
    domain: Domain,
    group: IpAddr,
)
    requires
        queue_sound(queue, domain),
    ensures
        queue_sound(sent_by(queue, steps, domain, group), domain),
        queue_sound(queue_after(queue, steps, domain, group), domain),
    decreases steps.len(),
{
    if steps.len() > 0 {
        let earlier = steps.drop_last();
        let step = steps.last();
        everything_sent_is_sound(queue, earlier, domain, group);
        steps_keep_the_queue_sound(
            queue_after(queue, earlier, domain, group),
            step.event,
            step.services,
            domain,
            group,
            step.findings,
        );
    }
}

/// Whether `event` is what can come of doing what `action` asks for. A poll that has
/// returned is followed by the next one.
pub open spec fn comes_of(action: ActionView, event: EventView) -> bool {
    match action {
        ActionView::PollCommand => event is Command || event is NoCommand,
        ActionView::PollRecv => event is Received || event is RecvFailed || event is NoPacket,
        ActionView::Send(_) => event is SendEnded,
        ActionView::Pending => event is Woken,
        ActionView::Ready => false,
    }
}

/// How far a poll has come.
pub open spec fn progress(action: ActionView) -> int {
    match action {
        ActionView::PollCommand => 0,
        ActionView::PollRecv => 1,
        ActionView::Send(_) => 2,
        ActionView::Pending => 3,
        ActionView::Ready => 3,
    }
}

/// Within a poll, commands are taken before packets, and packets before messages are sent:
/// no step goes back.
pub proof fn polls_never_go_back(
    asked: ActionView,
    queue: Seq<OutgoingView>,
    event: EventView,
    services: ServicesView,
    domain: Domain,
    group: IpAddr,
    findings: Findings,
)
    requires
        comes_of(asked, event),
        asked !is Pending,
    ensures
        progress(asked) <= progress(
            fsm::poll_step(queue, event, services, domain, group, findings).1,
        ),
{
}

/// What the step `i` asks for.
pub open spec fn action_at(
    queue: Seq<OutgoingView>,
    steps: Seq<Step>,
    domain: Domain,
    group: IpAddr,
    i: int,
) -> ActionView {
    last_action(queue, steps.take(i + 1), domain, group)
}

/// Whether `steps` are steps of one poll, from its start on: each event after the first comes
/// of what the step before it asked for.
pub open spec fn is_poll(
    queue: Seq<OutgoingView>,
    steps: Seq<Step>,
    domain: Domain,
    group: IpAddr,
) -> bool {
    &&& steps.len() > 0
    &&& steps[0].event is Woken
    &&& forall|i: int|
        0 < i < steps.len() ==> {
            let asked = action_at(queue, steps, domain, group, i - 1);
            comes_of(asked, (#[trigger] steps[i]).event) && asked !is Pending
        }
}

/// A poll has come at least as far after a later step as after an earlier one.
#[verifier::spinoff_prover]
#[verifier::rlimit(40)]
proof fn polls_progress(
    queue: Seq<OutgoingView>,
    steps: Seq<Step>,
    domain: Domain,
    group: IpAddr,
    i: int,
    j: int,
)
    requires
        is_poll(queue, steps, domain, group),
        0 <= i <= j < steps.len(),
    ensures
        progress(action_at(queue, steps, domain, group, i)) <= progress(
            action_at(queue, steps, domain, group, j),
        ),
    decreases j,
{
    if i < j {
        polls_progress(queue, steps, domain, group, i, j - 1);
        let step = steps[j];
        assert(steps.take(j + 1).last() == step);
        polls_never_go_back(
            action_at(queue, steps, domain, group, j - 1),
            queue_after(queue, steps.take(j + 1).drop_last(), domain, group),
            step.event,
            step.services,
            domain,
            group,
            step.findings,
        );
    }
}

/// A poll sends last: once it has asked to send a message, it takes no command and no packet
/// any more, and queues nothing.
#[verifier::spinoff_prover]
#[verifier::rlimit(40)]
pub proof fn sending_comes_last(
    queue: Seq<OutgoingView>,
    steps: Seq<Step>,
    domain: Domain,
    group: IpAddr,
    i: int,
    j: int,
)
    requires
        is_poll(queue, steps, domain, group),
        0 <= i < j < steps.len(),
        action_at(queue, steps, domain, group, i) is Send,
    ensures
        steps[j].event is SendEnded,
        queued(
            steps[j].event,
            steps[j].services,
            domain,
            group,
            steps[j].findings,
        ).len() == 0,
{
    polls_progress(queue, steps, domain, group, i, j - 1);
    let asked = action_at(queue, steps, domain, group, j - 1);
    assert(comes_of(asked, steps[j].event));
}

/// The responder ends if, and only if, it is told to stop or no command can come any more. It
/// then leaves the messages that wait as they are.
pub proof fn ends_on_shutdown_alone(
    queue: Seq<OutgoingView>,
    event: EventView,
    services: ServicesView,
    domain: Domain,
    group: IpAddr,
    findings: Findings,
)
    ensures
        ({
            let (after, action) = fsm::poll_step(
                queue,
                event,
                services,
                domain,
                group,
                findings,
            );
            &&& action is Ready <==> event == EventView::Command(Some(CommandView::Shutdown))
                || event == EventView::Command(None)
            &&& action is Ready ==> after == queue
        }),
{
}

/// A failure to receive does not keep messages from being sent: what follows is what would
/// follow if no packet waited.
pub proof fn a_failed_receive_still_sends(
    queue: Seq<OutgoingView>,
    services: ServicesView,
    domain: Domain,
    group: IpAddr,
    findings: Findings,
)
    ensures
        fsm::poll_step(queue, EventView::RecvFailed, services, domain, group, findings)
            == fsm::poll_step(queue, EventView::NoPacket, services, domain, group, findings),
{
}

// Sockets

/// A multicast DNS socket is created in its family, gets all its options before it is bound,
/// and is bound, to the multicast DNS port of any address, before it joins the group.
pub proof fn sockets_are_set_up_in_order<AF: AddressFamily>(reuse_port: bool)
    ensures
        ({
            let plan = address_family::bind_plan(
                AF::family(),
                AF::ip(AF::any()),
                AF::join(AF::group()),
                reuse_port,
            );
            let n = plan.len();
            &&& n == (if reuse_port { 6int } else { 5int })
            &&& plan[0] == (SocketOp::Create { domain: AF::family() })
            &&& plan.contains(SocketOp::SetReuseAddress(true))
            &&& plan.contains(SocketOp::SetNonblocking(true))
            &&& reuse_port ==> plan.contains(SocketOp::SetReusePort(true))
            &&& forall|i: int|
                0 < i < n - 2 ==> {
                    ||| #[trigger] plan[i] == SocketOp::SetReuseAddress(true)
                    ||| plan[i] == SocketOp::SetNonblocking(true)
                    ||| reuse_port && plan[i] == SocketOp::SetReusePort(true)
                }
            &&& plan[n - 2] == SocketOp::Bind(SocketAddr::of(AF::ip(AF::any()), MDNS_PORT))
            &&& plan[n - 1] == AF::join(AF::group())
            &&& SocketAddr::of(AF::ip(AF::any()), MDNS_PORT).domain() == AF::family()
        }),
{
    let plan = address_family::bind_plan(
        AF::family(),
        AF::ip(AF::any()),
        AF::join(AF::group()),
        reuse_port,
    );
    AF::addresses_in_domain(AF::any());
    assert(plan[1] == SocketOp::SetReuseAddress(true));
    assert(plan[2] == SocketOp::SetNonblocking(true));
    if reuse_port {
        assert(plan[3] == SocketOp::SetReusePort(true));
    }
}

/// A failed transfer is reported as one that would block if, and only if, the system said to
/// try again.
pub proof fn only_again_would_block(
    blocked: Seq<char>,
    prefix: Seq<char>,
    again: bool,
    text: Seq<char>,
)
    ensures
        IoErrorView::of_transfer(blocked, prefix, again, text).kind == ErrorKind::WouldBlock
            <==> again,
{
}

} // verus!
