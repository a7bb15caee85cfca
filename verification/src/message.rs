//! What the responder reads of a received message, and the messages that it answers with.
use crate::net::{Ipv4Addr, Ipv6Addr};
use crate::services::{ServiceData, ServiceView};
use vstd::prelude::*;

verus! {

/// What a question asks for.
#[derive(Clone, Copy, Debug, PartialEq, Eq, Structural)]
pub enum QueryType {
    A,
    AAAA,
    All,
    PTR,
    SRV,
    TXT,
    /// A type that the responder has no answers for.
    Other(u16),
}

/// The class that a question or a record belongs to.
#[derive(Clone, Copy, Debug, PartialEq, Eq, Structural)]
pub enum QueryClass {
    IN,
    Any,
    /// A class that the responder does not serve.
    Other(u16),
}

/// One question of a packet.
#[derive(Debug, PartialEq, Eq)]
pub struct Question {
    pub qname: String,
    pub qtype: QueryType,
    pub qclass: QueryClass,
    /// Whether the answer is wanted by unicast.
    pub qu: bool,
}

/// A [`Question`] with its name as a sequence of characters.
pub struct QuestionView {
    pub qname: Seq<char>,
    pub qtype: QueryType,
    pub qclass: QueryClass,
    pub qu: bool,
}

impl View for Question {
    type V = QuestionView;

    open spec fn view(&self) -> QuestionView {
        QuestionView {
            qname: self.qname@,
            qtype: self.qtype,
            qclass: self.qclass,
            qu: self.qu,
        }
    }
}

impl QuestionView {
    /// Whether the question is in a class that the responder serves.
    pub open spec fn served(self) -> bool {
        self.qclass == QueryClass::IN || self.qclass == QueryClass::Any
    }
}

/// What the responder reads of the header of a packet.
#[derive(Clone, Copy, Debug, PartialEq, Eq)]
pub struct Header {
    pub id: u16,
    pub query: bool,
    pub truncated: bool,
}

/// What the responder reads of a packet.
#[derive(Debug, PartialEq, Eq)]
pub struct Packet {
    pub header: Header,
    pub questions: Vec<Question>,
}

/// A [`Packet`] with its questions as a sequence.
pub struct PacketView {
    pub header: Header,
    pub questions: Seq<QuestionView>,
}

impl View for Packet {
    type V = PacketView;

    open spec fn view(&self) -> PacketView {
        PacketView {
            header: self.header,
            questions: Seq::new(self.questions@.len(), |i: int| self.questions@[i]@),
        }
    }
}

/// The data of an address record.
#[derive(Clone, Copy, Debug, PartialEq, Eq)]
pub enum RRData {
    A(Ipv4Addr),
    AAAA(Ipv6Addr),
}

/// One record of an answer.
#[derive(Debug, PartialEq, Eq)]
pub enum Answer {
    /// An address of the host `name`.
    Address { name: String, class: QueryClass, ttl: u32, data: RRData },
    /// The PTR record of a service, from its type to its name.
    Ptr { svc: ServiceData, ttl: u32 },
    /// The SRV record of a service, which is found on the host `hostname`.
    Srv { svc: ServiceData, hostname: String, ttl: u32 },
    /// The TXT record of a service.
    Txt { svc: ServiceData, ttl: u32 },
}

/// An [`Answer`] with names as sequences of characters.
pub enum AnswerView {
    Address { name: Seq<char>, class: QueryClass, ttl: u32, data: RRData },
    Ptr { svc: ServiceView, ttl: u32 },
    Srv { svc: ServiceView, hostname: Seq<char>, ttl: u32 },
    Txt { svc: ServiceView, ttl: u32 },
}

impl View for Answer {
    type V = AnswerView;

    open spec fn view(&self) -> AnswerView {
        match *self {
            Answer::Address { name, class, ttl, data } => AnswerView::Address {
                name: name@,
                class,
                ttl,
                data,
            },
            Answer::Ptr { svc, ttl } => AnswerView::Ptr { svc: svc@, ttl },
            Answer::Srv { svc, hostname, ttl } => AnswerView::Srv {
                svc: svc@,
                hostname: hostname@,
                ttl,
            },
            Answer::Txt { svc, ttl } => AnswerView::Txt { svc: svc@, ttl },
        }
    }
}

impl AnswerView {
    pub open spec fn ttl(self) -> u32 {
        match self {
            AnswerView::Address { ttl, .. } => ttl,
            AnswerView::Ptr { ttl, .. } => ttl,
            AnswerView::Srv { ttl, .. } => ttl,
            AnswerView::Txt { ttl, .. } => ttl,
        }
    }
}

/// A response that records are added to, and that is sent once it has some.
#[derive(Debug, PartialEq, Eq)]
pub struct AnswerBuilder {
    pub id: u16,
    pub recursion: bool,
    pub authoritative: bool,
    /// The size, in bytes, that the encoded response may have; `None` for no limit.
    pub max_size: Option<usize>,
    pub answers: Vec<Answer>,
}

/// An [`AnswerBuilder`] with its records as a sequence.
pub struct MessageView {
    pub id: u16,
    pub recursion: bool,
    pub authoritative: bool,
    pub max_size: Option<usize>,
    pub answers: Seq<AnswerView>,
}

impl View for AnswerBuilder {
    type V = MessageView;

    open spec fn view(&self) -> MessageView {
        MessageView {
            id: self.id,
            recursion: self.recursion,
            authoritative: self.authoritative,
            max_size: self.max_size,
            answers: Seq::new(self.answers@.len(), |i: int| self.answers@[i]@),
        }
    }
}

impl MessageView {
    /// An authoritative response of any size to the message `id`, with these records.
    pub open spec fn response(id: u16, answers: Seq<AnswerView>) -> MessageView {
        MessageView { id, recursion: false, authoritative: true, max_size: None, answers }
    }

    /// This message with more records at its end.
    pub open spec fn plus(self, more: Seq<AnswerView>) -> MessageView {
        MessageView { answers: self.answers + more, ..self }
    }
}

impl AnswerBuilder {
    /// An authoritative response to the message `id`, with no records and no limit on its size.
    pub fn response(id: u16) -> (r: AnswerBuilder)
        ensures
            r@ == MessageView::response(id, seq![]),
    {
        let r = AnswerBuilder {
            id,
            recursion: false,
            authoritative: true,
            max_size: None,
            answers: Vec::new(),
        };
        assert(r@.answers =~= seq![]);
        r
    }

    /// Adds `answer` behind the records that are there.
    pub fn add_answer(self, answer: Answer) -> (r: AnswerBuilder)
        ensures
            r@ == self@.plus(seq![answer@]),
    {
        let ghost before = self@;
        let mut r = self;
        r.answers.push(answer);
        assert(r@.answers =~= before.answers + seq![answer@]);
        r
    }

    /// Whether there are no records.
    pub fn is_empty(&self) -> (r: bool)
        ensures
            r == (self@.answers.len() == 0),
    {
        self.answers.len() == 0
    }
}

} // verus!
