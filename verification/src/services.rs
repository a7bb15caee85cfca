//! The services that are announced, and the host that they run on.
use crate::message::{Answer, AnswerBuilder, AnswerView};
use vstd::prelude::*;

verus! {

/// A service: its full name, its type, the port that it listens on and its TXT data.
#[derive(Debug, PartialEq, Eq)]
pub struct ServiceData {
    pub name: String,
    pub typ: String,
    pub port: u16,
    pub txt: Vec<u8>,
}

/// A [`ServiceData`] over mathematical sequences.
pub struct ServiceView {
    pub name: Seq<char>,
    pub typ: Seq<char>,
    pub port: u16,
    pub txt: Seq<u8>,
}

impl View for ServiceData {
    type V = ServiceView;

    open spec fn view(&self) -> ServiceView {
        ServiceView { name: self.name@, typ: self.typ@, port: self.port, txt: self.txt@ }
    }
}

impl Clone for ServiceData {
    fn clone(&self) -> (r: ServiceData)
        ensures
            r@ == self@,
    {
        ServiceData {
            name: self.name.clone(),
            typ: self.typ.clone(),
            port: self.port,
            txt: self.txt.clone(),
        }
    }
}

impl ServiceView {
    /// The records that announce the service, without the addresses of its host.
    pub open spec fn records(self, hostname: Seq<char>, ttl: u32) -> Seq<AnswerView> {
        seq![
            AnswerView::Ptr { svc: self, ttl },
            AnswerView::Srv { svc: self, hostname, ttl },
            AnswerView::Txt { svc: self, ttl },
        ]
    }
}

impl ServiceData {
    /// Adds the PTR record of the service.
    pub fn add_ptr_rr(&self, builder: AnswerBuilder, ttl: u32) -> (r: AnswerBuilder)
        ensures
            r@ == builder@.plus(seq![AnswerView::Ptr { svc: self@, ttl }]),
    {
        builder.add_answer(Answer::Ptr { svc: self.clone(), ttl })
    }

    /// Adds the SRV record of the service, which names the host that it runs on.
    pub fn add_srv_rr(&self, hostname: &String, builder: AnswerBuilder, ttl: u32) -> (r: AnswerBuilder)
        ensures
            r@ == builder@.plus(
                seq![AnswerView::Srv { svc: self@, hostname: hostname@, ttl }],
            ),
    {
        builder.add_answer(Answer::Srv { svc: self.clone(), hostname: hostname.clone(), ttl })
    }

    /// Adds the TXT record of the service.
    pub fn add_txt_rr(&self, builder: AnswerBuilder, ttl: u32) -> (r: AnswerBuilder)
        ensures
            r@ == builder@.plus(seq![AnswerView::Txt { svc: self@, ttl }]),
    {
        builder.add_answer(Answer::Txt { svc: self.clone(), ttl })
    }
}

/// The name of this host and its services, in the order they were registered.
#[derive(Debug, PartialEq, Eq)]
pub struct Services {
    pub hostname: String,
    pub services: Vec<ServiceData>,
}

/// A [`Services`] over mathematical sequences.
pub struct ServicesView {
    pub hostname: Seq<char>,
    pub services: Seq<ServiceView>,
}

impl View for Services {
    type V = ServicesView;

    open spec fn view(&self) -> ServicesView {
        ServicesView {
            hostname: self.hostname@,
            services: Seq::new(self.services@.len(), |i: int| self.services@[i]@),
        }
    }
}

impl ServicesView {
    /// The services of type `typ`, in the order they were registered.
    pub open spec fn of_type(self, typ: Seq<char>) -> Seq<ServiceView> {
        self.services.filter(|svc: ServiceView| svc.typ == typ)
    }

    /// The service named `name`: of several, the one that was registered first.
    pub open spec fn of_name(self, name: Seq<char>) -> Option<ServiceView> {
        let named = self.services.filter(|svc: ServiceView| svc.name == name);
        if named.len() == 0 {
            None
        } else {
            Some(named[0])
        }
    }
}

impl Services {
    /// The name of this host.
    pub fn get_hostname(&self) -> (r: &String)
        ensures
            r@ == self@.hostname,
    {
        &self.hostname
    }

    /// The services of type `typ`, in the order they were registered.
    pub fn find_by_type(&self, typ: &String) -> (r: Vec<&ServiceData>)
        ensures
            Seq::new(r@.len(), |i: int| r@[i]@) == self@.of_type(typ@),
    {
        let ghost all = self@.services;
        let ghost wanted = |svc: ServiceView| svc.typ == typ@;
        let mut found: Vec<&ServiceData> = Vec::new();
        let mut i: usize = 0;
        assert(all.take(0) =~= seq![]);
        reveal(Seq::filter);
        assert(Seq::new(found@.len(), |k: int| found@[k]@) =~= all.take(0).filter(wanted));
        while i < self.services.len()
            invariant
                i <= self.services@.len(),
                all == self@.services,
                wanted == (|svc: ServiceView| svc.typ == typ@),
                Seq::new(found@.len(), |k: int| found@[k]@) == all.take(i as int).filter(wanted),
            decreases self.services@.len() - i,
        {
            let svc = &self.services[i];
            let ghost before = Seq::new(found@.len(), |k: int| found@[k]@);
            if svc.typ == *typ {
                found.push(svc);
                assert(Seq::new(found@.len(), |k: int| found@[k]@) =~= before.push(svc@));
            }
            proof {
                reveal(Seq::filter);
                assert(all.take(i + 1).drop_last() =~= all.take(i as int));
                assert(all.take(i + 1).last() == svc@);
            }
            i += 1;
        }
        assert(all.take(i as int) =~= all);
        found
    }

    /// The service named `name`: of several, the one that was registered first.
    pub fn find_by_name(&self, name: &String) -> (r: Option<&ServiceData>)
        ensures
            match r {
                Some(svc) => self@.of_name(name@) == Some(svc@),
                None => self@.of_name(name@) is None,
            },
    {
        let ghost all = self@.services;
        let ghost wanted = |svc: ServiceView| svc.name == name@;
        let mut i: usize = 0;
        assert(all.take(0) =~= seq![]);
        reveal(Seq::filter);
        while i < self.services.len()
            invariant
                i <= self.services@.len(),
                all == self@.services,
                wanted == (|svc: ServiceView| svc.name == name@),
                all.take(i as int).filter(wanted).len() == 0,
            decreases self.services@.len() - i,
        {
            let svc = &self.services[i];
            proof {
                reveal(Seq::filter);
                assert(all.take(i + 1).drop_last() =~= all.take(i as int));
                assert(all.take(i + 1).last() == svc@);
            }
            if svc.name == *name {
                proof {
                    assert(all.take(i + 1).filter(wanted) =~= seq![svc@]);
                    assert(all =~= all.take(i + 1) + all.skip(i + 1));
                    Seq::filter_distributes_over_add(all.take(i + 1), all.skip(i + 1), wanted);
                    assert(all.filter(wanted)[0] == svc@);
                }
                return Some(svc);
            }
            i += 1;
        }
        assert(all.take(i as int) =~= all);
        None
    }
}

} // verus!
