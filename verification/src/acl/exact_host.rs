//! A rule that matches a host as it stands.

use vstd::prelude::*;
use crate::action::ProtocolInspectAction;
use crate::net::addr::IpAddr;
use crate::net::host::{Host, HostView};

verus! {

/// The map that a list of names with their actions stands for: where a
/// name occurs more than once, the last occurrence counts.
pub open spec fn domain_entries(v: Seq<(String, ProtocolInspectAction)>) -> Map<
    Seq<char>,
    ProtocolInspectAction,
>
    decreases v.len(),
{
    if v.len() == 0 {
        Map::empty()
    } else {
        domain_entries(v.drop_last()).insert(v.last().0@, v.last().1)
    }
}

/// The map that a list of addresses with their actions stands for: where
/// an address occurs more than once, the last occurrence counts.
pub open spec fn ip_entries(v: Seq<(IpAddr, ProtocolInspectAction)>) -> Map<
    IpAddr,
    ProtocolInspectAction,
>
    decreases v.len(),
{
    if v.len() == 0 {
        Map::empty()
    } else {
        ip_entries(v.drop_last()).insert(v.last().0, v.last().1)
    }
}

proof fn lemma_domain_entries(v: Seq<(String, ProtocolInspectAction)>, name: Seq<char>, i: int)
    requires
        0 <= i <= v.len(),
        forall|j: int| i <= j < v.len() ==> (#[trigger] v[j]).0@ != name,
    ensures
        i > 0 && v[i - 1].0@ == name ==> domain_entries(v).contains_key(name) && domain_entries(
            v,
        )[name] == v[i - 1].1,
        i == 0 ==> !domain_entries(v).contains_key(name),
    decreases v.len(),
{
    if v.len() > 0 {
        if i == v.len() {
            if v[i - 1].0@ != name {
            }
        } else {
            assert(v.last() == v[v.len() - 1]);
            assert forall|j: int| i <= j < v.drop_last().len() implies (
            #[trigger] v.drop_last()[j]).0@ != name by {
                assert(v.drop_last()[j] == v[j]);
            }
            lemma_domain_entries(v.drop_last(), name, i);
            if i > 0 {
                assert(v.drop_last()[i - 1] == v[i - 1]);
            }
        }
    }
}

proof fn lemma_ip_entries(v: Seq<(IpAddr, ProtocolInspectAction)>, ip: IpAddr, i: int)
    requires
        0 <= i <= v.len(),
        forall|j: int| i <= j < v.len() ==> (#[trigger] v[j]).0 != ip,
    ensures
        i > 0 && v[i - 1].0 == ip ==> ip_entries(v).contains_key(ip) && ip_entries(v)[ip] == v[i
            - 1].1,
        i == 0 ==> !ip_entries(v).contains_key(ip),
    decreases v.len(),
{
    if v.len() > 0 {
        if i == v.len() {
            if v[i - 1].0 != ip {
            }
        } else {
            assert(v.last() == v[v.len() - 1]);
            assert forall|j: int| i <= j < v.drop_last().len() implies (
            #[trigger] v.drop_last()[j]).0 != ip by {
                assert(v.drop_last()[j] == v[j]);
            }
            lemma_ip_entries(v.drop_last(), ip, i);
            if i > 0 {
                assert(v.drop_last()[i - 1] == v[i - 1]);
            }
        }
    }
}

/// Hosts with their actions, and an action for every other host.
#[derive(Debug)]
pub struct AclExactHostRule {
    domains: Vec<(String, ProtocolInspectAction)>,
    ips: Vec<(IpAddr, ProtocolInspectAction)>,
    missed_action: ProtocolInspectAction,
}

impl AclExactHostRule {
    /// The names of the rule, each with its action.
    pub closed spec fn domains(&self) -> Map<Seq<char>, ProtocolInspectAction> {
        domain_entries(self.domains@)
    }

    /// The addresses of the rule, each with its action.
    pub closed spec fn ips(&self) -> Map<IpAddr, ProtocolInspectAction> {
        ip_entries(self.ips@)
    }

    pub closed spec fn spec_missed_action(&self) -> ProtocolInspectAction {
        self.missed_action
    }

    /// What the rule says of a host: its action where the rule names the
    /// host, the missed action where it does not.
    pub open spec fn spec_check(&self, host: HostView) -> (bool, ProtocolInspectAction) {
        match host {
            HostView::Domain(d) => if self.domains().contains_key(d) {
                (true, self.domains()[d])
            } else {
                (false, self.spec_missed_action())
            },
            HostView::Ip(ip) => if self.ips().contains_key(ip) {
                (true, self.ips()[ip])
            } else {
                (false, self.spec_missed_action())
            },
        }
    }

    pub fn new(missed_action: ProtocolInspectAction) -> (r: Self)
        ensures
            r.domains() == Map::<Seq<char>, ProtocolInspectAction>::empty(),
            r.ips() == Map::<IpAddr, ProtocolInspectAction>::empty(),
            r.spec_missed_action() == missed_action,
    {
        AclExactHostRule { domains: Vec::new(), ips: Vec::new(), missed_action }
    }

    /// Names a host by its domain; an action given to it before is
    /// replaced.
    pub fn add_domain(&mut self, domain: String, action: ProtocolInspectAction)
        ensures
            final(self).domains() == old(self).domains().insert(domain@, action),
            final(self).ips() == old(self).ips(),
            final(self).spec_missed_action() == old(self).spec_missed_action(),
    {
        self.domains.push((domain, action));
        assert(self.domains@.drop_last() == old(self).domains@);
    }

    /// Names a host by its address; an action given to it before is
    /// replaced.
    pub fn add_ip(&mut self, ip: IpAddr, action: ProtocolInspectAction)
        ensures
            final(self).ips() == old(self).ips().insert(ip, action),
            final(self).domains() == old(self).domains(),
            final(self).spec_missed_action() == old(self).spec_missed_action(),
    {
        self.ips.push((ip, action));
        assert(self.ips@.drop_last() == old(self).ips@);
    }

    pub fn set_missed_action(&mut self, action: ProtocolInspectAction)
        ensures
            final(self).domains() == old(self).domains(),
            final(self).ips() == old(self).ips(),
            final(self).spec_missed_action() == action,
    {
        self.missed_action = action;
    }

    pub fn missed_action(&self) -> (r: ProtocolInspectAction)
        ensures
            r == self.spec_missed_action(),
    {
        self.missed_action
    }

    pub fn check_domain(&self, domain: &String) -> (r: (bool, ProtocolInspectAction))
        ensures
            r == self.spec_check(HostView::Domain(domain@)),
    {
        let mut i = self.domains.len();
        while i > 0
            invariant
                i <= self.domains@.len(),
                forall|j: int| i <= j < self.domains@.len() ==> (#[trigger] self.domains@[j]).0@
                    != domain@,
            decreases i,
        {
            if self.domains[i - 1].0 == *domain {
                proof {
                    lemma_domain_entries(self.domains@, domain@, i as int);
                }
                return (true, self.domains[i - 1].1);
            }
            i = i - 1;
        }
        proof {
            lemma_domain_entries(self.domains@, domain@, 0);
        }
        (false, self.missed_action)
    }

    pub fn check_ip(&self, ip: IpAddr) -> (r: (bool, ProtocolInspectAction))
        ensures
            r == self.spec_check(HostView::Ip(ip)),
    {
        let mut i = self.ips.len();
        while i > 0
            invariant
                i <= self.ips@.len(),
                forall|j: int| i <= j < self.ips@.len() ==> (#[trigger] self.ips@[j]).0 != ip,
            decreases i,
        {
            if self.ips[i - 1].0 == ip {
                proof {
                    lemma_ip_entries(self.ips@, ip, i as int);
                }
                return (true, self.ips[i - 1].1);
            }
            i = i - 1;
        }
        proof {
            lemma_ip_entries(self.ips@, ip, 0);
        }
        (false, self.missed_action)
    }

    pub fn check(&self, host: &Host) -> (r: (bool, ProtocolInspectAction))
        ensures
            r == self.spec_check(host@),
    {
        match host {
            Host::Domain(d) => self.check_domain(d),
            Host::Ip(ip) => self.check_ip(*ip),
        }
    }
}

} // verus!
