//! A rule that matches a domain and every domain below it.

use vstd::prelude::*;
use vstd::utf8::encode_utf8;
use crate::action::ProtocolInspectAction;
use super::radix_trie::{
    check_nodes,
    lemma_check_nodes,
    no_nodes,
    AclRadixTrieRule,
    AclRadixTrieRuleBuilder,
};

verus! {

/// The key under which a domain is stored and looked up: its bytes in
/// reverse, closed by a dot. A domain then starts with the key of every
/// domain above it, and of no other.
pub open spec fn domain_key(domain: Seq<u8>) -> Seq<u8> {
    domain.reverse().push(0x2e)
}

/// Whether `domain` is `parent` or lies below it: it ends with `parent`,
/// and a dot stands before that end.
pub open spec fn is_at_or_below(domain: Seq<u8>, parent: Seq<u8>) -> bool {
    domain == parent || (domain.len() > parent.len() && domain.skip(
        domain.len() - parent.len(),
    ) == parent && domain[domain.len() - parent.len() - 1] == 0x2e)
}

/// The key of a domain starts with the key of another exactly where the
/// domain is the other or lies below it.
pub proof fn lemma_domain_key_prefix(domain: Seq<u8>, parent: Seq<u8>)
    ensures
        domain_key(parent).is_prefix_of(domain_key(domain)) <==> is_at_or_below(domain, parent),
{
    let kd = domain_key(domain);
    let kp = domain_key(parent);
    let dl = domain.len() as int;
    let pl = parent.len() as int;
    assert(forall|i: int| 0 <= i < dl ==> kd[i] == domain[dl - 1 - i]);
    assert(forall|i: int| 0 <= i < pl ==> kp[i] == parent[pl - 1 - i]);
    assert(kd[dl] == 0x2e && kp[pl] == 0x2e);
    if kp.is_prefix_of(kd) {
        assert(forall|i: int| 0 <= i <= pl ==> kp[i] == kd[i]);
        if pl == dl {
            assert forall|i: int| 0 <= i < dl implies domain[i] == parent[i] by {
                assert(kd[dl - 1 - i] == kp[dl - 1 - i]);
            }
            assert(domain =~= parent);
        } else {
            let tail = domain.skip(dl - pl);
            assert forall|i: int| 0 <= i < pl implies tail[i] == parent[i] by {
                assert(kd[pl - 1 - i] == kp[pl - 1 - i]);
            }
            assert(tail =~= parent);
            assert(kd[pl] == kp[pl]);
        }
    }
    if is_at_or_below(domain, parent) {
        if domain == parent {
            assert(kp =~= kd);
        } else {
            let tail = domain.skip(dl - pl);
            assert forall|i: int| 0 <= i < kp.len() implies kp[i] == kd[i] by {
                if i < pl {
                    assert(tail[pl - 1 - i] == domain[dl - 1 - i]);
                }
            }
            assert(kp =~= kd.subrange(0, kp.len() as int));
        }
    }
}

/// A domain is matched wherever the rule holds the domain itself or a
/// domain above it; and where it is matched by nodes that are keys of
/// domains, it is at or below the domain of such a node.
pub proof fn lemma_child_of_node_matches(
    nodes: Map<Seq<u8>, ProtocolInspectAction>,
    missed: ProtocolInspectAction,
    domain: Seq<u8>,
    parent: Seq<u8>,
)
    ensures
        nodes.contains_key(domain_key(parent)) && is_at_or_below(domain, parent) ==> check_nodes(
            nodes,
            missed,
            domain_key(domain),
        ).0,
        nodes.dom() == set![domain_key(parent)] ==> (check_nodes(
            nodes,
            missed,
            domain_key(domain),
        ).0 <==> is_at_or_below(domain, parent)),
{
    lemma_domain_key_prefix(domain, parent);
    lemma_check_nodes(nodes, missed, domain_key(domain));
    if nodes.contains_key(domain_key(parent)) && is_at_or_below(domain, parent) {
        assert(nodes.contains_key(domain_key(parent)) && domain_key(parent).is_prefix_of(
            domain_key(domain),
        ));
    }
    if nodes.dom() == set![domain_key(parent)] {
        if check_nodes(nodes, missed, domain_key(domain)).0 {
            let k = choose|k: Seq<u8>|
                #![trigger nodes.contains_key(k)]
                nodes.contains_key(k) && k.is_prefix_of(domain_key(domain));
            assert(nodes.dom().contains(k));
            assert(k == domain_key(parent));
        }
    }
}

/// Computes the key of a domain.
pub fn reverse_domain(domain: &[u8]) -> (r: Vec<u8>)
    ensures
        r@ == domain_key(domain@),
{
    let mut key: Vec<u8> = Vec::new();
    let mut i = domain.len();
    while i > 0
        invariant
            i <= domain@.len(),
            key@.len() == domain@.len() - i,
            forall|j: int| 0 <= j < key@.len() ==> key@[j] == domain@[domain@.len() - 1 - j],
        decreases i,
    {
        i = i - 1;
        key.push(domain[i]);
    }
    key.push(0x2e);
    assert(key@ =~= domain_key(domain@));
    key
}

/// Collects domains before the rule is built.
#[derive(Debug)]
pub struct AclChildDomainRuleBuilder {
    inner: AclRadixTrieRuleBuilder,
}

/// Domains with their actions, each standing for itself and for all that
/// lies below it, and an action for every other domain.
pub struct AclChildDomainRule {
    inner: AclRadixTrieRule,
}

impl AclChildDomainRuleBuilder {
    /// The keys of the domains added so far, each with its action.
    pub closed spec fn nodes(&self) -> Map<Seq<u8>, ProtocolInspectAction> {
        self.inner.nodes()
    }

    pub closed spec fn spec_missed_action(&self) -> ProtocolInspectAction {
        self.inner.spec_missed_action()
    }

    pub fn new(missed_action: ProtocolInspectAction) -> (r: Self)
        ensures
            r.nodes() == no_nodes(),
            r.spec_missed_action() == missed_action,
    {
        AclChildDomainRuleBuilder { inner: AclRadixTrieRuleBuilder::new(missed_action) }
    }

    /// Adds a domain; an action given to it before is replaced.
    pub fn add_node(&mut self, domain: &str, action: ProtocolInspectAction)
        ensures
            final(self).nodes() == old(self).nodes().insert(
                domain_key(encode_utf8(domain@)),
                action,
            ),
            final(self).spec_missed_action() == old(self).spec_missed_action(),
    {
        let key = reverse_domain(domain.as_bytes());
        self.inner.add_node(key, action);
    }

    pub fn set_missed_action(&mut self, action: ProtocolInspectAction)
        ensures
            final(self).nodes() == old(self).nodes(),
            final(self).spec_missed_action() == action,
    {
        self.inner.set_missed_action(action);
    }

    pub fn missed_action(&self) -> (r: ProtocolInspectAction)
        ensures
            r == self.spec_missed_action(),
    {
        self.inner.missed_action()
    }

    pub fn build(&self) -> (r: AclChildDomainRule)
        ensures
            r.nodes() == self.nodes(),
            r.spec_missed_action() == self.spec_missed_action(),
    {
        AclChildDomainRule { inner: self.inner.build() }
    }
}

impl AclChildDomainRule {
    /// The keys of the domains of the rule, each with its action.
    pub closed spec fn nodes(&self) -> Map<Seq<u8>, ProtocolInspectAction> {
        self.inner.nodes()
    }

    pub closed spec fn spec_missed_action(&self) -> ProtocolInspectAction {
        self.inner.spec_missed_action()
    }

    /// What the rule says of a domain: the action of the closest domain of
    /// the rule at or above it, or the missed action where there is none.
    pub open spec fn spec_check(&self, domain: Seq<char>) -> (bool, ProtocolInspectAction) {
        check_nodes(self.nodes(), self.spec_missed_action(), domain_key(encode_utf8(domain)))
    }

    pub fn check(&self, domain: &str) -> (r: (bool, ProtocolInspectAction))
        ensures
            r == self.spec_check(domain@),
    {
        let key = reverse_domain(domain.as_bytes());
        self.inner.check(key.as_slice())
    }
}

} // verus!
