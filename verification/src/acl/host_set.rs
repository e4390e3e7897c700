//! The rules on destination hosts taken together: one verdict per host.

use vstd::prelude::*;
use vstd::utf8::encode_utf8;
use crate::action::ProtocolInspectAction;
use crate::net::host::{Host, HostView};
use super::child_domain::AclChildDomainRule;
use super::exact_host::AclExactHostRule;
use super::network::AclNetworkRule;
use super::wildcard::AclWildcardRule;

verus! {

/// What one rule says of a host: whether it matched, and its action.
pub type Verdict = (bool, ProtocolInspectAction);

/// What is known after some rules were asked.
#[derive(Clone, Copy, Debug, PartialEq, Eq, Structural)]
pub struct Tally {
    /// Whether one of the rules asked matched.
    pub matched: bool,
    /// The actions of the rules asked, restricted by one another.
    pub action: ProtocolInspectAction,
    /// Whether a rule said `Block`, so that no further rule is asked.
    pub stopped: bool,
}

impl Tally {
    /// The tally before any rule was asked.
    pub open spec fn start() -> Tally {
        Tally { matched: false, action: ProtocolInspectAction::Intercept, stopped: false }
    }

    /// The tally after one more rule gave its verdict. A rule that did not
    /// match counts with its missed action. After a `Block`, rules are
    /// not asked any more and change nothing.
    pub open spec fn spec_add(self, verdict: Verdict) -> Tally {
        if self.stopped {
            self
        } else {
            Tally {
                matched: self.matched || verdict.0,
                action: self.action.spec_restrict(verdict.1),
                stopped: verdict.1 == ProtocolInspectAction::Block,
            }
        }
    }

    /// The verdict of the set: where no rule matched, the set's own missed
    /// action restricts the action as well.
    pub open spec fn spec_close(self, missed: ProtocolInspectAction) -> Verdict {
        if self.matched {
            (true, self.action)
        } else {
            (false, self.action.spec_restrict(missed))
        }
    }

    pub fn new() -> (r: Tally)
        ensures
            r == Tally::start(),
    {
        Tally { matched: false, action: ProtocolInspectAction::default_permit(), stopped: false }
    }

    pub fn add(self, verdict: Verdict) -> (r: Tally)
        ensures
            r == self.spec_add(verdict),
    {
        if self.stopped {
            self
        } else {
            Tally {
                matched: self.matched || verdict.0,
                action: self.action.restrict(&verdict.1),
                stopped: verdict.1.forbid_early(),
            }
        }
    }

    pub fn close(self, missed: ProtocolInspectAction) -> (r: Verdict)
        ensures
            r == self.spec_close(missed),
    {
        if self.matched {
            (true, self.action)
        } else {
            (false, self.action.restrict(&missed))
        }
    }
}

/// The tally after the rules gave `verdicts`, in this order.
pub open spec fn tally_of(verdicts: Seq<Verdict>) -> Tally
    decreases verdicts.len(),
{
    if verdicts.len() == 0 {
        Tally::start()
    } else {
        tally_of(verdicts.drop_last()).spec_add(verdicts.last())
    }
}

/// The verdict of a rule set whose rules gave `verdicts`, in this order,
/// and whose own action for hosts that no rule matched is `missed`.
pub open spec fn combine(verdicts: Seq<Verdict>, missed: ProtocolInspectAction) -> Verdict {
    tally_of(verdicts).spec_close(missed)
}

/// All actions of `verdicts` restricted by one another.
pub open spec fn restrict_all(verdicts: Seq<Verdict>) -> ProtocolInspectAction
    decreases verdicts.len(),
{
    if verdicts.len() == 0 {
        ProtocolInspectAction::Intercept
    } else {
        restrict_all(verdicts.drop_last()).spec_restrict(verdicts.last().1)
    }
}

/// Whether one of `verdicts` is a match.
pub open spec fn any_matched(verdicts: Seq<Verdict>) -> bool {
    exists|i: int| 0 <= i < verdicts.len() && (#[trigger] verdicts[i]).0
}

/// Ending at the first `Block` loses nothing: the action in the tally is
/// that of all rules restricted by one another, asked or not. A match is
/// told only where a rule matched, and is told wherever a rule matched
/// and no rule said `Block`.
pub proof fn lemma_tally(verdicts: Seq<Verdict>)
    ensures
        tally_of(verdicts).action == restrict_all(verdicts),
        tally_of(verdicts).stopped ==> tally_of(verdicts).action == ProtocolInspectAction::Block,
        tally_of(verdicts).matched ==> any_matched(verdicts),
        !tally_of(verdicts).stopped ==> tally_of(verdicts).matched == any_matched(verdicts),
    decreases verdicts.len(),
{
    if verdicts.len() > 0 {
        let before = verdicts.drop_last();
        lemma_tally(before);
        if any_matched(before) {
            let i = choose|i: int| 0 <= i < before.len() && (#[trigger] before[i]).0;
            assert(verdicts[i] == before[i]);
        }
        if verdicts.last().0 {
            assert(verdicts[verdicts.len() - 1].0);
        }
        if any_matched(verdicts) && !verdicts.last().0 {
            let i = choose|i: int| 0 <= i < verdicts.len() && (#[trigger] verdicts[i]).0;
            assert(before[i] == verdicts[i]);
        }
    }
}

/// The action of a rule set is that of all its rules restricted by one
/// another and, where none matched, by the set's own missed action.
pub proof fn lemma_combine_action(verdicts: Seq<Verdict>, missed: ProtocolInspectAction)
    ensures
        combine(verdicts, missed).0 ==> combine(verdicts, missed).1 == restrict_all(verdicts),
        !combine(verdicts, missed).0 ==> combine(verdicts, missed).1 == restrict_all(
            verdicts,
        ).spec_restrict(missed),
        combine(verdicts, missed).0 ==> any_matched(verdicts),
        forall|i: int|
            0 <= i < verdicts.len() ==> (#[trigger] verdicts[i]).1.rank() <= combine(
                verdicts,
                missed,
            ).1.rank(),
{
    lemma_tally(verdicts);
    assert forall|i: int| 0 <= i < verdicts.len() implies (#[trigger] verdicts[i]).1.rank()
        <= restrict_all(verdicts).rank() by {
        lemma_restrict_all_bounds(verdicts, i);
    }
}

/// No rule's action is stricter than the action of all rules together.
pub proof fn lemma_restrict_all_bounds(verdicts: Seq<Verdict>, i: int)
    requires
        0 <= i < verdicts.len(),
    ensures
        verdicts[i].1.rank() <= restrict_all(verdicts).rank(),
    decreases verdicts.len(),
{
    if i < verdicts.len() - 1 {
        assert(verdicts.drop_last()[i] == verdicts[i]);
        lemma_restrict_all_bounds(verdicts.drop_last(), i);
    }
}

/// The order in which two rules are asked does not change their action
/// together.
pub proof fn lemma_restrict_all_swap(a: Verdict, b: Verdict)
    ensures
        restrict_all(seq![a, b]) == restrict_all(seq![b, a]),
        restrict_all(seq![a, b]) == a.1.spec_restrict(b.1),
{
    reveal_with_fuel(restrict_all, 3);
    let ab = seq![a, b];
    let ba = seq![b, a];
    assert(ab.drop_last() == seq![a]);
    assert(ba.drop_last() == seq![b]);
    assert(seq![a].drop_last() == Seq::<Verdict>::empty());
    assert(seq![b].drop_last() == Seq::<Verdict>::empty());
}

/// `verdicts` with one more, if there is one more.
pub open spec fn with(verdicts: Seq<Verdict>, more: Option<Verdict>) -> Seq<Verdict> {
    match more {
        Some(v) => verdicts.push(v),
        None => verdicts,
    }
}

/// The rules on destination hosts: each kind of rule is there or not, and
/// the set has an action of its own for hosts that no rule matched.
pub struct AclDstHostRuleSet {
    exact: Option<AclExactHostRule>,
    child: Option<AclChildDomainRule>,
    wildcard: Option<AclWildcardRule>,
    subnet: Option<AclNetworkRule>,
    missed_action: ProtocolInspectAction,
}

/// The policy that decides what is done with an inspected flow.
pub type ProtocolInspectPolicy = AclDstHostRuleSet;

impl AclDstHostRuleSet {
    pub closed spec fn exact(&self) -> Option<AclExactHostRule> {
        self.exact
    }

    pub closed spec fn child(&self) -> Option<AclChildDomainRule> {
        self.child
    }

    pub closed spec fn wildcard(&self) -> Option<AclWildcardRule> {
        self.wildcard
    }

    pub closed spec fn subnet(&self) -> Option<AclNetworkRule> {
        self.subnet
    }

    pub closed spec fn spec_missed_action(&self) -> ProtocolInspectAction {
        self.missed_action
    }

    /// What the rule on hosts as they stand says, if the set has one.
    pub open spec fn exact_verdict(&self, host: HostView) -> Option<Verdict> {
        match self.exact() {
            Some(rule) => Some(rule.spec_check(host)),
            None => None,
        }
    }

    /// What the rule on parent domains says of a domain, or the rule on
    /// networks of an address, if the set has it.
    pub open spec fn kind_verdict(&self, host: HostView) -> Option<Verdict> {
        match host {
            HostView::Domain(d) => match self.child() {
                Some(rule) => Some(rule.spec_check(d)),
                None => None,
            },
            HostView::Ip(ip) => match self.subnet() {
                Some(rule) => Some(rule.spec_check(ip)),
                None => None,
            },
        }
    }

    /// What the rule on patterns says of a domain, if the set has one.
    pub open spec fn wildcard_verdict(&self, host: HostView) -> Option<Verdict> {
        match (host, self.wildcard()) {
            (HostView::Domain(d), Some(rule)) => Some(rule.spec_check(encode_utf8(d))),
            _ => None,
        }
    }

    /// What each rule of the set says of `host`, for the rules that have a
    /// say on it, in the order in which they are asked: the rule on hosts
    /// as they stand; for a domain the rule on parent domains and the rule
    /// on patterns, for an address the rule on networks.
    pub open spec fn verdicts(&self, host: HostView) -> Seq<Verdict> {
        with(
            with(with(Seq::empty(), self.exact_verdict(host)), self.kind_verdict(host)),
            self.wildcard_verdict(host),
        )
    }

    /// What the set says of `host`.
    pub open spec fn spec_check(&self, host: HostView) -> Verdict {
        combine(self.verdicts(host), self.spec_missed_action())
    }

    /// A set without rules, which gives every host the action
    /// `missed_action`.
    pub fn new(missed_action: ProtocolInspectAction) -> (r: Self)
        ensures
            r.exact() is None,
            r.child() is None,
            r.wildcard() is None,
            r.subnet() is None,
            r.spec_missed_action() == missed_action,
    {
        AclDstHostRuleSet { exact: None, child: None, wildcard: None, subnet: None, missed_action }
    }

    pub fn set_exact(&mut self, rule: AclExactHostRule)
        ensures
            final(self).exact() == Some(rule),
            final(self).child() == old(self).child(),
            final(self).wildcard() == old(self).wildcard(),
            final(self).subnet() == old(self).subnet(),
            final(self).spec_missed_action() == old(self).spec_missed_action(),
    {
        self.exact = Some(rule);
    }

    pub fn set_child(&mut self, rule: AclChildDomainRule)
        ensures
            final(self).exact() == old(self).exact(),
            final(self).child() == Some(rule),
            final(self).wildcard() == old(self).wildcard(),
            final(self).subnet() == old(self).subnet(),
            final(self).spec_missed_action() == old(self).spec_missed_action(),
    {
        self.child = Some(rule);
    }

    pub fn set_wildcard(&mut self, rule: AclWildcardRule)
        ensures
            final(self).exact() == old(self).exact(),
            final(self).child() == old(self).child(),
            final(self).wildcard() == Some(rule),
            final(self).subnet() == old(self).subnet(),
            final(self).spec_missed_action() == old(self).spec_missed_action(),
    {
        self.wildcard = Some(rule);
    }

    pub fn set_subnet(&mut self, rule: AclNetworkRule)
        ensures
            final(self).exact() == old(self).exact(),
            final(self).child() == old(self).child(),
            final(self).wildcard() == old(self).wildcard(),
            final(self).subnet() == Some(rule),
            final(self).spec_missed_action() == old(self).spec_missed_action(),
    {
        self.subnet = Some(rule);
    }

    pub fn set_missed_action(&mut self, action: ProtocolInspectAction)
        ensures
            final(self).exact() == old(self).exact(),
            final(self).child() == old(self).child(),
            final(self).wildcard() == old(self).wildcard(),
            final(self).subnet() == old(self).subnet(),
            final(self).spec_missed_action() == action,
    {
        self.missed_action = action;
    }

    pub fn missed_action(&self) -> (r: ProtocolInspectAction)
        ensures
            r == self.spec_missed_action(),
    {
        self.missed_action
    }

    fn check_exact(&self, host: &Host) -> (r: Option<Verdict>)
        ensures
            r == self.exact_verdict(host@),
    {
        match &self.exact {
            Some(rule) => Some(rule.check(host)),
            None => None,
        }
    }

    fn check_kind(&self, host: &Host) -> (r: Option<Verdict>)
        ensures
            r == self.kind_verdict(host@),
    {
        match host {
            Host::Domain(d) => match &self.child {
                Some(rule) => Some(rule.check(d.as_str())),
                None => None,
            },
            Host::Ip(ip) => match &self.subnet {
                Some(rule) => Some(rule.check(*ip)),
                None => None,
            },
        }
    }

    fn check_wildcard(&self, host: &Host) -> (r: Option<Verdict>)
        ensures
            r == self.wildcard_verdict(host@),
    {
        match (host, &self.wildcard) {
            (Host::Domain(d), Some(rule)) => Some(rule.check(d.as_str().as_bytes())),
            _ => None,
        }
    }

    /// Decides on a host.
    pub fn check(&self, upstream: &Host) -> (r: Verdict)
        ensures
            r == self.spec_check(upstream@),
    {
        let ghost none = Seq::<Verdict>::empty();
        let mut tally = Tally::new();
        assert(tally == tally_of(none));
        let first = self.check_exact(upstream);
        if let Some(v) = first {
            assert(none.push(v).drop_last() == none);
            assert(none.push(v).last() == v);
            tally = tally.add(v);
        }
        let ghost one = with(none, first);
        assert(tally == tally_of(one));
        if tally.stopped {
            proof {
                self.lemma_stopped(upstream@, one, 1);
            }
            return tally.close(self.missed_action);
        }
        let second = self.check_kind(upstream);
        if let Some(v) = second {
            assert(one.push(v).drop_last() == one);
            assert(one.push(v).last() == v);
            tally = tally.add(v);
        }
        let ghost two = with(one, second);
        assert(tally == tally_of(two));
        if tally.stopped {
            proof {
                self.lemma_stopped(upstream@, two, 2);
            }
            return tally.close(self.missed_action);
        }
        let third = self.check_wildcard(upstream);
        if let Some(v) = third {
            assert(two.push(v).drop_last() == two);
            assert(two.push(v).last() == v);
            tally = tally.add(v);
        }
        tally.close(self.missed_action)
    }

    /// Once a rule said `Block`, the rules that were not asked change
    /// nothing in the tally.
    proof fn lemma_stopped(&self, host: HostView, asked: Seq<Verdict>, n: int)
        requires
            tally_of(asked).stopped,
            n == 1 && asked == with(Seq::empty(), self.exact_verdict(host)) || n == 2 && asked
                == with(with(Seq::empty(), self.exact_verdict(host)), self.kind_verdict(host)),
        ensures
            tally_of(self.verdicts(host)) == tally_of(asked),
    {
        let one = with(Seq::empty(), self.exact_verdict(host));
        let two = with(one, self.kind_verdict(host));
        let three = with(two, self.wildcard_verdict(host));
        if n == 1 {
            if let Some(v) = self.kind_verdict(host) {
                assert(two.drop_last() == one);
            }
        }
        assert(tally_of(two) == tally_of(asked));
        if let Some(v) = self.wildcard_verdict(host) {
            assert(three.drop_last() == two);
        }
    }
}

} // verus!
