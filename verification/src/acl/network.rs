//! A rule that matches an address by the networks it lies in.

use vstd::prelude::*;
use crate::action::ProtocolInspectAction;
use crate::net::addr::IpAddr;

verus! {

/// A network: the addresses that share the first `prefix_len` bits with
/// `addr`.
#[derive(Clone, Copy, Debug, PartialEq, Eq, Structural)]
pub struct IpNetwork {
    addr: IpAddr,
    prefix_len: u8,
}

impl IpNetwork {
    pub closed spec fn addr(self) -> IpAddr {
        self.addr
    }

    pub closed spec fn prefix_len(self) -> u8 {
        self.prefix_len
    }

    /// Number of bits of an address of the family of `addr`.
    pub open spec fn bits_of(addr: IpAddr) -> u8 {
        match addr {
            IpAddr::V4(_) => 32,
            IpAddr::V6(_) => 128,
        }
    }

    /// Whether `ip` lies in the network: it is of the same family, and what
    /// is left of it when the bits behind the prefix are dropped is what is
    /// left of the network's address.
    pub open spec fn spec_contains(self, ip: IpAddr) -> bool {
        match (self.addr(), ip) {
            (IpAddr::V4(net), IpAddr::V4(a)) => self.prefix_len() == 0 || (self.prefix_len() <= 32
                && (net >> ((32 - self.prefix_len()) as u32)) == (a >> ((32
                - self.prefix_len()) as u32))),
            (IpAddr::V6(net), IpAddr::V6(a)) => self.prefix_len() == 0 || (self.prefix_len()
                <= 128 && (net >> ((128 - self.prefix_len()) as u128)) == (a >> ((128
                - self.prefix_len()) as u128))),
            _ => false,
        }
    }

    /// The network of the given prefix length around `addr`; `None` where
    /// the prefix is longer than the address.
    pub fn new(addr: IpAddr, prefix_len: u8) -> (r: Option<IpNetwork>)
        ensures
            prefix_len <= Self::bits_of(addr) ==> (r matches Some(n) && n.addr() == addr
                && n.prefix_len() == prefix_len),
            prefix_len > Self::bits_of(addr) ==> r is None,
    {
        let bits: u8 = match addr {
            IpAddr::V4(_) => 32,
            IpAddr::V6(_) => 128,
        };
        if prefix_len > bits {
            None
        } else {
            Some(IpNetwork { addr, prefix_len })
        }
    }

    pub fn prefix(&self) -> (r: u8)
        ensures
            r == self.prefix_len(),
    {
        self.prefix_len
    }

    pub fn contains(&self, ip: IpAddr) -> (r: bool)
        ensures
            r == self.spec_contains(ip),
    {
        match (self.addr, ip) {
            (IpAddr::V4(net), IpAddr::V4(a)) => {
                if self.prefix_len == 0 {
                    true
                } else if self.prefix_len > 32 {
                    false
                } else {
                    let shift: u32 = (32 - self.prefix_len) as u32;
                    (net >> shift) == (a >> shift)
                }
            },
            (IpAddr::V6(net), IpAddr::V6(a)) => {
                if self.prefix_len == 0 {
                    true
                } else if self.prefix_len > 128 {
                    false
                } else {
                    let shift: u128 = (128 - self.prefix_len) as u128;
                    (net >> shift) == (a >> shift)
                }
            },
            _ => false,
        }
    }
}

/// Index of the network that decides on `ip` among the first `n` of
/// `nets`: the one with the longest prefix of those that hold `ip`, and of
/// several such the last.
pub open spec fn best_network(nets: Seq<(IpNetwork, ProtocolInspectAction)>, ip: IpAddr, n: nat)
    -> Option<int>
    decreases n,
{
    if n == 0 {
        None
    } else {
        let prev = best_network(nets, ip, (n - 1) as nat);
        let last = nets[n - 1].0;
        if last.spec_contains(ip) && (prev is None || last.prefix_len() >= nets[prev->Some_0].0
            .prefix_len()) {
            Some(n - 1)
        } else {
            prev
        }
    }
}

/// The network that `best_network` picks holds the address, and no
/// network that holds the address has a longer prefix; none is picked only
/// where no network holds the address.
pub proof fn lemma_best_network(nets: Seq<(IpNetwork, ProtocolInspectAction)>, ip: IpAddr, n: nat)
    requires
        n <= nets.len(),
    ensures
        match best_network(nets, ip, n) {
            Some(b) => {
                &&& 0 <= b < n
                &&& nets[b].0.spec_contains(ip)
                &&& forall|i: int|
                    0 <= i < n && (#[trigger] nets[i]).0.spec_contains(ip) ==> nets[i].0.prefix_len()
                        <= nets[b].0.prefix_len()
            },
            None => forall|i: int| 0 <= i < n ==> !(#[trigger] nets[i]).0.spec_contains(ip),
        },
    decreases n,
{
    if n > 0 {
        lemma_best_network(nets, ip, (n - 1) as nat);
    }
}

/// Networks with their actions, and an action for addresses in none of
/// them.
#[derive(Debug)]
pub struct AclNetworkRule {
    nets: Vec<(IpNetwork, ProtocolInspectAction)>,
    missed_action: ProtocolInspectAction,
}

impl AclNetworkRule {
    /// The networks of the rule in the order in which they were added.
    pub closed spec fn networks(&self) -> Seq<(IpNetwork, ProtocolInspectAction)> {
        self.nets@
    }

    pub closed spec fn spec_missed_action(&self) -> ProtocolInspectAction {
        self.missed_action
    }

    /// What the rule says of an address: the action of the narrowest
    /// network that holds it, or the missed action where none does.
    pub open spec fn spec_check(&self, ip: IpAddr) -> (bool, ProtocolInspectAction) {
        match best_network(self.networks(), ip, self.networks().len()) {
            Some(b) => (true, self.networks()[b].1),
            None => (false, self.spec_missed_action()),
        }
    }

    pub fn new(missed_action: ProtocolInspectAction) -> (r: Self)
        ensures
            r.networks() == Seq::<(IpNetwork, ProtocolInspectAction)>::empty(),
            r.spec_missed_action() == missed_action,
    {
        AclNetworkRule { nets: Vec::new(), missed_action }
    }

    pub fn add_network(&mut self, net: IpNetwork, action: ProtocolInspectAction)
        ensures
            final(self).networks() == old(self).networks().push((net, action)),
            final(self).spec_missed_action() == old(self).spec_missed_action(),
    {
        self.nets.push((net, action));
    }

    pub fn set_missed_action(&mut self, action: ProtocolInspectAction)
        ensures
            final(self).networks() == old(self).networks(),
            final(self).spec_missed_action() == action,
    {
        self.missed_action = action;
    }

    pub fn missed_action(&self) -> (r: ProtocolInspectAction)
        ensures
            r == self.spec_missed_action(),
    {
        self.missed_action
    }

    pub fn check(&self, ip: IpAddr) -> (r: (bool, ProtocolInspectAction))
        ensures
            r == self.spec_check(ip),
    {
        let mut best: Option<usize> = None;
        let mut i: usize = 0;
        while i < self.nets.len()
            invariant
                i <= self.nets@.len(),
                match best {
                    Some(b) => best_network(self.nets@, ip, i as nat) == Some(b as int) && b < i,
                    None => best_network(self.nets@, ip, i as nat) is None,
                },
            decreases self.nets@.len() - i,
        {
            let net = self.nets[i].0;
            if net.contains(ip) {
                let better = match best {
                    Some(b) => net.prefix() >= self.nets[b].0.prefix(),
                    None => true,
                };
                if better {
                    best = Some(i);
                }
            }
            i = i + 1;
        }
        match best {
            Some(b) => (true, self.nets[b].1),
            None => (false, self.missed_action),
        }
    }
}

} // verus!
