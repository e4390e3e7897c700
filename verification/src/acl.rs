//! Rules that map a destination to an action.

pub mod child_domain;
pub mod exact_host;
pub mod host_set;
pub mod network;
pub mod radix_trie;
pub mod wildcard;

pub use child_domain::{AclChildDomainRule, AclChildDomainRuleBuilder};
pub use exact_host::AclExactHostRule;
pub use host_set::{AclDstHostRuleSet, ProtocolInspectPolicy};
pub use network::{AclNetworkRule, IpNetwork};
pub use radix_trie::{AclRadixTrieRule, AclRadixTrieRuleBuilder};
pub use wildcard::AclWildcardRule;
