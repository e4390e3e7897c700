//! A rule that matches a key by its longest stored prefix.

use vstd::prelude::*;
use crate::action::ProtocolInspectAction;

verus! {

/// `radix_trie::Trie`, of which nothing is known but what the wrappers
/// below say.
#[verifier::external_type_specification]
#[verifier::external_body]
#[verifier::reject_recursive_types(K)]
#[verifier::reject_recursive_types(V)]
pub struct ExTrie<K, V>(radix_trie::Trie<K, V>);

/// `ahash::AHashMap`, of which nothing is known but what the wrappers
/// below say.
#[verifier::external_type_specification]
#[verifier::external_body]
#[verifier::reject_recursive_types(K)]
#[verifier::reject_recursive_types(V)]
#[verifier::reject_recursive_types(S)]
pub struct ExAHashMap<K, V, S>(ahash::AHashMap<K, V, S>);

/// `ahash::RandomState`, the hasher of the hash map. It is carried along
/// and never looked at.
#[verifier::external_type_specification]
#[verifier::external_body]
pub struct ExRandomState(ahash::RandomState);

/// The trie of a rule: keys are byte strings, values are actions.
pub type NodeTrie = radix_trie::Trie<Vec<u8>, ProtocolInspectAction>;

/// The hash map of a rule builder.
pub type NodeMap = ahash::AHashMap<Vec<u8>, ProtocolInspectAction>;

/// The keys that a trie holds, each with its value.
pub uninterp spec fn trie_entries(t: &radix_trie::Trie<Vec<u8>, ProtocolInspectAction>) -> Map<
    Seq<u8>,
    ProtocolInspectAction,
>;

/// The keys that a hash map holds, each with its value.
pub uninterp spec fn hash_map_entries(m: &ahash::AHashMap<Vec<u8>, ProtocolInspectAction>) -> Map<
    Seq<u8>,
    ProtocolInspectAction,
>;

/// The nodes of a rule that has none.
pub open spec fn no_nodes() -> Map<Seq<u8>, ProtocolInspectAction> {
    Map::empty()
}

/// Length of the longest prefix of `key`, of `n` bytes at most, that is a
/// key of `nodes`.
pub open spec fn longest_match(nodes: Map<Seq<u8>, ProtocolInspectAction>, key: Seq<u8>, n: nat)
    -> Option<nat>
    decreases n,
{
    if nodes.contains_key(key.take(n as int)) {
        Some(n)
    } else if n == 0 {
        None
    } else {
        longest_match(nodes, key, (n - 1) as nat)
    }
}

/// What a rule with the nodes `nodes` says of `key`: the action of the
/// longest node that `key` starts with, or the missed action where `key`
/// starts with no node.
pub open spec fn check_nodes(
    nodes: Map<Seq<u8>, ProtocolInspectAction>,
    missed: ProtocolInspectAction,
    key: Seq<u8>,
) -> (bool, ProtocolInspectAction) {
    match longest_match(nodes, key, key.len()) {
        Some(n) => (true, nodes[key.take(n as int)]),
        None => (false, missed),
    }
}

/// `longest_match` finds a node that `key` starts with, and no node that
/// `key` starts with is longer; it finds none only where there is none.
pub proof fn lemma_longest_match(
    nodes: Map<Seq<u8>, ProtocolInspectAction>,
    key: Seq<u8>,
    n: nat,
)
    requires
        n <= key.len(),
    ensures
        match longest_match(nodes, key, n) {
            Some(m) => {
                &&& m <= n
                &&& nodes.contains_key(key.take(m as int))
                &&& forall|k: Seq<u8>|
                    #![trigger nodes.contains_key(k)]
                    nodes.contains_key(k) && k.is_prefix_of(key) && k.len() <= n ==> k.len() <= m
            },
            None => forall|k: Seq<u8>|
                #![trigger nodes.contains_key(k)]
                nodes.contains_key(k) && k.is_prefix_of(key) ==> k.len() > n,
        },
    decreases n,
{
    assert forall|k: Seq<u8>| k.is_prefix_of(key) implies k == key.take(k.len() as int) by {
        assert(k =~= key.take(k.len() as int));
    }
    if !nodes.contains_key(key.take(n as int)) && n > 0 {
        lemma_longest_match(nodes, key, (n - 1) as nat);
    }
}

/// Calls `Trie::new`, which makes a trie that holds nothing.
#[verifier::external_body]
fn trie_new() -> (t: NodeTrie)
    ensures
        trie_entries(&t) == no_nodes(),
{
    radix_trie::Trie::new()
}

/// Calls `Trie::insert`, which stores the value under the key and replaces
/// what stood there.
#[verifier::external_body]
fn trie_insert(t: &mut NodeTrie, key: Vec<u8>, value: ProtocolInspectAction)
    ensures
        trie_entries(final(t)) == trie_entries(old(t)).insert(key@, value),
{
    t.insert(key, value);
}

/// Calls `Trie::get_ancestor_value`, which returns the value of the
/// longest key in the trie whose bytes the bytes of `key` start with.
#[verifier::external_body]
fn trie_get_ancestor_value(t: &NodeTrie, key: &[u8]) -> (r: Option<ProtocolInspectAction>)
    ensures
        r == match longest_match(trie_entries(t), key@, key@.len()) {
            Some(n) => Some(trie_entries(t)[key@.take(n as int)]),
            None => None,
        },
{
    t.get_ancestor_value(key).copied()
}

/// Calls `AHashMap::new`, which makes a map that holds nothing.
#[verifier::external_body]
fn hash_map_new() -> (m: NodeMap)
    ensures
        hash_map_entries(&m) == no_nodes(),
{
    ahash::AHashMap::new()
}

/// Calls `AHashMap::insert`, which stores the value under the key and
/// replaces what stood there.
#[verifier::external_body]
fn hash_map_insert(m: &mut NodeMap, key: Vec<u8>, value: ProtocolInspectAction)
    ensures
        hash_map_entries(final(m)) == hash_map_entries(old(m)).insert(key@, value),
{
    m.insert(key, value);
}

/// Walks the map with `iter` and hands out a copy of each entry. The order
/// is the map's own and is not promised: every entry of the map comes, and
/// nothing else.
#[verifier::external_body]
fn hash_map_to_vec(m: &NodeMap) -> (v: Vec<(Vec<u8>, ProtocolInspectAction)>)
    ensures
        forall|i: int|
            0 <= i < v@.len() ==> hash_map_entries(m).contains_key(#[trigger] v@[i].0@)
                && hash_map_entries(m)[v@[i].0@] == v@[i].1,
        forall|k: Seq<u8>|
            hash_map_entries(m).contains_key(k) ==> exists|i: int|
                0 <= i < v@.len() && #[trigger] v@[i].0@ == k,
{
    m.iter().map(|(k, v)| (k.clone(), *v)).collect()
}

/// The map that holds the first `n` entries of `v`, later ones over
/// earlier ones.
pub open spec fn entries_up_to(v: Seq<(Vec<u8>, ProtocolInspectAction)>, n: nat) -> Map<
    Seq<u8>,
    ProtocolInspectAction,
>
    decreases n,
{
    if n == 0 {
        Map::empty()
    } else {
        entries_up_to(v, (n - 1) as nat).insert(v[n - 1].0@, v[n - 1].1)
    }
}

proof fn lemma_entries_up_to(
    v: Seq<(Vec<u8>, ProtocolInspectAction)>,
    n: nat,
    nodes: Map<Seq<u8>, ProtocolInspectAction>,
)
    requires
        n <= v.len(),
        forall|i: int|
            0 <= i < v.len() ==> nodes.contains_key(#[trigger] v[i].0@) && nodes[v[i].0@]
                == v[i].1,
    ensures
        forall|k: Seq<u8>|
            entries_up_to(v, n).contains_key(k) <==> exists|i: int|
                0 <= i < n && #[trigger] v[i].0@ == k,
        forall|k: Seq<u8>|
            #![trigger entries_up_to(v, n)[k]]
            entries_up_to(v, n).contains_key(k) ==> entries_up_to(v, n)[k] == nodes[k],
    decreases n,
{
    if n > 0 {
        lemma_entries_up_to(v, (n - 1) as nat, nodes);
        let prev = entries_up_to(v, (n - 1) as nat);
        assert forall|k: Seq<u8>| entries_up_to(v, n).contains_key(k) implies exists|i: int|
            0 <= i < n && #[trigger] v[i].0@ == k by {
            if k == v[n - 1].0@ {
            } else {
                assert(prev.contains_key(k));
                let i = choose|i: int| 0 <= i < n - 1 && #[trigger] v[i].0@ == k;
                assert(0 <= i < n && v[i].0@ == k);
            }
        }
        assert forall|k: Seq<u8>| (exists|i: int| 0 <= i < n && #[trigger] v[i].0@ == k)
            implies entries_up_to(v, n).contains_key(k) by {
            let i = choose|i: int| 0 <= i < n && #[trigger] v[i].0@ == k;
            if i < n - 1 {
                assert(prev.contains_key(k));
            }
        }
    }
}

/// Collects the nodes of a rule before the rule is built.
#[derive(Debug)]
pub struct AclRadixTrieRuleBuilder {
    inner: NodeMap,
    missed_action: ProtocolInspectAction,
}

impl AclRadixTrieRuleBuilder {
    /// The nodes added so far, each with its action.
    pub closed spec fn nodes(&self) -> Map<Seq<u8>, ProtocolInspectAction> {
        hash_map_entries(&self.inner)
    }

    /// The action for keys that start with no node.
    pub closed spec fn spec_missed_action(&self) -> ProtocolInspectAction {
        self.missed_action
    }

    pub fn new(missed_action: ProtocolInspectAction) -> (r: Self)
        ensures
            r.nodes() == no_nodes(),
            r.spec_missed_action() == missed_action,
    {
        AclRadixTrieRuleBuilder { inner: hash_map_new(), missed_action }
    }

    /// Adds a node; a node added before under the same key is replaced.
    pub fn add_node(&mut self, node: Vec<u8>, action: ProtocolInspectAction)
        ensures
            final(self).nodes() == old(self).nodes().insert(node@, action),
            final(self).spec_missed_action() == old(self).spec_missed_action(),
    {
        hash_map_insert(&mut self.inner, node, action);
    }

    pub fn set_missed_action(&mut self, action: ProtocolInspectAction)
        ensures
            final(self).nodes() == old(self).nodes(),
            final(self).spec_missed_action() == action,
    {
        self.missed_action = action;
    }

    pub fn missed_action(&self) -> (r: ProtocolInspectAction)
        ensures
            r == self.spec_missed_action(),
    {
        self.missed_action
    }

    /// The rule with the nodes added so far.
    pub fn build(&self) -> (r: AclRadixTrieRule)
        ensures
            r.nodes() == self.nodes(),
            r.spec_missed_action() == self.spec_missed_action(),
    {
        let mut trie = trie_new();
        let entries = hash_map_to_vec(&self.inner);
        let mut i: usize = 0;
        while i < entries.len()
            invariant
                i <= entries@.len(),
                trie_entries(&trie) == entries_up_to(entries@, i as nat),
            decreases entries@.len() - i,
        {
            let key = entries[i].0.clone();
            let action = entries[i].1;
            trie_insert(&mut trie, key, action);
            i = i + 1;
        }
        proof {
            lemma_entries_up_to(entries@, entries@.len(), self.nodes());
            assert(trie_entries(&trie) =~= self.nodes());
        }
        AclRadixTrieRule { inner: trie, missed_action: self.missed_action }
    }
}

/// A set of nodes, each with an action, and an action for keys that start
/// with none of them.
pub struct AclRadixTrieRule {
    inner: NodeTrie,
    missed_action: ProtocolInspectAction,
}

impl AclRadixTrieRule {
    /// The nodes of the rule, each with its action.
    pub closed spec fn nodes(&self) -> Map<Seq<u8>, ProtocolInspectAction> {
        trie_entries(&self.inner)
    }

    /// The action for keys that start with no node.
    pub closed spec fn spec_missed_action(&self) -> ProtocolInspectAction {
        self.missed_action
    }

    /// Looks `key` up: whether it starts with a node, and the action of
    /// the longest node that it starts with, or else the missed action.
    pub fn check(&self, key: &[u8]) -> (r: (bool, ProtocolInspectAction))
        ensures
            r == check_nodes(self.nodes(), self.spec_missed_action(), key@),
    {
        match trie_get_ancestor_value(&self.inner, key) {
            Some(action) => (true, action),
            None => (false, self.missed_action),
        }
    }
}

/// What `check` means: it says "matched" exactly where the key starts with
/// some node; the action is then that of a node that the key starts with
/// and that is no shorter than any other such node.
pub proof fn lemma_check_nodes(
    nodes: Map<Seq<u8>, ProtocolInspectAction>,
    missed: ProtocolInspectAction,
    key: Seq<u8>,
)
    ensures
        check_nodes(nodes, missed, key).0 <==> exists|k: Seq<u8>|
            #![trigger nodes.contains_key(k)]
            nodes.contains_key(k) && k.is_prefix_of(key),
        !check_nodes(nodes, missed, key).0 ==> check_nodes(nodes, missed, key).1 == missed,
        check_nodes(nodes, missed, key).0 ==> exists|k: Seq<u8>|
            #![trigger nodes.contains_key(k)]
            {
                &&& nodes.contains_key(k)
                &&& k.is_prefix_of(key)
                &&& check_nodes(nodes, missed, key).1 == nodes[k]
                &&& forall|other: Seq<u8>|
                    #![trigger nodes.contains_key(other)]
                    nodes.contains_key(other) && other.is_prefix_of(key) ==> other.len()
                        <= k.len()
            },
{
    lemma_longest_match(nodes, key, key.len());
    match longest_match(nodes, key, key.len()) {
        Some(n) => {
            let k = key.take(n as int);
            assert(nodes.contains_key(k) && k.is_prefix_of(key));
        },
        None => {},
    }
}

} // verus!
