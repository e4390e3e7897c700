//! The action that inspection policy assigns to a flow, and its algebra.

use core::cmp::Ordering;
use vstd::prelude::*;
use vstd::std_specs::cmp::PartialOrdSpecImpl;
use vstd::string::StringExecFns;

verus! {

/// What the inspector does with a flow once its destination is known.
///
/// The variants are listed from the most permissive to the most restrictive.
#[derive(Clone, Copy, Debug, PartialEq, Eq, Structural, Hash)]
pub enum ProtocolInspectAction {
    Intercept,
    Detour,
    Bypass,
    Block,
}

/// The lower-case form of a string, as the standard library computes it.
pub uninterp spec fn lowercase_of(s: Seq<char>) -> Seq<char>;

/// Calls `str::to_lowercase`. The result is a function of the characters of
/// `s` alone; the contract gives it a name and says nothing more of it.
#[verifier::external_body]
fn to_lowercase(s: &str) -> (r: String)
    ensures
        r@ == lowercase_of(s@),
{
    s.to_lowercase()
}

impl ProtocolInspectAction {
    /// Position in the order `Intercept < Detour < Bypass < Block`.
    pub open spec fn rank(self) -> nat {
        match self {
            ProtocolInspectAction::Intercept => 0,
            ProtocolInspectAction::Detour => 1,
            ProtocolInspectAction::Bypass => 2,
            ProtocolInspectAction::Block => 3,
        }
    }

    /// The more restrictive of two actions.
    pub open spec fn spec_restrict(self, other: Self) -> Self {
        if other.rank() > self.rank() {
            other
        } else {
            self
        }
    }

    /// The name under which an action is written in configuration.
    pub open spec fn name(self) -> Seq<char> {
        match self {
            ProtocolInspectAction::Intercept => "intercept"@,
            ProtocolInspectAction::Detour => "detour"@,
            ProtocolInspectAction::Bypass => "bypass"@,
            ProtocolInspectAction::Block => "block"@,
        }
    }

    /// The action that a lower-case name stands for, if any.
    pub open spec fn of_name(lower: Seq<char>) -> Option<Self> {
        if lower == "intercept"@ {
            Some(ProtocolInspectAction::Intercept)
        } else if lower == "detour"@ {
            Some(ProtocolInspectAction::Detour)
        } else if lower == "bypass"@ {
            Some(ProtocolInspectAction::Bypass)
        } else if lower == "block"@ {
            Some(ProtocolInspectAction::Block)
        } else {
            None
        }
    }

    fn rank_u8(&self) -> (r: u8)
        ensures
            r == self.rank(),
    {
        match self {
            ProtocolInspectAction::Intercept => 0,
            ProtocolInspectAction::Detour => 1,
            ProtocolInspectAction::Bypass => 2,
            ProtocolInspectAction::Block => 3,
        }
    }

    pub fn as_str(&self) -> (r: &'static str)
        ensures
            r@ == self.name(),
    {
        self.serialize()
    }

    /// The action taken when nothing permits a flow.
    pub fn default_forbid() -> (r: Self)
        ensures
            r == ProtocolInspectAction::Block,
    {
        ProtocolInspectAction::Block
    }

    /// The action taken when nothing restricts a flow.
    pub fn default_permit() -> (r: Self)
        ensures
            r == ProtocolInspectAction::Intercept,
    {
        ProtocolInspectAction::Intercept
    }

    /// Combines two verdicts on one flow: the more restrictive one wins.
    pub fn restrict(&self, other: &ProtocolInspectAction) -> (r: ProtocolInspectAction)
        ensures
            r == self.spec_restrict(*other),
    {
        if *other > *self {
            *other
        } else {
            *self
        }
    }

    pub fn strict_than(&self, other: &ProtocolInspectAction) -> (r: bool)
        ensures
            r == (self.rank() > other.rank()),
    {
        *self > *other
    }

    /// Whether evaluation may stop at this action: nothing is stricter.
    pub fn forbid_early(&self) -> (r: bool)
        ensures
            r == (*self == ProtocolInspectAction::Block),
    {
        match self {
            ProtocolInspectAction::Block => true,
            ProtocolInspectAction::Intercept | ProtocolInspectAction::Bypass => false,
            ProtocolInspectAction::Detour => false,
        }
    }

    pub fn serialize(&self) -> (r: &'static str)
        ensures
            r@ == self.name(),
    {
        match self {
            ProtocolInspectAction::Intercept => "intercept",
            ProtocolInspectAction::Block => "block",
            ProtocolInspectAction::Bypass => "bypass",
            ProtocolInspectAction::Detour => "detour",
        }
    }

    /// Reads an action from its name in lower case.
    pub fn from_lowercase_name(lower: &String) -> (r: Option<Self>)
        ensures
            r == Self::of_name(lower@),
    {
        if *lower == String::from_str("intercept") {
            Some(ProtocolInspectAction::Intercept)
        } else if *lower == String::from_str("detour") {
            Some(ProtocolInspectAction::Detour)
        } else if *lower == String::from_str("bypass") {
            Some(ProtocolInspectAction::Bypass)
        } else if *lower == String::from_str("block") {
            Some(ProtocolInspectAction::Block)
        } else {
            None
        }
    }

    /// Reads an action from its name in any letter case. An unknown name is
    /// handed back as the error.
    pub fn deserialize(s: &str) -> (r: Result<Self, &str>)
        ensures
            r == match Self::of_name(lowercase_of(s@)) {
                Some(a) => Ok::<Self, &str>(a),
                None => Err::<Self, &str>(s),
            },
    {
        let lower = to_lowercase(s);
        match Self::from_lowercase_name(&lower) {
            Some(a) => Ok(a),
            None => Err(s),
        }
    }
}

impl PartialOrd for ProtocolInspectAction {
    /// Compares two actions by how restrictive they are.
    fn partial_cmp(&self, other: &Self) -> (r: Option<Ordering>) {
        let a = self.rank_u8();
        let b = other.rank_u8();
        if a < b {
            Some(Ordering::Less)
        } else if a > b {
            Some(Ordering::Greater)
        } else {
            Some(Ordering::Equal)
        }
    }
}

impl PartialOrdSpecImpl for ProtocolInspectAction {
    open spec fn obeys_partial_cmp_spec() -> bool {
        true
    }

    open spec fn partial_cmp_spec(&self, other: &Self) -> Option<Ordering> {
        if self.rank() < other.rank() {
            Some(Ordering::Less)
        } else if self.rank() > other.rank() {
            Some(Ordering::Greater)
        } else {
            Some(Ordering::Equal)
        }
    }
}

impl std::str::FromStr for ProtocolInspectAction {
    type Err = ();

    /// Reads an action from its name in any letter case.
    fn from_str(s: &str) -> (r: Result<Self, ()>)
        ensures
            r == match Self::of_name(lowercase_of(s@)) {
                Some(a) => Ok::<Self, ()>(a),
                None => Err::<Self, ()>(()),
            },
    {
        match Self::deserialize(s) {
            Ok(a) => Ok(a),
            Err(_) => Err(()),
        }
    }
}

/// `restrict` does not depend on the order of its arguments.
pub proof fn lemma_restrict_commutative(a: ProtocolInspectAction, b: ProtocolInspectAction)
    ensures
        a.spec_restrict(b) == b.spec_restrict(a),
{
}

/// `restrict` may be grouped either way.
pub proof fn lemma_restrict_associative(
    a: ProtocolInspectAction,
    b: ProtocolInspectAction,
    c: ProtocolInspectAction,
)
    ensures
        a.spec_restrict(b).spec_restrict(c) == a.spec_restrict(b.spec_restrict(c)),
{
}

/// Restricting an action by itself changes nothing.
pub proof fn lemma_restrict_idempotent(a: ProtocolInspectAction)
    ensures
        a.spec_restrict(a) == a,
{
}

/// `Block` absorbs every action it is combined with.
pub proof fn lemma_block_absorbing(a: ProtocolInspectAction)
    ensures
        a.spec_restrict(ProtocolInspectAction::Block) == ProtocolInspectAction::Block,
        ProtocolInspectAction::Block.spec_restrict(a) == ProtocolInspectAction::Block,
{
}

/// `Intercept` is the identity of `restrict`.
pub proof fn lemma_intercept_identity(a: ProtocolInspectAction)
    ensures
        a.spec_restrict(ProtocolInspectAction::Intercept) == a,
        ProtocolInspectAction::Intercept.spec_restrict(a) == a,
{
}

/// `restrict` is the maximum under the order of the variants.
pub proof fn lemma_restrict_is_max(a: ProtocolInspectAction, b: ProtocolInspectAction)
    ensures
        a.spec_restrict(b).rank() == if a.rank() >= b.rank() { a.rank() } else { b.rank() },
        a.spec_restrict(b) == a || a.spec_restrict(b) == b,
{
}

/// Every action is read back from the name it is written as.
pub proof fn lemma_name_round_trip(a: ProtocolInspectAction)
    ensures
        ProtocolInspectAction::of_name(a.name()) == Some(a),
{
    reveal_strlit("intercept");
    reveal_strlit("detour");
    reveal_strlit("bypass");
    reveal_strlit("block");
    assert("intercept"@.len() == 9);
    assert("detour"@.len() == 6);
    assert("bypass"@[0] == 'b' && "block"@[0] == 'b');
    assert("bypass"@.len() == 6 && "block"@.len() == 5);
    assert("detour"@[0] == 'd');
}

} // verus!
