//! A rule that matches a domain against patterns with wildcards.

use vstd::prelude::*;
use crate::action::ProtocolInspectAction;

verus! {

/// The byte that stands for any run of bytes in a pattern.
pub const WILDCARD: u8 = 0x2a;

/// Whether `text` fits `pattern`: every byte of the pattern stands for
/// itself, but for the asterisk, which stands for any run of bytes, the
/// empty one too.
pub open spec fn wildcard_matches(pattern: Seq<u8>, text: Seq<u8>) -> bool
    decreases pattern.len(), text.len(),
{
    if pattern.len() == 0 {
        text.len() == 0
    } else if pattern[0] == WILDCARD {
        wildcard_matches(pattern.drop_first(), text) || (text.len() > 0 && wildcard_matches(
            pattern,
            text.drop_first(),
        ))
    } else {
        text.len() > 0 && pattern[0] == text[0] && wildcard_matches(
            pattern.drop_first(),
            text.drop_first(),
        )
    }
}

/// A pattern without an asterisk fits itself and nothing else.
pub proof fn lemma_plain_pattern(pattern: Seq<u8>, text: Seq<u8>)
    requires
        !pattern.contains(WILDCARD),
    ensures
        wildcard_matches(pattern, text) <==> pattern == text,
    decreases pattern.len(),
{
    if pattern.len() > 0 {
        assert(pattern[0] != WILDCARD) by {
            if pattern[0] == WILDCARD {
                assert(pattern.contains(WILDCARD));
            }
        }
        if text.len() > 0 {
            let rest = pattern.drop_first();
            assert(!rest.contains(WILDCARD)) by {
                if rest.contains(WILDCARD) {
                    let i = choose|i: int| 0 <= i < rest.len() && rest[i] == WILDCARD;
                    assert(pattern[i + 1] == WILDCARD);
                }
            }
            lemma_plain_pattern(rest, text.drop_first());
            if rest == text.drop_first() && pattern[0] == text[0] {
                assert(pattern.len() == text.len());
                assert forall|i: int| 0 <= i < pattern.len() implies pattern[i] == text[i] by {
                    if i > 0 {
                        assert(rest[i - 1] == text.drop_first()[i - 1]);
                    }
                }
                assert(pattern =~= text);
            }
        }
    } else {
        if text.len() == 0 {
            assert(pattern =~= text);
        }
    }
}

/// A lone asterisk fits every text.
pub proof fn lemma_asterisk_fits_all(text: Seq<u8>)
    ensures
        wildcard_matches(seq![WILDCARD], text),
    decreases text.len(),
{
    let p = seq![WILDCARD];
    assert(p.drop_first() =~= Seq::<u8>::empty());
    assert(p[0] == WILDCARD);
    if text.len() > 0 {
        lemma_asterisk_fits_all(text.drop_first());
    } else {
        assert(wildcard_matches(p.drop_first(), text));
    }
}

/// Tells whether `text` fits `pattern`.
pub fn wildcard_match(pattern: &[u8], text: &[u8]) -> (r: bool)
    ensures
        r == wildcard_matches(pattern@, text@),
{
    let n = pattern.len();
    let m = text.len();
    // row[j] tells whether the text from j on fits the pattern from i on
    let mut row: Vec<bool> = Vec::new();
    let mut j: usize = 0;
    while j < m
        invariant
            j <= m,
            m == text@.len(),
            row@.len() == j,
            forall|k: int| 0 <= k < j ==> !row@[k],
        decreases m - j,
    {
        row.push(false);
        j = j + 1;
    }
    row.push(true);
    let width = row.len();
    assert forall|k: int| 0 <= k <= m implies row@[k] == wildcard_matches(
        pattern@.skip(n as int),
        #[trigger] text@.skip(k),
    ) by {
        assert(pattern@.skip(n as int).len() == 0);
    }
    let mut i = n;
    while i > 0
        invariant
            i <= n,
            n == pattern@.len(),
            m == text@.len(),
            width == m + 1,
            row@.len() == m + 1,
            forall|k: int|
                0 <= k <= m ==> row@[k] == wildcard_matches(
                    pattern@.skip(i as int),
                    #[trigger] text@.skip(k),
                ),
        decreases i,
    {
        i = i - 1;
        let c = pattern[i];
        let ghost below = row@;
        let ghost pat = pattern@.skip(i as int);
        assert(pat.drop_first() == pattern@.skip(i + 1));
        assert(pat[0] == c);
        let mut next: Vec<bool> = Vec::new();
        let mut fill: usize = 0;
        while fill < m
            invariant
                fill <= m,
                next@.len() == fill,
            decreases m - fill,
        {
            next.push(false);
            fill = fill + 1;
        }
        next.push(c == WILDCARD && row[m]);
        assert(text@.skip(m as int).len() == 0);
        assert(wildcard_matches(pat.drop_first(), text@.skip(m as int)) == below[m as int]);
        let mut k = m;
        while k > 0
            invariant
                k <= m,
                m == text@.len(),
                width == m + 1,
                next@.len() == m + 1,
                below.len() == m + 1,
                row@ == below,
                pat == pattern@.skip(i as int),
                pat.len() > 0,
                pat[0] == c,
                pat.drop_first() == pattern@.skip(i + 1),
                forall|t: int|
                    0 <= t <= m ==> below[t] == wildcard_matches(
                        pattern@.skip(i + 1),
                        #[trigger] text@.skip(t),
                    ),
                forall|t: int|
                    k <= t <= m ==> next@[t] == wildcard_matches(pat, #[trigger] text@.skip(t)),
            decreases k,
        {
            k = k - 1;
            let ghost here = text@.skip(k as int);
            assert(here.drop_first() == text@.skip(k + 1));
            assert(here[0] == text@[k as int]);
            let v = if c == WILDCARD {
                row[k] || next[k + 1]
            } else {
                c == text[k] && row[k + 1]
            };
            next[k] = v;
        }
        row = next;
    }
    assert(pattern@.skip(0) == pattern@);
    assert(text@.skip(0) == text@);
    row[0]
}

/// The action that the first `n` patterns give `text`: the actions of all
/// patterns that `text` fits, restricted by one another; `None` where it
/// fits none.
pub open spec fn fitting_action(
    patterns: Seq<(Vec<u8>, ProtocolInspectAction)>,
    text: Seq<u8>,
    n: nat,
) -> Option<ProtocolInspectAction>
    decreases n,
{
    if n == 0 {
        None
    } else {
        let before = fitting_action(patterns, text, (n - 1) as nat);
        if wildcard_matches(patterns[n - 1].0@, text) {
            match before {
                Some(a) => Some(a.spec_restrict(patterns[n - 1].1)),
                None => Some(patterns[n - 1].1),
            }
        } else {
            before
        }
    }
}

/// The action that the patterns give is at least as strict as that of
/// every pattern that the text fits, and is the action of one of them;
/// none is given only where the text fits no pattern.
pub proof fn lemma_fitting_action(
    patterns: Seq<(Vec<u8>, ProtocolInspectAction)>,
    text: Seq<u8>,
    n: nat,
)
    requires
        n <= patterns.len(),
    ensures
        match fitting_action(patterns, text, n) {
            Some(a) => {
                &&& exists|i: int|
                    0 <= i < n && wildcard_matches((#[trigger] patterns[i]).0@, text)
                        && patterns[i].1 == a
                &&& forall|i: int|
                    0 <= i < n && wildcard_matches((#[trigger] patterns[i]).0@, text)
                        ==> patterns[i].1.rank() <= a.rank()
            },
            None => forall|i: int|
                0 <= i < n ==> !wildcard_matches((#[trigger] patterns[i]).0@, text),
        },
    decreases n,
{
    if n > 0 {
        lemma_fitting_action(patterns, text, (n - 1) as nat);
        let before = fitting_action(patterns, text, (n - 1) as nat);
        if wildcard_matches(patterns[n - 1].0@, text) {
            match before {
                Some(a) => {
                    let i = choose|i: int|
                        0 <= i < n - 1 && wildcard_matches((#[trigger] patterns[i]).0@, text)
                            && patterns[i].1 == a;
                    if patterns[n - 1].1.rank() > a.rank() {
                        assert(patterns[n - 1].1 == a.spec_restrict(patterns[n - 1].1));
                    } else {
                        assert(patterns[i].1 == a.spec_restrict(patterns[n - 1].1));
                    }
                },
                None => {
                    assert(wildcard_matches(patterns[n - 1].0@, text));
                },
            }
        } else {
            match before {
                Some(a) => {
                    let i = choose|i: int|
                        0 <= i < n - 1 && wildcard_matches((#[trigger] patterns[i]).0@, text)
                            && patterns[i].1 == a;
                    assert(0 <= i < n && wildcard_matches(patterns[i].0@, text));
                },
                None => {},
            }
        }
    }
}

/// Patterns with their actions, and an action for domains that fit none.
#[derive(Debug)]
pub struct AclWildcardRule {
    patterns: Vec<(Vec<u8>, ProtocolInspectAction)>,
    missed_action: ProtocolInspectAction,
}

impl AclWildcardRule {
    /// The patterns of the rule in the order in which they were added.
    pub closed spec fn patterns(&self) -> Seq<(Vec<u8>, ProtocolInspectAction)> {
        self.patterns@
    }

    pub closed spec fn spec_missed_action(&self) -> ProtocolInspectAction {
        self.missed_action
    }

    /// What the rule says of a domain, given as its bytes.
    pub open spec fn spec_check(&self, domain: Seq<u8>) -> (bool, ProtocolInspectAction) {
        match fitting_action(self.patterns(), domain, self.patterns().len()) {
            Some(a) => (true, a),
            None => (false, self.spec_missed_action()),
        }
    }

    pub fn new(missed_action: ProtocolInspectAction) -> (r: Self)
        ensures
            r.patterns() == Seq::<(Vec<u8>, ProtocolInspectAction)>::empty(),
            r.spec_missed_action() == missed_action,
    {
        AclWildcardRule { patterns: Vec::new(), missed_action }
    }

    pub fn add_pattern(&mut self, pattern: Vec<u8>, action: ProtocolInspectAction)
        ensures
            final(self).patterns() == old(self).patterns().push((pattern, action)),
            final(self).spec_missed_action() == old(self).spec_missed_action(),
    {
        self.patterns.push((pattern, action));
    }

    pub fn set_missed_action(&mut self, action: ProtocolInspectAction)
        ensures
            final(self).patterns() == old(self).patterns(),
            final(self).spec_missed_action() == action,
    {
        self.missed_action = action;
    }

    pub fn missed_action(&self) -> (r: ProtocolInspectAction)
        ensures
            r == self.spec_missed_action(),
    {
        self.missed_action
    }

    pub fn check(&self, domain: &[u8]) -> (r: (bool, ProtocolInspectAction))
        ensures
            r == self.spec_check(domain@),
    {
        let mut found: Option<ProtocolInspectAction> = None;
        let mut i: usize = 0;
        while i < self.patterns.len()
            invariant
                i <= self.patterns@.len(),
                found == fitting_action(self.patterns@, domain@, i as nat),
            decreases self.patterns@.len() - i,
        {
            if wildcard_match(self.patterns[i].0.as_slice(), domain) {
                let action = self.patterns[i].1;
                found = match found {
                    Some(a) => Some(a.restrict(&action)),
                    None => Some(action),
                };
            }
            i = i + 1;
        }
        match found {
            Some(a) => (true, a),
            None => (false, self.missed_action),
        }
    }
}

} // verus!
