//! Zone rules and the first-match rule lookup.
//!
//! A rule maps a half-open IPv4 range `[ip_min, ip_max)` to the proxy target
//! to use while inside it (`proxy_in`) and the one to fall back to on leaving
//! (`proxy_out`). A site is an ordered list of rules for one proxy selector;
//! where ranges overlap, the first-declared matching rule governs.

use vstd::prelude::*;

use crate::addr::Ipv4;

verus! {

/// One zone rule: a half-open address range and its enter/exit targets.
#[derive(Clone, Debug, PartialEq, Eq)]
pub struct Rule {
    pub ip_min: Ipv4,
    pub ip_max: Ipv4,
    pub proxy_in: String,
    pub proxy_out: String,
}

/// One site: a proxy selector and its ordered rules, first match winning.
#[derive(Clone, Debug, PartialEq, Eq)]
pub struct Site {
    pub selector: String,
    pub rules: Vec<Rule>,
}

impl Rule {
    /// Whether `addr` lies in this rule's half-open range.
    pub open spec fn spec_has(self, addr: Ipv4) -> bool {
        self.ip_min.bits <= addr.bits < self.ip_max.bits
    }

    /// Whether `addr` lies in this rule's half-open range.
    pub fn has(&self, addr: Ipv4) -> (r: bool)
        ensures
            r == self.spec_has(addr),
    {
        self.ip_min.bits <= addr.bits && addr.bits < self.ip_max.bits
    }
}

/// The index of the first rule whose range holds `addr`, if any.
pub open spec fn first_match(rules: Seq<Rule>, addr: Ipv4) -> Option<int>
    decreases rules.len(),
{
    if rules.len() == 0 {
        None
    } else if rules[0].spec_has(addr) {
        Some(0)
    } else {
        match first_match(rules.drop_first(), addr) {
            Some(i) => Some(i + 1),
            None => None,
        }
    }
}

/// The first match is a match, is first, and exists whenever any rule
/// matches.
pub proof fn lemma_first_match(rules: Seq<Rule>, addr: Ipv4)
    ensures
        match first_match(rules, addr) {
            Some(i) => 0 <= i < rules.len() && rules[i].spec_has(addr) && forall|j: int|
                0 <= j < i ==> !rules[j].spec_has(addr),
            None => forall|j: int| 0 <= j < rules.len() ==> !rules[j].spec_has(addr),
        },
    decreases rules.len(),
{
    if rules.len() > 0 && !rules[0].spec_has(addr) {
        lemma_first_match(rules.drop_first(), addr);
        assert(forall|j: int| 1 <= j < rules.len() ==> rules[j] == rules.drop_first()[j - 1]);
    }
}

/// Finds the first rule whose range holds `addr`, scanning in declaration
/// order.
///
/// The result is exactly [`first_match`]: the returned index is the least
/// matching one, and `None` means no rule at all matches.
pub fn zone_match(rules: &Vec<Rule>, addr: Ipv4) -> (r: Option<usize>)
    ensures
        match r {
            Some(i) => first_match(rules@, addr) == Some(i as int),
            None => first_match(rules@, addr) is None,
        },
{
    proof {
        lemma_first_match(rules@, addr);
    }
    let mut i: usize = 0;
    while i < rules.len()
        invariant
            i <= rules.len(),
            forall|j: int| 0 <= j < i ==> !rules@[j].spec_has(addr),
            first_match(rules@, addr) matches Some(k) ==> i <= k,
        decreases rules.len() - i,
    {
        proof {
            lemma_first_match(rules@, addr);
        }
        if rules[i].has(addr) {
            proof {
                assert(first_match(rules@, addr) == Some(i as int));
            }
            return Some(i);
        }
        i = i + 1;
    }
    proof {
        lemma_first_match(rules@, addr);
    }
    None
}

/// Rules whose ranges never share an address.
pub open spec fn disjoint_rules(rules: Seq<Rule>) -> bool {
    forall|i: int, j: int, a: Ipv4|
        0 <= i < rules.len() && 0 <= j < rules.len() && i != j ==> !(rules[i].spec_has(a)
            && rules[j].spec_has(a))
}

/// Over non-overlapping rules, the lookup finds the unique rule whose range
/// holds the address, and nothing where none does.
pub proof fn lemma_disjoint_unique_match(rules: Seq<Rule>, addr: Ipv4)
    requires
        disjoint_rules(rules),
    ensures
        forall|i: int|
            0 <= i < rules.len() && rules[i].spec_has(addr) ==> first_match(rules, addr) == Some(
                i,
            ),
        (forall|i: int| 0 <= i < rules.len() ==> !rules[i].spec_has(addr)) ==> first_match(
            rules,
            addr,
        ) is None,
{
    lemma_first_match(rules, addr);
    assert forall|i: int|
        0 <= i < rules.len() && rules[i].spec_has(addr) implies first_match(rules, addr) == Some(
        i,
    ) by {
        let r = first_match(rules, addr);
        if r is None {
        } else {
            let k = r->0;
            if k != i {
                assert(!(rules[i].spec_has(addr) && rules[k].spec_has(addr)));
            }
        }
    }
}

} // verus!
