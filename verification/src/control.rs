//! The zone-transition state machine.
//!
//! Per site, the controller keeps a belief about the active proxy target and
//! turns each address observation into at most one transition. The caller
//! runs the surrounding loop: it plans a transition here, queries the proxy's
//! actual target, resolves the command (suppressed when the proxy already
//! agrees), performs the set call if one is owed, and commits the new belief
//! — or keeps the old one when the proxy could not be reached, so the next
//! event retries the same decision from scratch.

use vstd::prelude::*;

use crate::addr::Ipv4;
use crate::zone::{first_match, lemma_first_match, Site};

verus! {

/// The controller's belief about one site's active target: nothing observed
/// yet, inside a zone with its enter target active, or outside every zone.
#[derive(Clone, Debug, PartialEq, Eq)]
pub enum ZoneState {
    Unknown,
    InZone(String),
    OutOfZone,
}

/// One planned transition: which rule fires, and whether the zone is being
/// entered (activate its `proxy_in`) or left (fall back to its `proxy_out`).
#[derive(Clone, Copy, Debug, PartialEq, Eq, Structural)]
pub struct Transition {
    pub rule_index: usize,
    pub enter: bool,
}

/// The transition the startup enumeration yields: enter the first matching
/// rule's zone, or — with no address or no match — leave via the first rule,
/// so the proxy always starts in a known state.
pub open spec fn spec_plan_startup(site: Site, addr: Option<Ipv4>) -> Transition {
    match addr {
        Some(a) => match first_match(site.rules@, a) {
            Some(i) => Transition { rule_index: i as usize, enter: true },
            None => Transition { rule_index: 0, enter: false },
        },
        None => Transition { rule_index: 0, enter: false },
    }
}

/// The transition a change event yields, if any: an added address enters its
/// first matching zone; a removed address leaves it only when that zone's
/// enter target is the one currently believed active; everything else —
/// no matching rule, or a removal unrelated to the believed zone — is
/// ignored.
pub open spec fn spec_plan_event(
    site: Site,
    state: ZoneState,
    addr: Ipv4,
    added: bool,
) -> Option<Transition> {
    match first_match(site.rules@, addr) {
        Some(i) => if added {
            Some(Transition { rule_index: i as usize, enter: true })
        } else {
            if state matches ZoneState::InZone(t) && t@ == site.rules@[i].proxy_in@ {
                Some(Transition { rule_index: i as usize, enter: false })
            } else {
                None
            }
        },
        None => None,
    }
}

/// The target a transition asks the proxy for.
pub open spec fn spec_desired_target(site: Site, t: Transition) -> Seq<char>
    recommends
        t.rule_index < site.rules@.len(),
{
    if t.enter {
        site.rules@[t.rule_index as int].proxy_in@
    } else {
        site.rules@[t.rule_index as int].proxy_out@
    }
}

/// The set call a transition still owes once the proxy's actual target is
/// known: none when the proxy already shows the desired target.
pub open spec fn spec_resolve(desired: Seq<char>, now: Seq<char>) -> Option<Seq<char>> {
    if now == desired {
        None
    } else {
        Some(desired)
    }
}

/// The belief a committed transition leaves behind.
pub open spec fn spec_next_state(site: Site, t: Transition) -> ZoneState
    recommends
        t.rule_index < site.rules@.len(),
{
    if t.enter {
        ZoneState::InZone(site.rules@[t.rule_index as int].proxy_in)
    } else {
        ZoneState::OutOfZone
    }
}

/// Plans the startup transition for one site from the enumerated address of
/// the watched interface, if any was found.
pub fn plan_startup(site: &Site, addr: &Option<Ipv4>) -> (t: Transition)
    requires
        site.rules@.len() > 0,
    ensures
        t == spec_plan_startup(*site, *addr),
        t.rule_index < site.rules@.len(),
{
    proof {
        match *addr {
            Some(a) => lemma_first_match(site.rules@, a),
            None => (),
        }
    }
    match addr {
        Some(a) => match crate::zone::zone_match(&site.rules, *a) {
            Some(i) => Transition { rule_index: i, enter: true },
            None => Transition { rule_index: 0, enter: false },
        },
        None => Transition { rule_index: 0, enter: false },
    }
}

/// Plans the transition, if any, that one change event yields for one site,
/// given the currently believed state.
pub fn plan_event(site: &Site, state: &ZoneState, addr: Ipv4, added: bool) -> (r: Option<
    Transition,
>)
    ensures
        r == spec_plan_event(*site, *state, addr, added),
        r matches Some(t) ==> t.rule_index < site.rules@.len(),
{
    proof {
        lemma_first_match(site.rules@, addr);
    }
    match crate::zone::zone_match(&site.rules, addr) {
        Some(i) => {
            if added {
                Some(Transition { rule_index: i, enter: true })
            } else {
                match state {
                    ZoneState::InZone(t) => {
                        if *t == site.rules[i].proxy_in {
                            Some(Transition { rule_index: i, enter: false })
                        } else {
                            None
                        }
                    },
                    _ => None,
                }
            }
        },
        None => None,
    }
}

/// The target a transition asks the proxy for: the rule's enter target on
/// entry, its exit target on leaving.
pub fn desired_target<'a>(site: &'a Site, t: &Transition) -> (r: &'a String)
    requires
        t.rule_index < site.rules@.len(),
    ensures
        r@ == spec_desired_target(*site, *t),
{
    if t.enter {
        &site.rules[t.rule_index].proxy_in
    } else {
        &site.rules[t.rule_index].proxy_out
    }
}

/// Resolves the command a transition owes once the proxy's actual target has
/// been queried: `None` suppresses the redundant set call, `Some` carries the
/// target to set.
pub fn resolve_command(desired: &String, now: &String) -> (r: Option<String>)
    ensures
        match r {
            Some(s) => spec_resolve(desired@, now@) == Some(s@),
            None => spec_resolve(desired@, now@) is None,
        },
{
    if *now == *desired {
        None
    } else {
        Some(desired.clone())
    }
}

/// Folds a transition's outcome into the believed state: a successful (or
/// suppressed) command commits the new belief; a failed one leaves the old
/// belief, so the next event re-attempts the same decision.
pub fn apply_outcome(site: &Site, state: ZoneState, t: &Transition, ok: bool) -> (r: ZoneState)
    requires
        t.rule_index < site.rules@.len(),
    ensures
        r == if ok {
            spec_next_state(*site, *t)
        } else {
            state
        },
{
    if ok {
        if t.enter {
            ZoneState::InZone(site.rules[t.rule_index].proxy_in.clone())
        } else {
            ZoneState::OutOfZone
        }
    } else {
        state
    }
}

/// Startup without an address falls back deterministically: the planned
/// transition is the exit through the first rule, and the target it asks the
/// proxy for is that rule's exit target — one known command, whatever the
/// rules hold.
pub proof fn lemma_startup_fallback(site: Site)
    requires
        site.rules@.len() > 0,
    ensures
        ({
            let t = spec_plan_startup(site, None::<Ipv4>);
            &&& t == (Transition { rule_index: 0, enter: false })
            &&& spec_desired_target(site, t) == site.rules@[0].proxy_out@
        }),
{
}

/// Re-announcing a zone is silent: an added address whose first matching
/// rule's enter target is already the believed active target, while the
/// proxy's actual selection agrees with that belief, plans an enter whose
/// command resolves to nothing — no second set call reaches the proxy.
pub proof fn lemma_enter_idempotent(site: Site, addr: Ipv4, target: String, now: Seq<char>)
    requires
        first_match(site.rules@, addr) is Some,
        site.rules@[first_match(site.rules@, addr)->0].proxy_in@ == target@,
        now == target@,
    ensures
        ({
            let i = first_match(site.rules@, addr)->0;
            let t = Transition { rule_index: i as usize, enter: true };
            &&& spec_plan_event(site, ZoneState::InZone(target), addr, true) == Some(t)
            &&& spec_resolve(spec_desired_target(site, t), now) is None
        }),
{
    lemma_first_match(site.rules@, addr);
    vstd::std_specs::vec::axiom_spec_len(&site.rules);
    let i = first_match(site.rules@, addr)->0;
    assert(0 <= i < site.rules@.len());
    assert((i as usize) as int == i);
}

} // verus!
