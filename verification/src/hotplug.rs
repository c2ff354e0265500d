//! Display hotplug policy for wallpaper application and recovery.

use vstd::prelude::*;
use vstd::string::*;

use crate::display_group::DisplayGroup;
use crate::ids::DisplayId;
use crate::text::{decimal, decimal_text};

verus! {

/// How Easel behaves when expected outputs are missing after a topology change.
#[derive(Clone, Copy, Debug, PartialEq, Eq, Structural)]
pub enum MissingOutputPolicy {
    /// Apply to the displays that are still present; skip missing members.
    SkipMissing,
    /// Do not apply until every expected display is present again.
    PauseUntilRestored,
    /// Apply only when at least one expected display remains; otherwise pause.
    RequireAny,
}

impl Default for MissingOutputPolicy {
    fn default() -> (r: Self)
        ensures
            r == MissingOutputPolicy::SkipMissing,
    {
        MissingOutputPolicy::SkipMissing
    }
}

/// Result of resolving a display group against the live arrangement.
#[derive(Clone, Debug, PartialEq, Eq)]
pub struct HotplugResolution {
    /// Displays from the group that are currently connected.
    pub present: Vec<DisplayId>,
    /// Group members that are not in the live arrangement.
    pub missing: Vec<DisplayId>,
    /// Whether the active policy permits applying wallpaper now.
    pub may_apply: bool,
    /// Explainable reason for `may_apply`.
    pub reason: String,
}

/// Group members, in order, whose connection state is `live_wanted`.
pub open spec fn members_where(members: Seq<DisplayId>, live: Seq<DisplayId>, live_wanted: bool) -> Seq<DisplayId>
    decreases members.len(),
{
    if members.len() == 0 {
        members
    } else {
        let rest = members_where(members.drop_last(), live, live_wanted);
        if live.contains(members.last()) == live_wanted {
            rest.push(members.last())
        } else {
            rest
        }
    }
}

/// Whether the policy permits applying with these present and missing counts.
pub open spec fn policy_permits(policy: MissingOutputPolicy, present: nat, missing: nat) -> bool {
    match policy {
        MissingOutputPolicy::SkipMissing => present > 0,
        MissingOutputPolicy::PauseUntilRestored => missing == 0,
        MissingOutputPolicy::RequireAny => present > 0,
    }
}

/// The explanation given for the decision.
pub open spec fn hotplug_reason(policy: MissingOutputPolicy, present: nat, missing: nat, expected: nat) -> Seq<char> {
    match policy {
        MissingOutputPolicy::SkipMissing => if present == 0 {
            "no expected displays are connected; skipping apply"@
        } else if missing == 0 {
            "all expected displays are connected"@
        } else {
            "applying to "@ + decimal(present) + " present display(s); "@ + decimal(missing)
                + " missing under skip-missing policy"@
        },
        MissingOutputPolicy::PauseUntilRestored => if missing == 0 {
            "all expected displays are connected"@
        } else {
            "paused until "@ + decimal(missing) + " missing display(s) reconnect"@
        },
        MissingOutputPolicy::RequireAny => if present == 0 {
            "no expected displays remain; pausing under require-any policy"@
        } else {
            "applying to "@ + decimal(present) + " of "@ + decimal(expected) + " expected display(s)"@
        },
    }
}

fn is_live(live: &[DisplayId], id: DisplayId) -> (r: bool)
    ensures
        r == live@.contains(id),
{
    let mut k: usize = 0;
    while k < live.len()
        invariant
            k <= live@.len(),
            forall|q: int| 0 <= q < k ==> live@[q] != id,
        decreases live@.len() - k,
    {
        if live[k] == id {
            assert(live@[k as int] == id);
            return true;
        }
        k = k + 1;
    }
    false
}

/// Resolves which group members are present and whether apply is allowed.
pub fn resolve_hotplug(group: &DisplayGroup, live_displays: &[DisplayId], policy: MissingOutputPolicy) -> (r: HotplugResolution)
    ensures
        r.present@ == members_where(group.displays@, live_displays@, true),
        r.missing@ == members_where(group.displays@, live_displays@, false),
        r.may_apply == policy_permits(policy, r.present@.len(), r.missing@.len()),
        r.reason@ == hotplug_reason(policy, r.present@.len(), r.missing@.len(), group.displays@.len()),
{
    let mut present: Vec<DisplayId> = Vec::new();
    let mut missing: Vec<DisplayId> = Vec::new();
    let members = &group.displays;
    let mut i: usize = 0;
    while i < members.len()
        invariant
            i <= members@.len(),
            present@ == members_where(members@.subrange(0, i as int), live_displays@, true),
            missing@ == members_where(members@.subrange(0, i as int), live_displays@, false),
            present@.len() + missing@.len() == i,
        decreases members@.len() - i,
    {
        let ghost prefix = members@.subrange(0, i + 1);
        assert(prefix.drop_last() =~= members@.subrange(0, i as int));
        let id = members[i];
        if is_live(live_displays, id) {
            present.push(id);
        } else {
            missing.push(id);
        }
        i = i + 1;
    }
    assert(members@.subrange(0, members@.len() as int) =~= members@);
    let p = present.len();
    let m = missing.len();
    let (may_apply, reason) = match policy {
        MissingOutputPolicy::SkipMissing => {
            if p == 0 {
                (false, String::from_str("no expected displays are connected; skipping apply"))
            } else if m == 0 {
                (true, String::from_str("all expected displays are connected"))
            } else {
                let mut text = String::from_str("applying to ");
                text.append(decimal_text(p as u64).as_str());
                text.append(" present display(s); ");
                text.append(decimal_text(m as u64).as_str());
                text.append(" missing under skip-missing policy");
                (true, text)
            }
        },
        MissingOutputPolicy::PauseUntilRestored => {
            if m == 0 {
                (true, String::from_str("all expected displays are connected"))
            } else {
                let mut text = String::from_str("paused until ");
                text.append(decimal_text(m as u64).as_str());
                text.append(" missing display(s) reconnect");
                (false, text)
            }
        },
        MissingOutputPolicy::RequireAny => {
            if p == 0 {
                (false, String::from_str("no expected displays remain; pausing under require-any policy"))
            } else {
                let mut text = String::from_str("applying to ");
                text.append(decimal_text(p as u64).as_str());
                text.append(" of ");
                text.append(decimal_text(members.len() as u64).as_str());
                text.append(" expected display(s)");
                (true, text)
            }
        },
    };
    HotplugResolution { present, missing, may_apply, reason }
}

/// Every group member lands in exactly one of the two lists: `present` when it is live,
/// `missing` otherwise, and together they account for the whole group.
pub proof fn lemma_members_partition(members: Seq<DisplayId>, live: Seq<DisplayId>)
    ensures
        members_where(members, live, true).len() + members_where(members, live, false).len() == members.len(),
        forall|x: DisplayId| #[trigger] members_where(members, live, true).contains(x) <==> (members.contains(x) && live.contains(x)),
        forall|x: DisplayId| #[trigger] members_where(members, live, false).contains(x) <==> (members.contains(x) && !live.contains(x)),
    decreases members.len(),
{
    if members.len() > 0 {
        let init = members.drop_last();
        let last = members.last();
        lemma_members_partition(init, live);
        assert forall|x: DisplayId| members.contains(x) <==> (init.contains(x) || x == last) by {
            if members.contains(x) {
                let k = choose|k: int| 0 <= k < members.len() && members[k] == x;
                if k < init.len() {
                    assert(init[k] == x);
                }
            }
            if init.contains(x) {
                let k = choose|k: int| 0 <= k < init.len() && init[k] == x;
                assert(members[k] == x);
            }
            if x == last {
                assert(members[members.len() - 1] == x);
            }
        }
        assert forall|b: bool, x: DisplayId| #[trigger] members_where(members, live, b).contains(x) <==> (
        members_where(init, live, b).contains(x) || (x == last && live.contains(last) == b)) by {
            let rest = members_where(init, live, b);
            if live.contains(last) == b {
                assert(members_where(members, live, b) == rest.push(last));
                if rest.push(last).contains(x) {
                    let k = choose|k: int| 0 <= k < rest.len() + 1 && rest.push(last)[k] == x;
                    if k < rest.len() {
                        assert(rest[k] == x);
                    }
                }
                if rest.contains(x) {
                    let k = choose|k: int| 0 <= k < rest.len() && rest[k] == x;
                    assert(rest.push(last)[k] == x);
                }
                if x == last {
                    assert(rest.push(last)[rest.len() as int] == x);
                }
            }
        }
    }
}

/// Under pause-until-restored, applying is permitted only when every member is live.
pub proof fn lemma_pause_requires_all_present(members: Seq<DisplayId>, live: Seq<DisplayId>)
    ensures
        policy_permits(
            MissingOutputPolicy::PauseUntilRestored,
            members_where(members, live, true).len(),
            members_where(members, live, false).len(),
        ) <==> (forall|x: DisplayId| members.contains(x) ==> live.contains(x)),
{
    lemma_members_partition(members, live);
    let missing = members_where(members, live, false);
    if missing.len() > 0 {
        assert(missing.contains(missing[0]));
    }
    if exists|x: DisplayId| members.contains(x) && !live.contains(x) {
        let x = choose|x: DisplayId| members.contains(x) && !live.contains(x);
        assert(missing.contains(x));
    }
}

/// Under require-any (and skip-missing), applying is permitted exactly when at least one
/// group member is live, however many members are missing.
pub proof fn lemma_require_any_applies_with_any_member(members: Seq<DisplayId>, live: Seq<DisplayId>)
    ensures
        policy_permits(
            MissingOutputPolicy::RequireAny,
            members_where(members, live, true).len(),
            members_where(members, live, false).len(),
        ) <==> (exists|x: DisplayId| members.contains(x) && live.contains(x)),
        policy_permits(
            MissingOutputPolicy::SkipMissing,
            members_where(members, live, true).len(),
            members_where(members, live, false).len(),
        ) <==> (exists|x: DisplayId| members.contains(x) && live.contains(x)),
{
    lemma_members_partition(members, live);
    let present = members_where(members, live, true);
    if present.len() > 0 {
        assert(present.contains(present[0]));
    }
    if exists|x: DisplayId| members.contains(x) && live.contains(x) {
        let x = choose|x: DisplayId| members.contains(x) && live.contains(x);
        assert(present.contains(x));
    }
}

/// Positions, in live order, of the live displays listed in `present`.
pub open spec fn wanted_positions(live: Seq<DisplayId>, present: Seq<DisplayId>) -> Seq<usize>
    decreases live.len(),
{
    if live.len() == 0 {
        Seq::empty()
    } else {
        let rest = wanted_positions(live.drop_last(), present);
        if present.contains(live.last()) {
            rest.push((live.len() - 1) as usize)
        } else {
            rest
        }
    }
}

/// Positions of the live displays that `present` lists, in live order; used to filter a live
/// arrangement down to the displays a resolution allows.
pub fn filter_displays(live_displays: &[DisplayId], present: &[DisplayId]) -> (r: Vec<usize>)
    ensures
        r@ == wanted_positions(live_displays@, present@),
{
    let mut out: Vec<usize> = Vec::new();
    let mut i: usize = 0;
    while i < live_displays.len()
        invariant
            i <= live_displays@.len(),
            out@ == wanted_positions(live_displays@.subrange(0, i as int), present@),
        decreases live_displays@.len() - i,
    {
        let ghost prefix = live_displays@.subrange(0, i + 1);
        assert(prefix.drop_last() =~= live_displays@.subrange(0, i as int));
        if is_live(present, live_displays[i]) {
            out.push(i);
        }
        i = i + 1;
    }
    assert(live_displays@.subrange(0, live_displays@.len() as int) =~= live_displays@);
    out
}

} // verus!
