//! Fog of war over foreign nations: a four-tier intelligence level
//! (`Unknown` → `BroadRange` → `NarrowRange` → `Exact`) derived from the
//! diplomats and spies an observer has posted to a target.
use vstd::prelude::*;
use crate::international::diplomacy::{CountryDiplomats, DiplomaticPostType, count_posts, roster_of, find_country, diplomat_count};

verus! {

/// Four-tier intelligence level for foreign nation data.
#[derive(Debug, Clone, Copy, PartialEq, Eq, Hash, Structural)]
pub enum IntelLevel {
    /// No intelligence: all foreign stats are hidden.
    Unknown,
    /// Broad range estimate (±50% of the true value).
    BroadRange,
    /// Narrow range estimate (±15% of the true value).
    NarrowRange,
    /// Exact values visible.
    Exact,
}

impl Default for IntelLevel {
    fn default() -> (r: Self)
        ensures
            r == IntelLevel::Unknown,
    {
        IntelLevel::Unknown
    }
}

impl IntelLevel {
    /// The tier's position: `Unknown` is 0, `Exact` is 3.
    pub open spec fn rank(self) -> int {
        match self {
            IntelLevel::Unknown => 0,
            IntelLevel::BroadRange => 1,
            IntelLevel::NarrowRange => 2,
            IntelLevel::Exact => 3,
        }
    }

    /// The human-readable label of the tier.
    pub open spec fn label(self) -> Seq<char> {
        match self {
            IntelLevel::Unknown => "Unknown"@,
            IntelLevel::BroadRange => "Broad Range"@,
            IntelLevel::NarrowRange => "Narrow Range"@,
            IntelLevel::Exact => "Exact"@,
        }
    }

    /// Returns true if this tier provides any data at all.
    pub fn has_data(self) -> (r: bool)
        ensures
            r == (self != IntelLevel::Unknown),
    {
        !matches!(self, IntelLevel::Unknown)
    }

    /// Returns the next higher tier, or None if already at Exact.
    pub fn upgrade(self) -> (r: Option<IntelLevel>)
        ensures
            r == next_tier(self),
            self != IntelLevel::Exact ==> (r matches Some(l) && l.rank() == self.rank() + 1),
    {
        match self {
            IntelLevel::Unknown => Some(IntelLevel::BroadRange),
            IntelLevel::BroadRange => Some(IntelLevel::NarrowRange),
            IntelLevel::NarrowRange => Some(IntelLevel::Exact),
            IntelLevel::Exact => None,
        }
    }

    /// Returns the next lower tier, or None if already at Unknown.
    pub fn downgrade(self) -> (r: Option<IntelLevel>)
        ensures
            r == previous_tier(self),
            self != IntelLevel::Unknown ==> (r matches Some(l) && l.rank() == self.rank() - 1),
    {
        match self {
            IntelLevel::Unknown => None,
            IntelLevel::BroadRange => Some(IntelLevel::Unknown),
            IntelLevel::NarrowRange => Some(IntelLevel::BroadRange),
            IntelLevel::Exact => Some(IntelLevel::NarrowRange),
        }
    }

    /// Human-readable label for UI display.
    pub fn as_str(self) -> (r: &'static str)
        ensures
            r@ == self.label(),
    {
        match self {
            IntelLevel::Unknown => "Unknown",
            IntelLevel::BroadRange => "Broad Range",
            IntelLevel::NarrowRange => "Narrow Range",
            IntelLevel::Exact => "Exact",
        }
    }
}

/// The tier earned by the posts an observer holds in a target:
/// ambassador and spy → `Exact`; ambassador → `NarrowRange`; consul or
/// spy → `BroadRange`; nothing → `base`.
pub open spec fn intel_from_posts(ambassadors: nat, consuls: nat, spies: nat, base: IntelLevel) -> IntelLevel {
    if ambassadors > 0 && spies > 0 {
        IntelLevel::Exact
    } else if ambassadors > 0 {
        IntelLevel::NarrowRange
    } else if consuls > 0 || spies > 0 {
        IntelLevel::BroadRange
    } else {
        base
    }
}

/// The intelligence level `observer` holds on `target`.
pub open spec fn intel_level_of(
    countries: Seq<CountryDiplomats>,
    observer: Seq<char>,
    target: Seq<char>,
    base: IntelLevel,
) -> IntelLevel {
    match find_country(countries, observer) {
        None => IntelLevel::Unknown,
        Some(i) => match countries[i].vip_registry {
            None => base,
            Some(_) => {
                let vips = roster_of(countries[i]);
                intel_from_posts(
                    count_posts(vips, target, DiplomaticPostType::Ambassador),
                    count_posts(vips, target, DiplomaticPostType::Consul),
                    count_posts(vips, target, DiplomaticPostType::Spy),
                    base,
                )
            },
        },
    }
}

/// Computes the intel level `observer` holds on `target` from the
/// diplomats, consuls and spies it has posted there. `base_intelligence`
/// is the level granted without any post (an observer without a VIP
/// registry also gets it; an unknown observer gets `Unknown`).
pub fn compute_intel_level(
    countries: &[CountryDiplomats],
    observer: &str,
    target: &str,
    base_intelligence: IntelLevel,
) -> (r: IntelLevel)
    ensures
        r == intel_level_of(countries@, observer@, target@, base_intelligence),
        ({
            let amb = diplomat_count(countries@, observer@, target@, DiplomaticPostType::Ambassador);
            let con = diplomat_count(countries@, observer@, target@, DiplomaticPostType::Consul);
            let spy = diplomat_count(countries@, observer@, target@, DiplomaticPostType::Spy);
            &&& amb > 0 && spy > 0 ==> r == IntelLevel::Exact
            &&& amb > 0 && spy == 0 ==> r == IntelLevel::NarrowRange
            &&& amb == 0 && (con > 0 || spy > 0) ==> r == IntelLevel::BroadRange
        }),
{
    let idx = crate::international::diplomacy::position_of_country(countries, observer);
    match idx {
        None => IntelLevel::Unknown,
        Some(i) => {
            match &countries[i].vip_registry {
                None => base_intelligence,
                Some(vips) => {
                    let ambassadors = crate::international::diplomacy::count_posted(vips, target, DiplomaticPostType::Ambassador);
                    let consuls = crate::international::diplomacy::count_posted(vips, target, DiplomaticPostType::Consul);
                    let spies = crate::international::diplomacy::count_posted(vips, target, DiplomaticPostType::Spy);
                    if ambassadors > 0 && spies > 0 {
                        IntelLevel::Exact
                    } else if ambassadors > 0 {
                        IntelLevel::NarrowRange
                    } else if consuls > 0 || spies > 0 {
                        IntelLevel::BroadRange
                    } else {
                        base_intelligence
                    }
                },
            }
        },
    }
}

/// What an observer's posts at a target earn it, whatever its base
/// level: an ambassador and a spy give exact intelligence, an ambassador
/// alone a narrow range, and a consul or a spy without an ambassador a
/// broad range.
pub proof fn law_posts_earn_intelligence(
    countries: Seq<CountryDiplomats>,
    observer: Seq<char>,
    target: Seq<char>,
    base: IntelLevel,
)
    ensures
        ({
            let amb = diplomat_count(countries, observer, target, DiplomaticPostType::Ambassador);
            let con = diplomat_count(countries, observer, target, DiplomaticPostType::Consul);
            let spy = diplomat_count(countries, observer, target, DiplomaticPostType::Spy);
            let r = intel_level_of(countries, observer, target, base);
            &&& amb > 0 && spy > 0 ==> r == IntelLevel::Exact
            &&& amb > 0 && spy == 0 ==> r == IntelLevel::NarrowRange
            &&& amb == 0 && (con > 0 || spy > 0) ==> r == IntelLevel::BroadRange
        }),
{
    match find_country(countries, observer) {
        None => {},
        Some(i) => {
            assert(roster_of(countries[i]) == match countries[i].vip_registry {
                Some(v) => v@,
                None => Seq::<crate::international::diplomacy::PostedVip>::empty(),
            });
        },
    }
}

/// The tier above `l`, if any.
pub open spec fn next_tier(l: IntelLevel) -> Option<IntelLevel> {
    match l {
        IntelLevel::Unknown => Some(IntelLevel::BroadRange),
        IntelLevel::BroadRange => Some(IntelLevel::NarrowRange),
        IntelLevel::NarrowRange => Some(IntelLevel::Exact),
        IntelLevel::Exact => None,
    }
}

/// The tier below `l`, if any.
pub open spec fn previous_tier(l: IntelLevel) -> Option<IntelLevel> {
    match l {
        IntelLevel::Unknown => None,
        IntelLevel::BroadRange => Some(IntelLevel::Unknown),
        IntelLevel::NarrowRange => Some(IntelLevel::BroadRange),
        IntelLevel::Exact => Some(IntelLevel::NarrowRange),
    }
}

/// Upgrading a tier and then downgrading the result gives the tier back,
/// and so does downgrading and then upgrading.
pub proof fn law_upgrade_downgrade_inverse(l: IntelLevel)
    ensures
        next_tier(l) matches Some(u) ==> previous_tier(u) == Some(l),
        previous_tier(l) matches Some(d) ==> next_tier(d) == Some(l),
{
}

/// Posting more diplomats never lowers the intelligence level (for a base
/// level no higher than `BroadRange`).
pub proof fn law_more_posts_never_lower_intel(
    a1: nat, c1: nat, s1: nat,
    a2: nat, c2: nat, s2: nat,
    base: IntelLevel,
)
    requires
        a1 <= a2,
        c1 <= c2,
        s1 <= s2,
        base.rank() <= 1,
    ensures
        intel_from_posts(a1, c1, s1, base).rank() <= intel_from_posts(a2, c2, s2, base).rank(),
{
}

} // verus!
