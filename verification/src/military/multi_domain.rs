//! Combat domains (air, naval and land) and the decisions of a battle
//! fought across them: which contests are held, who wins control of a
//! domain, and how the land fight is settled when a side has no land
//! forces.
use vstd::prelude::*;
use crate::military::units::UnitType;
use crate::military::fronts::{Battle, BattleResult, Casualties};
use crate::geography::RuralClass;

verus! {

/// Combat domain classification for a military unit.
#[derive(Debug, Clone, Copy, PartialEq, Eq, Hash, Structural)]
pub enum CombatDomain {
    /// Air domain: air force units.
    Air,
    /// Naval domain: naval units.
    Naval,
    /// Land domain: infantry, tanks, artillery and peasant battalions.
    Land,
}

impl CombatDomain {
    /// The domain a unit type fights in.
    pub open spec fn of(unit_type: UnitType) -> CombatDomain {
        match unit_type {
            UnitType::AirForce => CombatDomain::Air,
            UnitType::Naval => CombatDomain::Naval,
            _ => CombatDomain::Land,
        }
    }

    /// Classifies a unit type into its combat domain.
    pub fn for_unit_type(unit_type: UnitType) -> (r: CombatDomain)
        ensures
            r == CombatDomain::of(unit_type),
    {
        match unit_type {
            UnitType::AirForce => CombatDomain::Air,
            UnitType::Naval => CombatDomain::Naval,
            UnitType::Infantry | UnitType::Tanks | UnitType::Artillery | UnitType::PeasantBattalion => CombatDomain::Land,
        }
    }
}

/// The positions, in increasing order, of those of the first `n` unit
/// types that fight in `domain`.
pub open spec fn domain_positions(types: Seq<UnitType>, domain: CombatDomain, n: int) -> Seq<int>
    decreases n,
{
    if n <= 0 {
        Seq::empty()
    } else if CombatDomain::of(types[n - 1]) == domain {
        domain_positions(types, domain, n - 1).push(n - 1)
    } else {
        domain_positions(types, domain, n - 1)
    }
}

/// The positions of the units that fight in `domain`, in order.
pub fn units_in_domain(unit_types: &[UnitType], domain: CombatDomain) -> (r: Vec<usize>)
    ensures
        r@.map_values(|i: usize| i as int) == domain_positions(unit_types@, domain, unit_types@.len() as int),
{
    let mut r: Vec<usize> = Vec::new();
    let mut i: usize = 0;
    while i < unit_types.len()
        invariant
            i <= unit_types@.len(),
            r@.map_values(|k: usize| k as int) == domain_positions(unit_types@, domain, i as int),
        decreases unit_types@.len() - i,
    {
        if CombatDomain::for_unit_type(unit_types[i]) == domain {
            r.push(i);
        }
        i = i + 1;
        assert(r@.map_values(|k: usize| k as int) =~= domain_positions(unit_types@, domain, i as int));
    }
    r
}

/// Which side a domain contest left in control.
#[derive(Debug, Clone, Copy, PartialEq, Eq, Structural)]
pub enum DomainControl {
    /// The attacker won the contest (outright or at heavy cost).
    Attacker,
    /// The defender won the contest.
    Defender,
    /// A stalemate or a withdrawal: no side controls the domain.
    Neither,
}

/// The control a contest's result gives: air superiority or sea control
/// goes to the attacker on a victory (pyrrhic ones included), to the
/// defender on its victory, and to no one on a stalemate or a retreat.
pub open spec fn control_of(result: BattleResult) -> DomainControl {
    match result {
        BattleResult::AttackerVictory | BattleResult::PyrrhicVictory => DomainControl::Attacker,
        BattleResult::DefenderVictory => DomainControl::Defender,
        _ => DomainControl::Neither,
    }
}

/// Which side controls a domain after its contest.
pub fn domain_control(result: &BattleResult) -> (r: DomainControl)
    ensures
        r == control_of(*result),
{
    match result {
        BattleResult::AttackerVictory | BattleResult::PyrrhicVictory => DomainControl::Attacker,
        BattleResult::DefenderVictory => DomainControl::Defender,
        BattleResult::Stalemate => DomainControl::Neither,
        BattleResult::Retreat { .. } => DomainControl::Neither,
    }
}

/// Whether a domain is contested: an air contest is held when either side
/// has air units, a naval one only in a coastal region and when either
/// side has ships.
pub fn contest_held(domain: CombatDomain, attacker_units: usize, defender_units: usize, is_coastal: bool) -> (r: bool)
    ensures
        r == (match domain {
            CombatDomain::Air => attacker_units > 0 || defender_units > 0,
            CombatDomain::Naval => is_coastal && (attacker_units > 0 || defender_units > 0),
            CombatDomain::Land => attacker_units > 0 && defender_units > 0,
        }),
{
    match domain {
        CombatDomain::Air => attacker_units > 0 || defender_units > 0,
        CombatDomain::Naval => is_coastal && (attacker_units > 0 || defender_units > 0),
        CombatDomain::Land => attacker_units > 0 && defender_units > 0,
    }
}

/// How the land phase of a battle is settled.
#[derive(Debug, Clone, Copy, PartialEq, Eq, Structural)]
pub enum LandSettlement {
    /// Both sides have land units: the land battle is fought.
    Fought,
    /// Only the attacker has land units: it wins by default.
    AttackerUnopposed,
    /// The attacker has no land units: a stalemate.
    NoAttack,
}

/// Settles the land phase from the number of land units on each side.
pub fn land_settlement(attacker_land_units: usize, defender_land_units: usize) -> (r: LandSettlement)
    ensures
        r == (if attacker_land_units > 0 && defender_land_units > 0 {
            LandSettlement::Fought
        } else if attacker_land_units > 0 {
            LandSettlement::AttackerUnopposed
        } else {
            LandSettlement::NoAttack
        }),
{
    if attacker_land_units > 0 && defender_land_units > 0 {
        LandSettlement::Fought
    } else if attacker_land_units > 0 {
        LandSettlement::AttackerUnopposed
    } else {
        LandSettlement::NoAttack
    }
}

/// The battle result of a land phase that is not fought: an unopposed
/// attacker wins, and without attacking land units it is a stalemate.
pub fn default_land_result(settlement: LandSettlement) -> (r: Option<BattleResult>)
    ensures
        settlement == LandSettlement::Fought ==> r is None,
        settlement == LandSettlement::AttackerUnopposed ==> r == Some(BattleResult::AttackerVictory),
        settlement == LandSettlement::NoAttack ==> r == Some(BattleResult::Stalemate),
{
    match settlement {
        LandSettlement::Fought => None,
        LandSettlement::AttackerUnopposed => Some(BattleResult::AttackerVictory),
        LandSettlement::NoAttack => Some(BattleResult::Stalemate),
    }
}

/// Whether a casualty record counts no losses at all.
pub open spec fn no_losses(c: Casualties) -> bool {
    c.dead == 0 && c.wounded == 0 && c.deserters == 0 && c.demographic_breakdown@ == Map::<RuralClass, i64>::empty()
}

/// Records a land phase that is not fought (see `land_settlement`): a
/// battle `<battle_id>-LAND` between the two countries with no losses on
/// either side and no defending units. An unopposed attacker wins with
/// its land units; without attacking land units it is a stalemate in which
/// no units took part. A fought land phase is recorded by the battle
/// itself, so none is built for it.
pub fn unfought_land_battle(
    battle_id: &str,
    location: String,
    attacker: String,
    defender: String,
    turn: u32,
    attacker_unit_ids: Vec<String>,
    settlement: LandSettlement,
) -> (r: Option<Battle>)
    ensures
        settlement == LandSettlement::Fought <==> r is None,
        r matches Some(b) ==> {
            &&& b.id@ == battle_id@ + "-LAND"@
            &&& b.location == location
            &&& b.attacker == attacker
            &&& b.defender == defender
            &&& b.turn == turn
            &&& b.defender_units@.len() == 0
            &&& no_losses(b.attacker_casualties)
            &&& no_losses(b.defender_casualties)
            &&& settlement == LandSettlement::AttackerUnopposed ==> b.attacker_units == attacker_unit_ids
                && b.result == BattleResult::AttackerVictory
            &&& settlement == LandSettlement::NoAttack ==> b.attacker_units@.len() == 0 && b.result == BattleResult::Stalemate
        },
{
    let (units, result) = match settlement {
        LandSettlement::Fought => {
            return None;
        },
        LandSettlement::AttackerUnopposed => (attacker_unit_ids, BattleResult::AttackerVictory),
        LandSettlement::NoAttack => (Vec::new(), BattleResult::Stalemate),
    };
    let mut id = String::from_str(battle_id);
    id.append("-LAND");
    Some(Battle {
        id,
        location,
        attacker,
        defender,
        turn,
        attacker_units: units,
        defender_units: Vec::new(),
        attacker_casualties: Casualties::new(0, 0, 0),
        defender_casualties: Casualties::new(0, 0, 0),
        result,
    })
}

/// The phases of a battle fought across domains, in the order they are
/// resolved: the air contest first when one is held, then the naval
/// contest when one is held, and the land phase last, always.
pub open spec fn phases_of(air_held: bool, naval_held: bool) -> Seq<CombatDomain> {
    (if air_held { seq![CombatDomain::Air] } else { Seq::empty() })
        + (if naval_held { seq![CombatDomain::Naval] } else { Seq::empty() })
        + seq![CombatDomain::Land]
}

/// The phases of a battle between the given units (unit types of each
/// side) in a region that is coastal or not: air, naval and land, in that
/// order, each of the first two only when it is contested (see
/// `contest_held`), so that the air and naval results can bear on the
/// land fight.
pub fn battle_phases(attacker_types: &[UnitType], defender_types: &[UnitType], is_coastal: bool) -> (r: Vec<CombatDomain>)
    ensures
        r@ == phases_of(
            domain_positions(attacker_types@, CombatDomain::Air, attacker_types@.len() as int).len() > 0
                || domain_positions(defender_types@, CombatDomain::Air, defender_types@.len() as int).len() > 0,
            is_coastal && (domain_positions(attacker_types@, CombatDomain::Naval, attacker_types@.len() as int).len() > 0
                || domain_positions(defender_types@, CombatDomain::Naval, defender_types@.len() as int).len() > 0),
        ),
{
    let mut phases: Vec<CombatDomain> = Vec::new();
    let attacker_air = units_in_domain(attacker_types, CombatDomain::Air);
    let defender_air = units_in_domain(defender_types, CombatDomain::Air);
    let air_held = contest_held(CombatDomain::Air, attacker_air.len(), defender_air.len(), is_coastal);
    if air_held {
        phases.push(CombatDomain::Air);
    }
    let attacker_naval = units_in_domain(attacker_types, CombatDomain::Naval);
    let defender_naval = units_in_domain(defender_types, CombatDomain::Naval);
    let naval_held = contest_held(CombatDomain::Naval, attacker_naval.len(), defender_naval.len(), is_coastal);
    if naval_held {
        phases.push(CombatDomain::Naval);
    }
    phases.push(CombatDomain::Land);
    proof {
        assert(attacker_air@.map_values(|i: usize| i as int).len() == attacker_air@.len());
        assert(defender_air@.map_values(|i: usize| i as int).len() == defender_air@.len());
        assert(attacker_naval@.map_values(|i: usize| i as int).len() == attacker_naval@.len());
        assert(defender_naval@.map_values(|i: usize| i as int).len() == defender_naval@.len());
    }
    assert(phases@ =~= phases_of(air_held, naval_held));
    phases
}

/// Every unit fights in exactly one domain: the positions of the three
/// domains together number the units.
pub proof fn law_domains_partition_units(types: Seq<UnitType>, n: int)
    requires
        0 <= n <= types.len(),
    ensures
        domain_positions(types, CombatDomain::Air, n).len() + domain_positions(types, CombatDomain::Naval, n).len()
            + domain_positions(types, CombatDomain::Land, n).len() == n,
    decreases n,
{
    if n > 0 {
        law_domains_partition_units(types, n - 1);
    }
}

} // verus!
