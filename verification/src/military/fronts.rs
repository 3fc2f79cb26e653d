//! Front-based combat records: region control, casualties, battles and
//! the fronts that collect them.
use vstd::prelude::*;
use std::collections::HashMap;
use crate::geography::RuralClass;
use crate::text::{names_contain, str_eq};

verus! {

/// Control status of a region.
#[derive(Debug, Clone, PartialEq)]
pub enum RegionControl {
    /// Controlled by original owner.
    Owner,
    /// Occupied by enemy.
    Occupied(String),
    /// Contested territory.
    Contested,
    /// Rebel control.
    RebelControl,
}

/// Casualty breakdown by category.
#[derive(Debug, Clone, PartialEq)]
pub struct Casualties {
    /// Dead soldiers.
    pub dead: i64,
    /// Wounded soldiers.
    pub wounded: i64,
    /// Deserters.
    pub deserters: i64,
    /// Demographic breakdown of casualties (for routing back to classes).
    pub demographic_breakdown: HashMap<RuralClass, i64>,
}

impl Casualties {
    /// Dead, wounded and deserters together.
    pub open spec fn total_spec(&self) -> int {
        self.dead + self.wounded + self.deserters
    }

    /// Whether `total` can be computed without overflow.
    pub open spec fn total_fits(&self) -> bool {
        &&& i64::MIN <= self.dead + self.wounded <= i64::MAX
        &&& i64::MIN <= self.total_spec() <= i64::MAX
    }

    /// Creates a casualty record with an empty demographic breakdown.
    pub fn new(dead: i64, wounded: i64, deserters: i64) -> (r: Self)
        ensures
            r.dead == dead,
            r.wounded == wounded,
            r.deserters == deserters,
            r.demographic_breakdown@ == Map::<RuralClass, i64>::empty(),
    {
        Casualties { dead, wounded, deserters, demographic_breakdown: HashMap::new() }
    }

    /// Replaces the demographic breakdown.
    pub fn set_demographic_breakdown(&mut self, breakdown: HashMap<RuralClass, i64>)
        ensures
            final(self).dead == old(self).dead,
            final(self).wounded == old(self).wounded,
            final(self).deserters == old(self).deserters,
            final(self).demographic_breakdown@ == breakdown@,
    {
        self.demographic_breakdown = breakdown;
    }

    /// The sum of dead, wounded and deserters.
    pub fn total(&self) -> (r: i64)
        requires
            self.total_fits(),
        ensures
            r == self.total_spec(),
    {
        self.dead + self.wounded + self.deserters
    }
}

impl Default for Casualties {
    fn default() -> (r: Self)
        ensures
            r.dead == 0,
            r.wounded == 0,
            r.deserters == 0,
            r.demographic_breakdown@ == Map::<RuralClass, i64>::empty(),
    {
        Casualties::new(0, 0, 0)
    }
}

/// Battle outcome.
#[derive(Debug, Clone, PartialEq)]
pub enum BattleResult {
    /// Attacker victory.
    AttackerVictory,
    /// Defender victory.
    DefenderVictory,
    /// Stalemate.
    Stalemate,
    /// Pyrrhic victory (attacker won but with heavy losses).
    PyrrhicVictory,
    /// Strategic retreat: one side withdrew to preserve its forces.
    Retreat {
        /// Name of the country that retreated.
        retreating_side: String,
    },
}

/// Battle record.
#[derive(Debug, Clone, PartialEq)]
pub struct Battle {
    /// Unique battle ID.
    pub id: String,
    /// Battle location (region ID).
    pub location: String,
    /// Attacking country.
    pub attacker: String,
    /// Defending country.
    pub defender: String,
    /// Turn when the battle occurred.
    pub turn: u32,
    /// Attacker units involved.
    pub attacker_units: Vec<String>,
    /// Defender units involved.
    pub defender_units: Vec<String>,
    /// Attacker casualties.
    pub attacker_casualties: Casualties,
    /// Defender casualties.
    pub defender_casualties: Casualties,
    /// Battle result.
    pub result: BattleResult,
}

/// What `country` lost in `battle`: its side's casualties, counted once
/// for each side it fought on.
pub open spec fn battle_share(battle: Battle, country: Seq<char>) -> int {
    (if battle.attacker@ == country { battle.attacker_casualties.total_spec() } else { 0 })
        + (if battle.defender@ == country { battle.defender_casualties.total_spec() } else { 0 })
}

/// What `country` lost in the first `k` battles of `battles`.
pub open spec fn casualties_through(battles: Seq<Battle>, country: Seq<char>, k: int) -> int
    decreases k,
{
    if k <= 0 {
        0
    } else {
        casualties_through(battles, country, k - 1) + battle_share(battles[k - 1], country)
    }
}

/// Whether summing the casualties of `country` over `battles`, battle by
/// battle and side by side, stays within `i64`.
pub open spec fn casualty_sums_fit(battles: Seq<Battle>, country: Seq<char>) -> bool {
    forall|k: int|
        #![trigger battles[k]]
        0 <= k < battles.len() ==> {
            let before = casualties_through(battles, country, k);
            let b = battles[k];
            &&& (b.attacker@ == country ==> b.attacker_casualties.total_fits())
            &&& (b.defender@ == country ==> b.defender_casualties.total_fits())
            &&& (b.attacker@ == country ==> i64::MIN <= before + b.attacker_casualties.total_spec() <= i64::MAX)
            &&& i64::MIN <= before + battle_share(b, country) <= i64::MAX
        }
}

/// Whether a battle fought on `turn` keeps its front active on
/// `current_turn`.
pub open spec fn battle_recent(turn: u32, current_turn: u32, active_turns: u32) -> bool {
    turn <= current_turn && current_turn - turn <= active_turns
}

/// The control recorded for `region` in a list of `(region, control)`
/// entries: that of the first entry naming it.
pub open spec fn control_in(entries: Seq<(String, RegionControl)>, region: Seq<char>) -> Option<RegionControl>
    decreases entries.len(),
{
    if entries.len() == 0 {
        None
    } else if entries[0].0@ == region {
        Some(entries[0].1)
    } else {
        control_in(entries.drop_first(), region)
    }
}

/// Military front: a collection of battles in a set of regions.
#[derive(Debug, Clone, PartialEq)]
pub struct Front {
    /// Unique front ID.
    pub id: String,
    /// Front name.
    pub name: String,
    /// Regions involved in this front.
    pub regions: Vec<String>,
    /// Control status of each region, one entry per region.
    pub region_control: Vec<(String, RegionControl)>,
    /// Battles fought on this front.
    pub battles: Vec<Battle>,
    /// Countries involved in this front.
    pub involved_countries: Vec<String>,
}

proof fn lemma_control_in_update(entries: Seq<(String, RegionControl)>, i: int, entry: (String, RegionControl), r: Seq<char>)
    requires
        0 <= i < entries.len(),
        entries[i].0@ == entry.0@,
        forall|j: int| 0 <= j < i ==> entries[j].0@ != entry.0@,
    ensures
        control_in(entries.update(i, entry), r) == if r == entry.0@ { Some(entry.1) } else { control_in(entries, r) },
    decreases i,
{
    let updated = entries.update(i, entry);
    if i > 0 {
        assert(updated.drop_first() =~= entries.drop_first().update(i - 1, entry));
        lemma_control_in_update(entries.drop_first(), i - 1, entry, r);
        assert(updated[0] == entries[0]);
    } else {
        assert(updated.drop_first() =~= entries.drop_first());
        assert(updated[0] == entry);
    }
}

proof fn lemma_control_in_push(entries: Seq<(String, RegionControl)>, entry: (String, RegionControl), r: Seq<char>)
    requires
        forall|j: int| 0 <= j < entries.len() ==> entries[j].0@ != entry.0@,
    ensures
        control_in(entries.push(entry), r) == if r == entry.0@ { Some(entry.1) } else { control_in(entries, r) },
    decreases entries.len(),
{
    let pushed = entries.push(entry);
    if entries.len() == 0 {
        assert(pushed.drop_first() =~= Seq::<(String, RegionControl)>::empty());
        assert(pushed[0] == entry);
        assert(control_in(pushed.drop_first(), r) == None::<RegionControl>);
    } else {
        assert(pushed.drop_first() =~= entries.drop_first().push(entry));
        lemma_control_in_push(entries.drop_first(), entry, r);
        assert(pushed[0] == entries[0]);
    }
}

/// Records `control` for `region` in a list of `(region, control)`
/// entries: replaces the entry naming it, or adds one.
fn set_control(entries: &mut Vec<(String, RegionControl)>, region: String, control: RegionControl)
    ensures
        forall|r: Seq<char>|
            #![trigger control_in(final(entries)@, r)]
            control_in(final(entries)@, r) == if r == region@ { Some(control) } else { control_in(old(entries)@, r) },
{
    let mut i: usize = 0;
    while i < entries.len()
        invariant
            i <= entries.len(),
            entries@ == old(entries)@,
            forall|j: int| 0 <= j < i ==> entries@[j].0@ != region@,
        decreases entries.len() - i,
    {
        if str_eq(entries[i].0.as_str(), region.as_str()) {
            let ghost before = entries@;
            let ghost entry = (region, control);
            entries.set(i, (region, control));
            proof {
                assert forall|r: Seq<char>| #![trigger control_in(entries@, r)]
                    control_in(entries@, r) == if r == entry.0@ { Some(control) } else { control_in(before, r) } by {
                    lemma_control_in_update(before, i as int, entry, r);
                }
            }
            return;
        }
        i = i + 1;
    }
    let ghost before = entries@;
    let ghost entry = (region, control);
    entries.push((region, control));
    proof {
        assert forall|r: Seq<char>| #![trigger control_in(entries@, r)]
            control_in(entries@, r) == if r == entry.0@ { Some(control) } else { control_in(before, r) } by {
            lemma_control_in_push(before, entry, r);
        }
    }
}

impl Front {
    /// The control recorded for `region`, if any.
    pub open spec fn control_of(&self, region: Seq<char>) -> Option<RegionControl> {
        control_in(self.region_control@, region)
    }

    /// Creates a front over `regions` with every region under its owner's
    /// control and no battles yet.
    pub fn new(id: String, name: String, regions: Vec<String>, countries: Vec<String>) -> (r: Self)
        ensures
            r.id == id,
            r.name == name,
            r.regions@ == regions@,
            r.involved_countries@ == countries@,
            r.battles@.len() == 0,
            forall|region: Seq<char>|
                #[trigger] r.control_of(region) == if names_contain(regions@, region) {
                    Some(RegionControl::Owner)
                } else {
                    None::<RegionControl>
                },
    {
        let mut region_control: Vec<(String, RegionControl)> = Vec::new();
        let mut k: usize = 0;
        while k < regions.len()
            invariant
                k <= regions.len(),
                forall|region: Seq<char>|
                    #[trigger] control_in(region_control@, region) == if names_contain(regions@.take(k as int), region) {
                        Some(RegionControl::Owner)
                    } else {
                        None::<RegionControl>
                    },
            decreases regions.len() - k,
        {
            let ghost before = region_control@;
            set_control(&mut region_control, regions[k].clone(), RegionControl::Owner);
            proof {
                let taken = regions@.take(k as int + 1);
                assert forall|region: Seq<char>|
                    #[trigger] control_in(region_control@, region) == if names_contain(taken, region) {
                        Some(RegionControl::Owner)
                    } else {
                        None::<RegionControl>
                    } by {
                    if names_contain(taken, region) && region != regions@[k as int]@ {
                        let i = choose|i: int| 0 <= i < taken.len() && #[trigger] taken[i]@ == region;
                        assert(regions@.take(k as int)[i]@ == region);
                    }
                    if names_contain(regions@.take(k as int), region) {
                        let i = choose|i: int| 0 <= i < k && #[trigger] regions@.take(k as int)[i]@ == region;
                        assert(taken[i]@ == region);
                    }
                    if region == regions@[k as int]@ {
                        assert(taken[k as int]@ == region);
                    }
                }
            }
            k = k + 1;
        }
        assert(regions@.take(regions.len() as int) =~= regions@);
        Front { id, name, regions, region_control, battles: Vec::new(), involved_countries: countries }
    }

    /// Adds a battle to this front.
    pub fn add_battle(&mut self, battle: Battle)
        ensures
            final(self).battles@ == old(self).battles@.push(battle),
            final(self).id == old(self).id,
            final(self).name == old(self).name,
            final(self).regions == old(self).regions,
            final(self).region_control == old(self).region_control,
            final(self).involved_countries == old(self).involved_countries,
    {
        self.battles.push(battle);
    }

    /// Records `control` as the control status of `region`.
    pub fn update_region_control(&mut self, region: String, control: RegionControl)
        ensures
            forall|r: Seq<char>|
                #[trigger] final(self).control_of(r) == if r == region@ { Some(control) } else { old(self).control_of(r) },
            final(self).id == old(self).id,
            final(self).name == old(self).name,
            final(self).regions == old(self).regions,
            final(self).battles == old(self).battles,
            final(self).involved_countries == old(self).involved_countries,
    {
        set_control(&mut self.region_control, region, control);
    }

    /// Total casualties (dead + wounded + deserters) of `country` over all
    /// battles of this front, on either side.
    pub fn get_country_casualties(&self, country: &str) -> (r: i64)
        requires
            casualty_sums_fit(self.battles@, country@),
        ensures
            r == casualties_through(self.battles@, country@, self.battles@.len() as int),
    {
        let mut total: i64 = 0;
        let mut k: usize = 0;
        while k < self.battles.len()
            invariant
                k <= self.battles.len(),
                casualty_sums_fit(self.battles@, country@),
                total == casualties_through(self.battles@, country@, k as int),
            decreases self.battles.len() - k,
        {
            let battle = &self.battles[k];
            let ghost b = self.battles@[k as int];
            if str_eq(battle.attacker.as_str(), country) {
                total = total + battle.attacker_casualties.total();
            }
            if str_eq(battle.defender.as_str(), country) {
                total = total + battle.defender_casualties.total();
            }
            k = k + 1;
        }
        total
    }

    /// Whether the front has a battle within the last `active_turns`
    /// turns. Battles are examined in order until one qualifies; each one
    /// examined before that must not lie in the future.
    pub fn is_active(&self, current_turn: u32, active_turns: u32) -> (r: bool)
        requires
            forall|i: int|
                0 <= i < self.battles@.len() && #[trigger] self.battles@[i].turn > current_turn
                    ==> exists|j: int| 0 <= j < i && battle_recent(#[trigger] self.battles@[j].turn, current_turn, active_turns),
        ensures
            r == exists|i: int|
                0 <= i < self.battles@.len() && battle_recent(#[trigger] self.battles@[i].turn, current_turn, active_turns),
    {
        let mut k: usize = 0;
        while k < self.battles.len()
            invariant
                k <= self.battles.len(),
                forall|i: int|
                    0 <= i < self.battles@.len() && #[trigger] self.battles@[i].turn > current_turn
                        ==> exists|j: int| 0 <= j < i && battle_recent(#[trigger] self.battles@[j].turn, current_turn, active_turns),
                forall|j: int| 0 <= j < k ==> !battle_recent(#[trigger] self.battles@[j].turn, current_turn, active_turns),
            decreases self.battles.len() - k,
        {
            let turn = self.battles[k].turn;
            if current_turn - turn <= active_turns {
                assert(battle_recent(self.battles@[k as int].turn, current_turn, active_turns));
                return true;
            }
            k = k + 1;
        }
        false
    }
}

} // verus!
