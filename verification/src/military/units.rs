//! Military unit types and military units with demographic tracking.
use vstd::prelude::*;
use rustc_hash::{FxBuildHasher, FxHashMap};
use std::hash::Hash;
use crate::economy::Commodity;
use crate::geography::RuralClass;

verus! {

/// The hash builder of `rustc_hash`'s maps.
#[verifier::external_type_specification]
#[verifier::external_body]
pub struct ExFxBuildHasher(FxBuildHasher);

/// Keys whose `==` and `Hash` are derived from their variants alone, so
/// that two keys are equal exactly when they are the same value. Only the
/// fieldless enums of this crate implement it.
pub(crate) trait PlainKey: Eq + Hash + Copy {}

impl PlainKey for RuralClass {}

impl PlainKey for UnitType {}

impl PlainKey for Commodity {}

/// `HashMap::insert` on an `FxHashMap` with plain keys: the map afterwards
/// is the map before with `key` bound to `value`.
#[verifier::external_body]
pub(crate) fn fx_insert<K: PlainKey, V>(m: &mut FxHashMap<K, V>, key: K, value: V)
    ensures
        final(m)@ == old(m)@.insert(key, value),
{
    m.insert(key, value);
}

/// `HashMap::get` on an `FxHashMap` with plain keys: the value bound to
/// `key`, if any.
#[verifier::external_body]
pub(crate) fn fx_get<K: PlainKey, V: Copy>(m: &FxHashMap<K, V>, key: K) -> (r: Option<V>)
    ensures
        r == (if m@.contains_key(key) { Some(m@[key]) } else { None::<V> }),
{
    m.get(&key).copied()
}

/// Type of military unit.
#[derive(Debug, Clone, Copy, PartialEq, Eq, Hash, Structural)]
pub enum UnitType {
    /// Standard infantry.
    Infantry,
    /// Armored tank units.
    Tanks,
    /// Artillery.
    Artillery,
    /// Air force.
    AirForce,
    /// Naval vessels.
    Naval,
    /// Peasant militia (zero upkeep, causes local devastation).
    PeasantBattalion,
}

/// Base combat statistics of a unit type. Every base statistic is a
/// whole number of points, so they are held exactly as integers.
#[derive(Debug, Clone, Copy, PartialEq, Eq, Structural)]
pub struct UnitStats {
    /// Attack power.
    pub attack: u32,
    /// Defense power.
    pub defense: u32,
    /// Organization (morale/cohesion).
    pub organization: u32,
    /// Supply level (logistics).
    pub supply: u32,
    /// Maneuver capability.
    pub maneuver: u32,
    /// Health/hit points.
    pub health: u32,
}

/// One line of a unit type's table of equipment: the commodity, the
/// quantity a full-strength unit holds (per 1000 soldiers), the condition
/// it is issued in and the condition it loses per turn, both in percent.
#[derive(Debug, Clone, Copy, PartialEq, Eq, Structural)]
pub struct ToeEntry {
    /// The commodity type of this equipment.
    pub commodity: Commodity,
    /// Quantity per the table of equipment.
    pub quantity: u32,
    /// Condition when issued, in percent.
    pub condition_percent: u32,
    /// Condition lost per turn, in percent.
    pub depreciation_percent: u32,
}

/// A line of a table of equipment.
pub open spec fn toe_entry(commodity: Commodity, quantity: u32, condition_percent: u32, depreciation_percent: u32) -> ToeEntry {
    ToeEntry { commodity, quantity, condition_percent, depreciation_percent }
}

fn make_toe_entry(commodity: Commodity, quantity: u32, condition_percent: u32, depreciation_percent: u32) -> (r: ToeEntry)
    ensures
        r == toe_entry(commodity, quantity, condition_percent, depreciation_percent),
{
    ToeEntry { commodity, quantity, condition_percent, depreciation_percent }
}

impl UnitType {
    /// The base combat statistics of the unit type.
    pub open spec fn base_stats_of(self) -> UnitStats {
        match self {
            UnitType::Infantry => UnitStats {
                attack: 10,
                defense: 8,
                organization: 80,
                supply: 100,
                maneuver: 5,
                health: 100,
            },
            UnitType::Tanks => UnitStats {
                attack: 25,
                defense: 20,
                organization: 70,
                supply: 80,
                maneuver: 8,
                health: 150,
            },
            UnitType::Artillery => UnitStats {
                attack: 30,
                defense: 5,
                organization: 60,
                supply: 60,
                maneuver: 2,
                health: 80,
            },
            UnitType::AirForce => UnitStats {
                attack: 40,
                defense: 15,
                organization: 90,
                supply: 50,
                maneuver: 20,
                health: 100,
            },
            UnitType::Naval => UnitStats {
                attack: 35,
                defense: 25,
                organization: 85,
                supply: 70,
                maneuver: 10,
                health: 200,
            },
            UnitType::PeasantBattalion => UnitStats {
                attack: 3,
                defense: 2,
                organization: 40,
                supply: 50,
                maneuver: 4,
                health: 60,
            },
        }
    }

    /// The commodities a unit of this type consumes per turn, with the
    /// quantity of each.
    pub open spec fn upkeep_of(self) -> Map<Commodity, u32> {
        match self {
            UnitType::Infantry => map![Commodity::Ammunition => 5u32, Commodity::Fuels => 1u32],
            UnitType::Tanks => map![Commodity::Ammunition => 15u32, Commodity::Fuels => 20u32, Commodity::Steel => 5u32],
            UnitType::Artillery => map![Commodity::Ammunition => 25u32, Commodity::Fuels => 2u32],
            UnitType::AirForce => map![Commodity::Ammunition => 10u32, Commodity::Fuels => 50u32, Commodity::ElectronicComponents => 5u32],
            UnitType::Naval => map![Commodity::Ammunition => 20u32, Commodity::Fuels => 40u32, Commodity::Steel => 10u32],
            UnitType::PeasantBattalion => Map::empty(),
        }
    }

    /// The wage cost of a unit of this type per turn.
    pub open spec fn wage_of(self) -> u32 {
        match self {
            UnitType::Infantry => 10,
            UnitType::Tanks => 25,
            UnitType::Artillery => 20,
            UnitType::AirForce => 50,
            UnitType::Naval => 40,
            UnitType::PeasantBattalion => 0,
        }
    }

    /// The table of equipment of the unit type in `year`: its standing
    /// equipment, followed by what the years reached so far have added.
    pub open spec fn toe_of(self, year: u32) -> Seq<ToeEntry> {
        match self {
            UnitType::Infantry => ((seq![toe_entry(Commodity::Rifles, 1000, 90, 1), toe_entry(Commodity::Clothing, 1000, 90, 5)] + if year >= 1880 { seq![toe_entry(Commodity::Ammunition, 5000, 100, 0), toe_entry(Commodity::TowedArtillery, 20, 90, 2)] } else { Seq::empty() }) + if year >= 1965 { seq![toe_entry(Commodity::SupportEquipment, 50, 90, 2)] } else { Seq::empty() }),
            UnitType::Tanks => (((seq![toe_entry(Commodity::Clothing, 1000, 90, 5), toe_entry(Commodity::Ammunition, 15000, 100, 0)] + if year >= 1916 { seq![toe_entry(Commodity::LightTanks, 50, 90, 3)] } else { Seq::empty() }) + if year >= 1935 { seq![toe_entry(Commodity::MediumTanks, 30, 90, 3)] } else { Seq::empty() }) + if year >= 1942 { seq![toe_entry(Commodity::HeavyTanks, 15, 90, 3)] } else { Seq::empty() }),
            UnitType::Artillery => seq![toe_entry(Commodity::TowedArtillery, 100, 90, 2), toe_entry(Commodity::Ammunition, 20000, 100, 0), toe_entry(Commodity::Clothing, 1000, 90, 5)],
            UnitType::AirForce => ((seq![toe_entry(Commodity::Clothing, 1000, 90, 5), toe_entry(Commodity::Ammunition, 10000, 100, 0)] + if year >= 1940 { seq![toe_entry(Commodity::Fighters, 20, 90, 4), toe_entry(Commodity::Bombers, 10, 90, 4)] } else { Seq::empty() }) + if year >= 1960 { seq![toe_entry(Commodity::Helicopters, 15, 90, 4)] } else { Seq::empty() }),
            UnitType::Naval => (seq![toe_entry(Commodity::Clothing, 1000, 90, 5), toe_entry(Commodity::Ammunition, 20000, 100, 0)] + if year >= 1935 { seq![toe_entry(Commodity::Submarines, 5, 90, 2)] } else { Seq::empty() }),
            UnitType::PeasantBattalion => Seq::empty(),
        }
    }

    /// Get base stats for this unit type.
    pub fn base_stats(&self) -> (r: UnitStats)
        ensures
            r == self.base_stats_of(),
    {
        match self {
            UnitType::Infantry => UnitStats {
                attack: 10,
                defense: 8,
                organization: 80,
                supply: 100,
                maneuver: 5,
                health: 100,
            },
            UnitType::Tanks => UnitStats {
                attack: 25,
                defense: 20,
                organization: 70,
                supply: 80,
                maneuver: 8,
                health: 150,
            },
            UnitType::Artillery => UnitStats {
                attack: 30,
                defense: 5,
                organization: 60,
                supply: 60,
                maneuver: 2,
                health: 80,
            },
            UnitType::AirForce => UnitStats {
                attack: 40,
                defense: 15,
                organization: 90,
                supply: 50,
                maneuver: 20,
                health: 100,
            },
            UnitType::Naval => UnitStats {
                attack: 35,
                defense: 25,
                organization: 85,
                supply: 70,
                maneuver: 10,
                health: 200,
            },
            UnitType::PeasantBattalion => UnitStats {
                attack: 3,
                defense: 2,
                organization: 40,
                supply: 50,
                maneuver: 4,
                health: 60,
            },
        }
    }

    /// Get commodity upkeep requirements: the consumption per turn of each
    /// commodity the unit needs. Peasant battalions need none.
    pub fn commodity_upkeep(&self) -> (r: FxHashMap<Commodity, u32>)
        ensures
            r@ == self.upkeep_of(),
    {
        let mut upkeep: FxHashMap<Commodity, u32> = FxHashMap::default();
        match self {
            UnitType::Infantry => {
                fx_insert(&mut upkeep, Commodity::Ammunition, 5);
                fx_insert(&mut upkeep, Commodity::Fuels, 1);
            },
            UnitType::Tanks => {
                fx_insert(&mut upkeep, Commodity::Ammunition, 15);
                fx_insert(&mut upkeep, Commodity::Fuels, 20);
                fx_insert(&mut upkeep, Commodity::Steel, 5);
            },
            UnitType::Artillery => {
                fx_insert(&mut upkeep, Commodity::Ammunition, 25);
                fx_insert(&mut upkeep, Commodity::Fuels, 2);
            },
            UnitType::AirForce => {
                fx_insert(&mut upkeep, Commodity::Ammunition, 10);
                fx_insert(&mut upkeep, Commodity::Fuels, 50);
                fx_insert(&mut upkeep, Commodity::ElectronicComponents, 5);
            },
            UnitType::Naval => {
                fx_insert(&mut upkeep, Commodity::Ammunition, 20);
                fx_insert(&mut upkeep, Commodity::Fuels, 40);
                fx_insert(&mut upkeep, Commodity::Steel, 10);
            },
            UnitType::PeasantBattalion => {
            },
        }
        assert(upkeep@ =~= self.upkeep_of());
        upkeep
    }

    /// Get wage cost per turn. Peasant battalions cost nothing.
    pub fn wage_cost(&self) -> (r: u32)
        ensures
            r == self.wage_of(),
    {
        match self {
            UnitType::Infantry => 10,
            UnitType::Tanks => 25,
            UnitType::Artillery => 20,
            UnitType::AirForce => 50,
            UnitType::Naval => 40,
            UnitType::PeasantBattalion => 0,
        }
    }

    /// The table of equipment for this unit type in `year`: the capital
    /// equipment a full-strength unit requires, per 1000 soldiers. Before
    /// 1880 infantry carries rifles and clothing only. Later years add
    /// equipment: ammunition and towed artillery (1880) and support equipment
    /// (1965) for infantry; light (1916), medium (1935) and heavy (1942)
    /// tanks; fighters and bombers (1940) and helicopters (1960) for the
    /// air force; submarines (1935) for the navy.
    pub fn table_of_equipment(&self, year: u32) -> (r: Vec<ToeEntry>)
        ensures
            r@ == self.toe_of(year),
    {
        let mut toe: Vec<ToeEntry> = Vec::new();
        match self {
            UnitType::Infantry => {
                toe.push(make_toe_entry(Commodity::Rifles, 1000, 90, 1));
                toe.push(make_toe_entry(Commodity::Clothing, 1000, 90, 5));
                if year >= 1880 {
                    toe.push(make_toe_entry(Commodity::Ammunition, 5000, 100, 0));
                    toe.push(make_toe_entry(Commodity::TowedArtillery, 20, 90, 2));
                }
                if year >= 1965 {
                    toe.push(make_toe_entry(Commodity::SupportEquipment, 50, 90, 2));
                }
            },
            UnitType::Tanks => {
                toe.push(make_toe_entry(Commodity::Clothing, 1000, 90, 5));
                toe.push(make_toe_entry(Commodity::Ammunition, 15000, 100, 0));
                if year >= 1916 {
                    toe.push(make_toe_entry(Commodity::LightTanks, 50, 90, 3));
                }
                if year >= 1935 {
                    toe.push(make_toe_entry(Commodity::MediumTanks, 30, 90, 3));
                }
                if year >= 1942 {
                    toe.push(make_toe_entry(Commodity::HeavyTanks, 15, 90, 3));
                }
            },
            UnitType::Artillery => {
                toe.push(make_toe_entry(Commodity::TowedArtillery, 100, 90, 2));
                toe.push(make_toe_entry(Commodity::Ammunition, 20000, 100, 0));
                toe.push(make_toe_entry(Commodity::Clothing, 1000, 90, 5));
            },
            UnitType::AirForce => {
                toe.push(make_toe_entry(Commodity::Clothing, 1000, 90, 5));
                toe.push(make_toe_entry(Commodity::Ammunition, 10000, 100, 0));
                if year >= 1940 {
                    toe.push(make_toe_entry(Commodity::Fighters, 20, 90, 4));
                    toe.push(make_toe_entry(Commodity::Bombers, 10, 90, 4));
                }
                if year >= 1960 {
                    toe.push(make_toe_entry(Commodity::Helicopters, 15, 90, 4));
                }
            },
            UnitType::Naval => {
                toe.push(make_toe_entry(Commodity::Clothing, 1000, 90, 5));
                toe.push(make_toe_entry(Commodity::Ammunition, 20000, 100, 0));
                if year >= 1935 {
                    toe.push(make_toe_entry(Commodity::Submarines, 5, 90, 2));
                }
            },
            UnitType::PeasantBattalion => {
            },
        }
        assert(toe@ =~= self.toe_of(year));
        toe
    }
}

/// A military unit, as far as the order of battle reads it: identity,
/// type, manpower with its demographic origin, and location.
#[derive(Debug, PartialEq)]
pub struct MilitaryUnit {
    /// Unique unit ID.
    pub id: String,
    /// Unit type.
    pub unit_type: UnitType,
    /// Current manpower count.
    pub manpower: i64,
    /// Demographic origin of the manpower (for casualty routing).
    pub manpower_origin: FxHashMap<RuralClass, i64>,
    /// Home region.
    pub home_region: String,
    /// Current location.
    pub location: String,
}

/// Whether `a` is a copy of `b`: equal fields and the same class
/// breakdown.
pub open spec fn same_unit(a: MilitaryUnit, b: MilitaryUnit) -> bool {
    &&& a.id == b.id
    &&& a.unit_type == b.unit_type
    &&& a.manpower == b.manpower
    &&& a.manpower_origin@ == b.manpower_origin@
    &&& a.home_region == b.home_region
    &&& a.location == b.location
}

impl Clone for MilitaryUnit {
    fn clone(&self) -> (r: Self)
        ensures
            same_unit(r, *self),
    {
        MilitaryUnit {
            id: self.id.clone(),
            unit_type: self.unit_type,
            manpower: self.manpower,
            manpower_origin: self.manpower_origin.clone(),
            home_region: self.home_region.clone(),
            location: self.location.clone(),
        }
    }
}


impl MilitaryUnit {
    /// Creates a new unit stationed in its home region.
    pub fn new(
        id: String,
        unit_type: UnitType,
        manpower: i64,
        manpower_origin: FxHashMap<RuralClass, i64>,
        home_region: String,
    ) -> (r: Self)
        ensures
            r.id == id,
            r.unit_type == unit_type,
            r.manpower == manpower,
            r.manpower_origin@ == manpower_origin@,
            r.home_region == home_region,
            r.location == home_region,
    {
        let location = home_region.clone();
        MilitaryUnit { id, unit_type, manpower, manpower_origin, home_region, location }
    }

    /// The losses a unit of `manpower` takes from `casualties`: none when
    /// there are no casualties or no men, otherwise the casualties up to
    /// its whole manpower.
    pub open spec fn losses(manpower: i64, casualties: i64) -> int {
        if casualties <= 0 || manpower <= 0 {
            0
        } else if casualties < manpower {
            casualties as int
        } else {
            manpower as int
        }
    }

    /// Takes casualties off the unit's manpower (see `losses`) and returns
    /// the losses actually taken. The demographic origin is left as it is.
    pub fn deduct_casualties(&mut self, casualties: i64) -> (r: i64)
        ensures
            r == MilitaryUnit::losses(old(self).manpower, casualties),
            final(self).manpower == old(self).manpower - r,
            final(self).id == old(self).id,
            final(self).unit_type == old(self).unit_type,
            final(self).manpower_origin@ == old(self).manpower_origin@,
            final(self).home_region == old(self).home_region,
            final(self).location == old(self).location,
    {
        if casualties <= 0 || self.manpower <= 0 {
            return 0;
        }
        let actual = if casualties < self.manpower { casualties } else { self.manpower };
        self.manpower = self.manpower - actual;
        actual
    }

    /// Returns true if this is a peasant battalion.
    pub fn is_peasant_battalion(&self) -> (r: bool)
        ensures
            r == (self.unit_type == UnitType::PeasantBattalion),
    {
        matches!(self.unit_type, UnitType::PeasantBattalion)
    }
}

/// Later years only add equipment: the table of an earlier year is the
/// beginning of the table of a later one.
pub proof fn law_toe_grows_with_year(t: UnitType, y1: u32, y2: u32)
    requires
        y1 <= y2,
    ensures
        t.toe_of(y1).len() <= t.toe_of(y2).len(),
        t.toe_of(y2).take(t.toe_of(y1).len() as int) == t.toe_of(y1),
{
    assert(t.toe_of(y2).take(t.toe_of(y1).len() as int) =~= t.toe_of(y1));
}

/// Peasant battalions consume no commodities, draw no wages and hold no
/// equipment, in any year.
pub proof fn law_peasant_battalions_cost_nothing(year: u32)
    ensures
        UnitType::PeasantBattalion.upkeep_of() == Map::<Commodity, u32>::empty(),
        UnitType::PeasantBattalion.wage_of() == 0,
        UnitType::PeasantBattalion.toe_of(year).len() == 0,
{
}

} // verus!
