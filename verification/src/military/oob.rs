//! The hierarchical order of battle:
//! `OrderOfBattle → Army → Division → Regiment → MilitaryUnit`.
//!
//! Every query reads the units in hierarchy order: armies in order, within
//! an army its divisions in order, within a division its regiments in
//! order, within a regiment its units in order.
use vstd::prelude::*;
use rustc_hash::FxHashMap;
use crate::military::units::{MilitaryUnit, UnitType, same_unit, fx_get, fx_insert};
use crate::text::{str_eq, push_char, push_decimal, push_zero_padded, decimal, zero_padded};
use crate::geography::RuralClass;

verus! {

/// The units of a list of unit references.
pub open spec fn deref_units(v: Seq<&MilitaryUnit>) -> Seq<MilitaryUnit> {
    v.map_values(|u: &MilitaryUnit| *u)
}

/// Sum of the manpower of `units`.
pub open spec fn manpower_sum(units: Seq<MilitaryUnit>) -> int
    decreases units.len(),
{
    if units.len() == 0 {
        0
    } else {
        manpower_sum(units.drop_last()) + units.last().manpower
    }
}

/// Whether every running total of the manpower of `units`, summed in
/// order, fits in an `i64`.
pub open spec fn prefix_sums_fit(units: Seq<MilitaryUnit>) -> bool {
    forall|i: int| 0 <= i <= units.len() ==> i64::MIN <= #[trigger] manpower_sum(units.take(i)) <= i64::MAX
}

/// Whether `u` is stationed in `region`.
pub open spec fn stationed_in(u: MilitaryUnit, region: Seq<char>) -> bool {
    u.location@ == region
}

/// Whether `u` still has manpower.
pub open spec fn alive(u: MilitaryUnit) -> bool {
    u.manpower > 0
}

/// Sum of the manpower of a list of units.
fn sum_manpower(units: &Vec<&MilitaryUnit>) -> (r: i64)
    requires
        prefix_sums_fit(deref_units(units@)),
    ensures
        r == manpower_sum(deref_units(units@)),
{
    let ghost all = deref_units(units@);
    let mut total: i64 = 0;
    let mut i: usize = 0;
    assert(all.take(0) =~= Seq::<MilitaryUnit>::empty());
    while i < units.len()
        invariant
            i <= units@.len(),
            all == deref_units(units@),
            prefix_sums_fit(all),
            total == manpower_sum(all.take(i as int)),
        decreases units@.len() - i,
    {
        proof {
            assert(all.take(i as int + 1).drop_last() =~= all.take(i as int));
            assert(all.take(i as int + 1).last() == *units@[i as int]);
            assert(i64::MIN <= manpower_sum(all.take(i as int + 1)) <= i64::MAX);
        }
        total = total + units[i].manpower;
        i = i + 1;
    }
    assert(all.take(i as int) =~= all);
    total
}

/// The units of `units` stationed in `region`, in order.
fn filter_stationed_in<'a>(units: &Vec<&'a MilitaryUnit>, region: &str) -> (r: Vec<&'a MilitaryUnit>)
    ensures
        deref_units(r@) == deref_units(units@).filter(|u: MilitaryUnit| stationed_in(u, region@)),
{
    let ghost all = deref_units(units@);
    let ghost pred = |u: MilitaryUnit| stationed_in(u, region@);
    let mut r: Vec<&MilitaryUnit> = Vec::new();
    let mut i: usize = 0;
    while i < units.len()
        invariant
            i <= units@.len(),
            all == deref_units(units@),
            pred == (|u: MilitaryUnit| stationed_in(u, region@)),
            deref_units(r@) == all.take(i as int).filter(pred),
        decreases units@.len() - i,
    {
        proof {
            assert(all.take(i as int + 1).drop_last() =~= all.take(i as int));
            assert(all.take(i as int + 1).last() == *units@[i as int]);
            reveal(Seq::filter);
        }
        if str_eq(units[i].location.as_str(), region) {
            r.push(units[i]);
        }
        assert(deref_units(r@) =~= all.take(i as int + 1).filter(pred));
        i = i + 1;
    }
    assert(all.take(i as int) =~= all);
    r
}

/// The units of `units` of type `unit_type`, in order.
fn filter_of_type<'a>(units: &Vec<&'a MilitaryUnit>, unit_type: UnitType) -> (r: Vec<&'a MilitaryUnit>)
    ensures
        deref_units(r@) == deref_units(units@).filter(|u: MilitaryUnit| u.unit_type == unit_type),
{
    let ghost all = deref_units(units@);
    let ghost pred = |u: MilitaryUnit| u.unit_type == unit_type;
    let mut r: Vec<&MilitaryUnit> = Vec::new();
    let mut i: usize = 0;
    while i < units.len()
        invariant
            i <= units@.len(),
            all == deref_units(units@),
            pred == (|u: MilitaryUnit| u.unit_type == unit_type),
            deref_units(r@) == all.take(i as int).filter(pred),
        decreases units@.len() - i,
    {
        proof {
            assert(all.take(i as int + 1).drop_last() =~= all.take(i as int));
            assert(all.take(i as int + 1).last() == *units@[i as int]);
            reveal(Seq::filter);
        }
        if units[i].unit_type == unit_type {
            r.push(units[i]);
        }
        assert(deref_units(r@) =~= all.take(i as int + 1).filter(pred));
        i = i + 1;
    }
    assert(all.take(i as int) =~= all);
    r
}

/// A regiment as a mathematical value.
#[verifier::ext_equal]
pub struct RegimentModel {
    /// Regiment ID.
    pub id: Seq<char>,
    /// Display name.
    pub name: Seq<char>,
    /// Home region.
    pub home_region: Seq<char>,
    /// The regiment's units, in order.
    pub units: Seq<MilitaryUnit>,
    /// Assigned commander, if any.
    pub commander_id: Option<String>,
}

/// A regiment: the lowest echelon of the order of battle. Owns military
/// units directly.
#[derive(Debug, Clone, PartialEq)]
pub struct Regiment {
    /// Unique regiment ID (e.g., "REG-001").
    pub id: String,
    /// Display name (e.g., "1st Regiment").
    pub name: String,
    /// Home region ID for this regiment.
    pub home_region: String,
    /// The military units belonging to this regiment.
    pub units: Vec<MilitaryUnit>,
    /// Assigned commander VIP ID (if any).
    pub commander_id: Option<String>,
}

impl View for Regiment {
    type V = RegimentModel;

    open spec fn view(&self) -> RegimentModel {
        RegimentModel {
            id: self.id@,
            name: self.name@,
            home_region: self.home_region@,
            units: self.units@,
            commander_id: self.commander_id,
        }
    }
}

impl Regiment {
    /// Creates a new empty regiment.
    pub fn new(id: String, name: String, home_region: String) -> (r: Self)
        ensures
            r@ == (RegimentModel { id: id@, name: name@, home_region: home_region@, units: Seq::empty(), commander_id: None }),
    {
        Regiment { id, name, home_region, units: Vec::new(), commander_id: None }
    }

    /// All units in this regiment.
    pub fn all_units(&self) -> (r: Vec<&MilitaryUnit>)
        ensures
            deref_units(r@) == self@.units,
    {
        let mut r: Vec<&MilitaryUnit> = Vec::new();
        let mut i: usize = 0;
        while i < self.units.len()
            invariant
                i <= self.units@.len(),
                r@.len() == i,
                forall|j: int| 0 <= j < i ==> *r@[j] == self.units@[j],
            decreases self.units@.len() - i,
        {
            r.push(&self.units[i]);
            i = i + 1;
        }
        assert(deref_units(r@) =~= self.units@);
        r
    }

    /// Total manpower across all units in this regiment.
    pub fn total_manpower(&self) -> (r: i64)
        requires
            prefix_sums_fit(self@.units),
        ensures
            r == manpower_sum(self@.units),
    {
        let all = self.all_units();
        sum_manpower(&all)
    }

    /// Units at a specific location.
    pub fn units_at_location(&self, region_id: &str) -> (r: Vec<&MilitaryUnit>)
        ensures
            deref_units(r@) == self@.units.filter(|u: MilitaryUnit| stationed_in(u, region_id@)),
    {
        let all = self.all_units();
        filter_stationed_in(&all, region_id)
    }

    /// Units of a specific type.
    pub fn units_by_type(&self, unit_type: UnitType) -> (r: Vec<&MilitaryUnit>)
        ensures
            deref_units(r@) == self@.units.filter(|u: MilitaryUnit| u.unit_type == unit_type),
    {
        let all = self.all_units();
        filter_of_type(&all, unit_type)
    }

    /// Add a unit to this regiment.
    pub fn add_unit(&mut self, unit: MilitaryUnit)
        ensures
            final(self)@ == (RegimentModel { units: old(self)@.units.push(unit), ..old(self)@ }),
    {
        self.units.push(unit);
    }

    /// Remove destroyed/disbanded units (manpower <= 0).
    pub fn remove_dead_units(&mut self)
        ensures
            final(self)@ == (RegimentModel { units: old(self)@.units.filter(|u: MilitaryUnit| alive(u)), ..old(self)@ }),
    {
        let ghost pred = |u: MilitaryUnit| alive(u);
        let ghost orig = self.units@;
        let mut rest: Vec<MilitaryUnit> = Vec::new();
        std::mem::swap(&mut rest, &mut self.units);
        while rest.len() > 0
            invariant
                rest@.len() <= orig.len(),
                rest@ == orig.skip(orig.len() - rest@.len()),
                self.units@ == orig.take(orig.len() - rest@.len()).filter(pred),
                pred == (|u: MilitaryUnit| alive(u)),
                self.id == old(self).id,
                self.name == old(self).name,
                self.home_region == old(self).home_region,
                self.commander_id == old(self).commander_id,
            decreases rest@.len(),
        {
            let ghost k = orig.len() - rest@.len();
            let u = rest.remove(0);
            proof {
                assert(u == orig[k]);
                assert(orig.take(k + 1).drop_last() =~= orig.take(k));
                assert(orig.take(k + 1).last() == orig[k]);
                reveal(Seq::filter);
                assert(rest@ =~= orig.skip(k + 1));
            }
            if u.manpower > 0 {
                self.units.push(u);
            }
            assert(self.units@ == orig.take(k + 1).filter(pred));
        }
        assert(orig.take(orig.len() as int) =~= orig);
    }
}

/// A regiment with its dead units removed.
pub open spec fn clean_regiment(r: RegimentModel) -> RegimentModel {
    RegimentModel { units: r.units.filter(|u: MilitaryUnit| alive(u)), ..r }
}

/// The units of a list of regiments, in order.
pub open spec fn regiment_units(rs: Seq<RegimentModel>) -> Seq<MilitaryUnit>
    decreases rs.len(),
{
    if rs.len() == 0 {
        Seq::empty()
    } else {
        regiment_units(rs.drop_last()) + rs.last().units
    }
}

/// A division as a mathematical value.
#[verifier::ext_equal]
pub struct DivisionModel {
    /// Division ID.
    pub id: Seq<char>,
    /// Display name.
    pub name: Seq<char>,
    /// Home region.
    pub home_region: Seq<char>,
    /// The division's regiments, in order.
    pub regiments: Seq<RegimentModel>,
    /// Assigned commander, if any.
    pub commander_id: Option<String>,
}

/// A division: mid echelon of the order of battle. Owns regiments.
#[derive(Debug, Clone, PartialEq)]
pub struct Division {
    /// Unique division ID (e.g., "DIV-001").
    pub id: String,
    /// Display name (e.g., "1st Division").
    pub name: String,
    /// Home region ID for this division's base.
    pub home_region: String,
    /// Regiments belonging to this division.
    pub regiments: Vec<Regiment>,
    /// Assigned division commander VIP ID (if any).
    pub commander_id: Option<String>,
}

impl View for Division {
    type V = DivisionModel;

    open spec fn view(&self) -> DivisionModel {
        DivisionModel {
            id: self.id@,
            name: self.name@,
            home_region: self.home_region@,
            regiments: self.regiments@.map_values(|r: Regiment| r@),
            commander_id: self.commander_id,
        }
    }
}

/// The units of a division, in order.
pub open spec fn division_units(d: DivisionModel) -> Seq<MilitaryUnit> {
    regiment_units(d.regiments)
}

/// A division with its dead units and then its empty regiments removed.
pub open spec fn clean_division(d: DivisionModel) -> DivisionModel {
    DivisionModel {
        regiments: d.regiments.map_values(|r: RegimentModel| clean_regiment(r)).filter(
            |r: RegimentModel| r.units.len() > 0,
        ),
        ..d
    }
}

impl Division {
    /// Creates a new empty division.
    pub fn new(id: String, name: String, home_region: String) -> (r: Self)
        ensures
            r@ == (DivisionModel { id: id@, name: name@, home_region: home_region@, regiments: Seq::empty(), commander_id: None }),
    {
        let r = Division { id, name, home_region, regiments: Vec::new(), commander_id: None };
        assert(r@.regiments =~= Seq::<RegimentModel>::empty());
        r
    }

    /// All units in this division, in order.
    pub fn all_units(&self) -> (r: Vec<&MilitaryUnit>)
        ensures
            deref_units(r@) == division_units(self@),
    {
        let ghost rs = self@.regiments;
        let mut r: Vec<&MilitaryUnit> = Vec::new();
        let mut i: usize = 0;
        while i < self.regiments.len()
            invariant
                i <= self.regiments@.len(),
                rs == self@.regiments,
                deref_units(r@) == regiment_units(rs.take(i as int)),
            decreases self.regiments@.len() - i,
        {
            let mut part = self.regiments[i].all_units();
            proof {
                assert(rs.take(i as int + 1).drop_last() =~= rs.take(i as int));
                assert(rs.take(i as int + 1).last() == self.regiments@[i as int]@);
            }
            let ghost before = r@;
            r.append(&mut part);
            assert(deref_units(r@) =~= deref_units(before) + self.regiments@[i as int]@.units);
            i = i + 1;
        }
        assert(rs.take(i as int) =~= rs);
        r
    }

    /// Total manpower across all regiments.
    pub fn total_manpower(&self) -> (r: i64)
        requires
            prefix_sums_fit(division_units(self@)),
        ensures
            r == manpower_sum(division_units(self@)),
    {
        let all = self.all_units();
        sum_manpower(&all)
    }

    /// Units at a specific location.
    pub fn units_at_location(&self, region_id: &str) -> (r: Vec<&MilitaryUnit>)
        ensures
            deref_units(r@) == division_units(self@).filter(|u: MilitaryUnit| stationed_in(u, region_id@)),
    {
        let all = self.all_units();
        filter_stationed_in(&all, region_id)
    }

    /// Units of a specific type.
    pub fn units_by_type(&self, unit_type: UnitType) -> (r: Vec<&MilitaryUnit>)
        ensures
            deref_units(r@) == division_units(self@).filter(|u: MilitaryUnit| u.unit_type == unit_type),
    {
        let all = self.all_units();
        filter_of_type(&all, unit_type)
    }

    /// Add a regiment to this division.
    pub fn add_regiment(&mut self, regiment: Regiment)
        ensures
            final(self)@ == (DivisionModel { regiments: old(self)@.regiments.push(regiment@), ..old(self)@ }),
    {
        self.regiments.push(regiment);
        assert(self@.regiments =~= old(self)@.regiments.push(regiment@));
    }

    /// Remove regiments without units.
    pub fn remove_empty_regiments(&mut self)
        ensures
            final(self)@ == (DivisionModel {
                regiments: old(self)@.regiments.filter(|r: RegimentModel| r.units.len() > 0),
                ..old(self)@
            }),
    {
        let ghost pred = |r: RegimentModel| r.units.len() > 0;
        let ghost orig = self@.regiments;
        let mut rest: Vec<Regiment> = Vec::new();
        std::mem::swap(&mut rest, &mut self.regiments);
        assert(self@.regiments =~= orig.take(0).filter(pred)) by {
            reveal(Seq::filter);
        }
        while rest.len() > 0
            invariant
                rest@.len() <= orig.len(),
                rest@.map_values(|r: Regiment| r@) == orig.skip(orig.len() - rest@.len()),
                self@.regiments == orig.take(orig.len() - rest@.len()).filter(pred),
                pred == (|r: RegimentModel| r.units.len() > 0),
                self.id == old(self).id,
                self.name == old(self).name,
                self.home_region == old(self).home_region,
                self.commander_id == old(self).commander_id,
            decreases rest@.len(),
        {
            let ghost k = orig.len() - rest@.len();
            let ghost rest_before = rest@;
            let reg = rest.remove(0);
            proof {
                assert(rest_before.map_values(|r: Regiment| r@)[0] == reg@);
                assert(reg@ == orig[k]);
                assert(orig.take(k + 1).drop_last() =~= orig.take(k));
                assert(orig.take(k + 1).last() == orig[k]);
                reveal(Seq::filter);
                assert forall|j: int| 0 <= j < rest@.len() implies #[trigger] rest@[j]@ == orig.skip(k + 1)[j] by {
                    assert(rest@[j] == rest_before[j + 1]);
                    assert(rest_before.map_values(|r: Regiment| r@)[j + 1] == orig.skip(k)[j + 1]);
                }
                assert(rest@.map_values(|r: Regiment| r@) =~= orig.skip(k + 1));
            }
            let ghost kept_before = self@.regiments;
            if reg.units.len() > 0 {
                self.regiments.push(reg);
                assert(self@.regiments =~= kept_before.push(orig[k]));
            }
            assert(self@.regiments == orig.take(k + 1).filter(pred));
        }
        assert(orig.take(orig.len() as int) =~= orig);
    }

    /// Removes dead units from every regiment, then empty regiments.
    fn cleanup(&mut self)
        ensures
            final(self)@ == clean_division(old(self)@),
    {
        let mut i: usize = 0;
        while i < self.regiments.len()
            invariant
                i <= self.regiments@.len(),
                self.regiments@.len() == old(self).regiments@.len(),
                forall|j: int| 0 <= j < i ==> #[trigger] self.regiments@[j]@ == clean_regiment(old(self).regiments@[j]@),
                forall|j: int| i <= j < self.regiments@.len() ==> #[trigger] self.regiments@[j] == old(self).regiments@[j],
                self.id == old(self).id,
                self.name == old(self).name,
                self.home_region == old(self).home_region,
                self.commander_id == old(self).commander_id,
            decreases self.regiments@.len() - i,
        {
            self.regiments[i].remove_dead_units();
            i = i + 1;
        }
        assert(self@.regiments =~= old(self)@.regiments.map_values(|r: RegimentModel| clean_regiment(r)));
        self.remove_empty_regiments();
    }
}

/// The units of a list of divisions, in order.
pub open spec fn divisions_units(ds: Seq<DivisionModel>) -> Seq<MilitaryUnit>
    decreases ds.len(),
{
    if ds.len() == 0 {
        Seq::empty()
    } else {
        divisions_units(ds.drop_last()) + division_units(ds.last())
    }
}

/// An army as a mathematical value.
#[verifier::ext_equal]
pub struct ArmyModel {
    /// Army ID.
    pub id: Seq<char>,
    /// Display name.
    pub name: Seq<char>,
    /// Home region.
    pub home_region: Seq<char>,
    /// The army's divisions, in order.
    pub divisions: Seq<DivisionModel>,
    /// Assigned commander, if any.
    pub commander_id: Option<String>,
}

/// An army: highest echelon of the order of battle. Owns divisions.
#[derive(Debug, Clone, PartialEq)]
pub struct Army {
    /// Unique army ID (e.g., "ARMY-001").
    pub id: String,
    /// Display name (e.g., "1st Army").
    pub name: String,
    /// Home region ID for this army's headquarters.
    pub home_region: String,
    /// Divisions belonging to this army.
    pub divisions: Vec<Division>,
    /// Assigned army commander VIP ID (if any).
    pub commander_id: Option<String>,
}

impl View for Army {
    type V = ArmyModel;

    open spec fn view(&self) -> ArmyModel {
        ArmyModel {
            id: self.id@,
            name: self.name@,
            home_region: self.home_region@,
            divisions: self.divisions@.map_values(|d: Division| d@),
            commander_id: self.commander_id,
        }
    }
}

/// The units of an army, in order.
pub open spec fn army_units(a: ArmyModel) -> Seq<MilitaryUnit> {
    divisions_units(a.divisions)
}

/// An army with its dead units, then empty regiments, then empty
/// divisions removed.
pub open spec fn clean_army(a: ArmyModel) -> ArmyModel {
    ArmyModel {
        divisions: a.divisions.map_values(|d: DivisionModel| clean_division(d)).filter(
            |d: DivisionModel| d.regiments.len() > 0,
        ),
        ..a
    }
}

impl Army {
    /// Creates a new empty army.
    pub fn new(id: String, name: String, home_region: String) -> (r: Self)
        ensures
            r@ == (ArmyModel { id: id@, name: name@, home_region: home_region@, divisions: Seq::empty(), commander_id: None }),
    {
        let r = Army { id, name, home_region, divisions: Vec::new(), commander_id: None };
        assert(r@.divisions =~= Seq::<DivisionModel>::empty());
        r
    }

    /// All units in this army, in order.
    pub fn all_units(&self) -> (r: Vec<&MilitaryUnit>)
        ensures
            deref_units(r@) == army_units(self@),
    {
        let ghost ds = self@.divisions;
        let mut r: Vec<&MilitaryUnit> = Vec::new();
        let mut i: usize = 0;
        while i < self.divisions.len()
            invariant
                i <= self.divisions@.len(),
                ds == self@.divisions,
                deref_units(r@) == divisions_units(ds.take(i as int)),
            decreases self.divisions@.len() - i,
        {
            let mut part = self.divisions[i].all_units();
            proof {
                assert(ds.take(i as int + 1).drop_last() =~= ds.take(i as int));
                assert(ds.take(i as int + 1).last() == self.divisions@[i as int]@);
            }
            let ghost before = r@;
            r.append(&mut part);
            assert(deref_units(r@) =~= deref_units(before) + division_units(self.divisions@[i as int]@));
            i = i + 1;
        }
        assert(ds.take(i as int) =~= ds);
        r
    }

    /// Total manpower across all divisions.
    pub fn total_manpower(&self) -> (r: i64)
        requires
            prefix_sums_fit(army_units(self@)),
        ensures
            r == manpower_sum(army_units(self@)),
    {
        let all = self.all_units();
        sum_manpower(&all)
    }

    /// Units at a specific location.
    pub fn units_at_location(&self, region_id: &str) -> (r: Vec<&MilitaryUnit>)
        ensures
            deref_units(r@) == army_units(self@).filter(|u: MilitaryUnit| stationed_in(u, region_id@)),
    {
        let all = self.all_units();
        filter_stationed_in(&all, region_id)
    }

    /// Units of a specific type.
    pub fn units_by_type(&self, unit_type: UnitType) -> (r: Vec<&MilitaryUnit>)
        ensures
            deref_units(r@) == army_units(self@).filter(|u: MilitaryUnit| u.unit_type == unit_type),
    {
        let all = self.all_units();
        filter_of_type(&all, unit_type)
    }

    /// Add a division to this army.
    pub fn add_division(&mut self, division: Division)
        ensures
            final(self)@ == (ArmyModel { divisions: old(self)@.divisions.push(division@), ..old(self)@ }),
    {
        self.divisions.push(division);
        assert(self@.divisions =~= old(self)@.divisions.push(division@));
    }

    /// Remove divisions without regiments.
    pub fn remove_empty_divisions(&mut self)
        ensures
            final(self)@ == (ArmyModel {
                divisions: old(self)@.divisions.filter(|d: DivisionModel| d.regiments.len() > 0),
                ..old(self)@
            }),
    {
        let ghost pred = |d: DivisionModel| d.regiments.len() > 0;
        let ghost orig = self@.divisions;
        let mut rest: Vec<Division> = Vec::new();
        std::mem::swap(&mut rest, &mut self.divisions);
        assert(self@.divisions =~= orig.take(0).filter(pred)) by {
            reveal(Seq::filter);
        }
        while rest.len() > 0
            invariant
                rest@.len() <= orig.len(),
                rest@.map_values(|d: Division| d@) == orig.skip(orig.len() - rest@.len()),
                self@.divisions == orig.take(orig.len() - rest@.len()).filter(pred),
                pred == (|d: DivisionModel| d.regiments.len() > 0),
                self.id == old(self).id,
                self.name == old(self).name,
                self.home_region == old(self).home_region,
                self.commander_id == old(self).commander_id,
            decreases rest@.len(),
        {
            let ghost k = orig.len() - rest@.len();
            let ghost rest_before = rest@;
            let div = rest.remove(0);
            proof {
                assert(rest_before.map_values(|d: Division| d@)[0] == div@);
                assert(div@ == orig[k]);
                assert(orig.take(k + 1).drop_last() =~= orig.take(k));
                assert(orig.take(k + 1).last() == orig[k]);
                reveal(Seq::filter);
                assert forall|j: int| 0 <= j < rest@.len() implies #[trigger] rest@[j]@ == orig.skip(k + 1)[j] by {
                    assert(rest@[j] == rest_before[j + 1]);
                    assert(rest_before.map_values(|d: Division| d@)[j + 1] == orig.skip(k)[j + 1]);
                }
                assert(rest@.map_values(|d: Division| d@) =~= orig.skip(k + 1));
            }
            let ghost kept_before = self@.divisions;
            if div.regiments.len() > 0 {
                self.divisions.push(div);
                assert(self@.divisions =~= kept_before.push(orig[k]));
            }
            assert(self@.divisions == orig.take(k + 1).filter(pred));
        }
        assert(orig.take(orig.len() as int) =~= orig);
    }

    /// Cleans every division, then removes empty divisions.
    fn cleanup(&mut self)
        ensures
            final(self)@ == clean_army(old(self)@),
    {
        let mut i: usize = 0;
        while i < self.divisions.len()
            invariant
                i <= self.divisions@.len(),
                self.divisions@.len() == old(self).divisions@.len(),
                forall|j: int| 0 <= j < i ==> #[trigger] self.divisions@[j]@ == clean_division(old(self).divisions@[j]@),
                forall|j: int| i <= j < self.divisions@.len() ==> #[trigger] self.divisions@[j] == old(self).divisions@[j],
                self.id == old(self).id,
                self.name == old(self).name,
                self.home_region == old(self).home_region,
                self.commander_id == old(self).commander_id,
            decreases self.divisions@.len() - i,
        {
            self.divisions[i].cleanup();
            i = i + 1;
        }
        assert(self@.divisions =~= old(self)@.divisions.map_values(|d: DivisionModel| clean_division(d)));
        self.remove_empty_divisions();
    }
}

/// The units of a list of armies, in order.
pub open spec fn armies_units(armies: Seq<ArmyModel>) -> Seq<MilitaryUnit>
    decreases armies.len(),
{
    if armies.len() == 0 {
        Seq::empty()
    } else {
        armies_units(armies.drop_last()) + army_units(armies.last())
    }
}

/// Number of units of type `t` in `units`.
pub open spec fn count_of_type(units: Seq<MilitaryUnit>, t: UnitType) -> nat
    decreases units.len(),
{
    if units.len() == 0 {
        0
    } else {
        count_of_type(units.drop_last(), t) + if units.last().unit_type == t { 1nat } else { 0nat }
    }
}

/// Index of the first unit at or after `i` whose ID is `id`.
pub open spec fn find_unit_from(units: Seq<MilitaryUnit>, id: Seq<char>, i: int) -> Option<int>
    decreases units.len() - i,
{
    if i < 0 || i >= units.len() {
        None
    } else if units[i].id@ == id {
        Some(i)
    } else {
        find_unit_from(units, id, i + 1)
    }
}

/// Whether `(a, d, r, u)` is the position of a unit: unit `u` of
/// regiment `r` of division `d` of army `a`.
pub open spec fn valid_position(armies: Seq<ArmyModel>, a: int, d: int, r: int, u: int) -> bool {
    &&& 0 <= a < armies.len()
    &&& 0 <= d < armies[a].divisions.len()
    &&& 0 <= r < armies[a].divisions[d].regiments.len()
    &&& 0 <= u < armies[a].divisions[d].regiments[r].units.len()
}

/// The unit at position `(a, d, r, u)`.
pub open spec fn unit_at(armies: Seq<ArmyModel>, a: int, d: int, r: int, u: int) -> MilitaryUnit {
    armies[a].divisions[d].regiments[r].units[u]
}

/// `armies` with the unit at position `(a, d, r, u)` replaced by `x`.
pub open spec fn with_unit_at(armies: Seq<ArmyModel>, a: int, d: int, r: int, u: int, x: MilitaryUnit) -> Seq<ArmyModel> {
    let army = armies[a];
    let div = army.divisions[d];
    let reg = div.regiments[r];
    let reg2 = RegimentModel { units: reg.units.update(u, x), ..reg };
    let div2 = DivisionModel { regiments: div.regiments.update(r, reg2), ..div };
    armies.update(a, ArmyModel { divisions: army.divisions.update(d, div2), ..army })
}

/// Whether position `(a2, d2, r2, u2)` comes before `(a, d, r, u)` in
/// hierarchy order.
pub open spec fn position_before(a2: int, d2: int, r2: int, u2: int, a: int, d: int, r: int, u: int) -> bool {
    a2 < a || (a2 == a && (d2 < d || (d2 == d && (r2 < r || (r2 == r && u2 < u)))))
}

/// Whether `(a, d, r, u)` is the position of the first unit, in hierarchy
/// order, whose ID is `id`.
pub open spec fn first_position_of(armies: Seq<ArmyModel>, id: Seq<char>, a: int, d: int, r: int, u: int) -> bool {
    &&& valid_position(armies, a, d, r, u)
    &&& unit_at(armies, a, d, r, u).id@ == id
    &&& forall|a2: int, d2: int, r2: int, u2: int|
        valid_position(armies, a2, d2, r2, u2) && position_before(a2, d2, r2, u2, a, d, r, u)
            ==> #[trigger] unit_at(armies, a2, d2, r2, u2).id@ != id
}

/// The top-level order of battle of a country.
#[derive(Debug, Clone, PartialEq)]
pub struct OrderOfBattle {
    /// Armies belonging to this country.
    pub armies: Vec<Army>,
}

impl View for OrderOfBattle {
    type V = Seq<ArmyModel>;

    open spec fn view(&self) -> Seq<ArmyModel> {
        self.armies@.map_values(|a: Army| a@)
    }
}

/// The armies of an order of battle with dead units and every emptied
/// echelon removed.
pub open spec fn clean_armies(armies: Seq<ArmyModel>) -> Seq<ArmyModel> {
    armies.map_values(|a: ArmyModel| clean_army(a)).filter(|a: ArmyModel| a.divisions.len() > 0)
}

impl Default for OrderOfBattle {
    fn default() -> (r: Self)
        ensures
            r@ == Seq::<ArmyModel>::empty(),
    {
        let r = OrderOfBattle { armies: Vec::new() };
        assert(r@ =~= Seq::<ArmyModel>::empty());
        r
    }
}

impl OrderOfBattle {
    /// All units of the order of battle, in hierarchy order.
    pub open spec fn units(self) -> Seq<MilitaryUnit> {
        armies_units(self@)
    }

    /// Creates a new empty order of battle.
    pub fn new() -> (r: Self)
        ensures
            r@ == Seq::<ArmyModel>::empty(),
    {
        OrderOfBattle::default()
    }

    /// Collects all units, in hierarchy order.
    pub fn collect_all_units(&self) -> (r: Vec<&MilitaryUnit>)
        ensures
            deref_units(r@) == self.units(),
    {
        let ghost armies = self@;
        let mut r: Vec<&MilitaryUnit> = Vec::new();
        let mut i: usize = 0;
        while i < self.armies.len()
            invariant
                i <= self.armies@.len(),
                armies == self@,
                deref_units(r@) == armies_units(armies.take(i as int)),
            decreases self.armies@.len() - i,
        {
            let mut part = self.armies[i].all_units();
            proof {
                assert(armies.take(i as int + 1).drop_last() =~= armies.take(i as int));
                assert(armies.take(i as int + 1).last() == self.armies@[i as int]@);
            }
            let ghost before = r@;
            r.append(&mut part);
            assert(deref_units(r@) =~= deref_units(before) + army_units(self.armies@[i as int]@));
            i = i + 1;
        }
        assert(armies.take(i as int) =~= armies);
        r
    }

    /// All units, in hierarchy order.
    pub fn all_units(&self) -> (r: Vec<&MilitaryUnit>)
        ensures
            deref_units(r@) == self.units(),
    {
        self.collect_all_units()
    }

    /// The units at a location (region ID), in hierarchy order.
    pub fn units_at_location(&self, region_id: &str) -> (r: Vec<&MilitaryUnit>)
        ensures
            deref_units(r@) == self.units().filter(|u: MilitaryUnit| stationed_in(u, region_id@)),
    {
        self.collect_units_at_location(region_id)
    }

    /// The units of a specific type, in hierarchy order.
    pub fn units_by_type(&self, unit_type: UnitType) -> (r: Vec<&MilitaryUnit>)
        ensures
            deref_units(r@) == self.units().filter(|u: MilitaryUnit| u.unit_type == unit_type),
    {
        self.collect_units_by_type(unit_type)
    }

    /// Total manpower across all armies.
    pub fn total_manpower(&self) -> (r: i64)
        requires
            prefix_sums_fit(self.units()),
        ensures
            r == manpower_sum(self.units()),
    {
        let all = self.collect_all_units();
        sum_manpower(&all)
    }

    /// Count of all units across all armies.
    pub fn unit_count(&self) -> (r: usize)
        ensures
            r == self.units().len(),
    {
        let all = self.collect_all_units();
        all.len()
    }

    /// Collects the units at a location (region ID).
    pub fn collect_units_at_location(&self, region_id: &str) -> (r: Vec<&MilitaryUnit>)
        ensures
            deref_units(r@) == self.units().filter(|u: MilitaryUnit| stationed_in(u, region_id@)),
    {
        let all = self.collect_all_units();
        filter_stationed_in(&all, region_id)
    }

    /// Collects the units of a specific type.
    pub fn collect_units_by_type(&self, unit_type: UnitType) -> (r: Vec<&MilitaryUnit>)
        ensures
            deref_units(r@) == self.units().filter(|u: MilitaryUnit| u.unit_type == unit_type),
    {
        let all = self.collect_all_units();
        filter_of_type(&all, unit_type)
    }

    /// Add an army to the order of battle.
    pub fn add_army(&mut self, army: Army)
        ensures
            final(self)@ == old(self)@.push(army@),
    {
        self.armies.push(army);
        assert(self@ =~= old(self)@.push(army@));
    }

    /// Remove armies without divisions.
    pub fn remove_empty_armies(&mut self)
        ensures
            final(self)@ == old(self)@.filter(|a: ArmyModel| a.divisions.len() > 0),
    {
        let ghost pred = |a: ArmyModel| a.divisions.len() > 0;
        let ghost orig = self@;
        let mut rest: Vec<Army> = Vec::new();
        std::mem::swap(&mut rest, &mut self.armies);
        assert(self@ =~= orig.take(0).filter(pred)) by {
            reveal(Seq::filter);
        }
        while rest.len() > 0
            invariant
                rest@.len() <= orig.len(),
                rest@.map_values(|a: Army| a@) == orig.skip(orig.len() - rest@.len()),
                self@ == orig.take(orig.len() - rest@.len()).filter(pred),
                pred == (|a: ArmyModel| a.divisions.len() > 0),
            decreases rest@.len(),
        {
            let ghost k = orig.len() - rest@.len();
            let ghost rest_before = rest@;
            let army = rest.remove(0);
            proof {
                assert(rest_before.map_values(|a: Army| a@)[0] == army@);
                assert(army@ == orig[k]);
                assert(orig.take(k + 1).drop_last() =~= orig.take(k));
                assert(orig.take(k + 1).last() == orig[k]);
                reveal(Seq::filter);
                assert forall|j: int| 0 <= j < rest@.len() implies #[trigger] rest@[j]@ == orig.skip(k + 1)[j] by {
                    assert(rest@[j] == rest_before[j + 1]);
                    assert(rest_before.map_values(|a: Army| a@)[j + 1] == orig.skip(k)[j + 1]);
                }
                assert(rest@.map_values(|a: Army| a@) =~= orig.skip(k + 1));
            }
            let ghost kept_before = self@;
            if army.divisions.len() > 0 {
                self.armies.push(army);
                assert(self@ =~= kept_before.push(orig[k]));
            }
            assert(self@ == orig.take(k + 1).filter(pred));
        }
        assert(orig.take(orig.len() as int) =~= orig);
    }

    /// Collects all unit IDs, in hierarchy order.
    pub fn all_unit_ids(&self) -> (r: Vec<String>)
        ensures
            r@.len() == self.units().len(),
            forall|i: int| 0 <= i < r@.len() ==> #[trigger] r@[i] == self.units()[i].id,
    {
        let all = self.collect_all_units();
        let ghost units = deref_units(all@);
        let mut r: Vec<String> = Vec::new();
        let mut i: usize = 0;
        while i < all.len()
            invariant
                i <= all@.len(),
                units == deref_units(all@),
                r@.len() == i,
                forall|j: int| 0 <= j < i ==> #[trigger] r@[j] == units[j].id,
            decreases all@.len() - i,
        {
            r.push(all[i].id.clone());
            i = i + 1;
        }
        r
    }

    fn unit_mut_at(&mut self, a: usize, d: usize, r: usize, u: usize) -> (m: &mut MilitaryUnit)
        requires
            valid_position(old(self)@, a as int, d as int, r as int, u as int),
        ensures
            *m == unit_at(old(self)@, a as int, d as int, r as int, u as int),
            final(self)@ =~~= with_unit_at(old(self)@, a as int, d as int, r as int, u as int, *final(m)),
    {
        &mut self.armies[a].divisions[d].regiments[r].units[u]
    }

    /// Finds the first unit (in hierarchy order) with the given ID, for
    /// modification: the order of battle afterwards is the one before with
    /// that unit replaced by its final value.
    pub fn find_unit_mut(&mut self, unit_id: &str) -> (found: Option<&mut MilitaryUnit>)
        ensures
            found is None ==> final(self)@ == old(self)@ && forall|a: int, d: int, r: int, u: int|
                valid_position(old(self)@, a, d, r, u) ==> #[trigger] unit_at(old(self)@, a, d, r, u).id@ != unit_id@,
            found matches Some(m) ==> exists|a: int, d: int, r: int, u: int|
                #[trigger] first_position_of(old(self)@, unit_id@, a, d, r, u)
                    && *m == unit_at(old(self)@, a, d, r, u)
                    && final(self)@ == with_unit_at(old(self)@, a, d, r, u, *final(m)),
    {
        let ghost armies = self@;
        let mut a: usize = 0;
        while a < self.armies.len()
            invariant
                *self == *old(self),
                armies == self@,
                a <= armies.len(),
                forall|a2: int, d2: int, r2: int, u2: int|
                    valid_position(armies, a2, d2, r2, u2) && a2 < a ==> #[trigger] unit_at(armies, a2, d2, r2, u2).id@ != unit_id@,
            decreases armies.len() - a,
        {
            let mut d: usize = 0;
            while d < self.armies[a].divisions.len()
                invariant
                    *self == *old(self),
                    armies == self@,
                    a < armies.len(),
                    d <= armies[a as int].divisions.len(),
                    forall|a2: int, d2: int, r2: int, u2: int|
                        valid_position(armies, a2, d2, r2, u2) && (a2 < a || (a2 == a && d2 < d))
                            ==> #[trigger] unit_at(armies, a2, d2, r2, u2).id@ != unit_id@,
                decreases armies[a as int].divisions.len() - d,
            {
                let mut r: usize = 0;
                while r < self.armies[a].divisions[d].regiments.len()
                    invariant
                        *self == *old(self),
                        armies == self@,
                        a < armies.len(),
                        d < armies[a as int].divisions.len(),
                        r <= armies[a as int].divisions[d as int].regiments.len(),
                        forall|a2: int, d2: int, r2: int, u2: int|
                            valid_position(armies, a2, d2, r2, u2) && (a2 < a || (a2 == a && (d2 < d || (d2 == d && r2 < r))))
                                ==> #[trigger] unit_at(armies, a2, d2, r2, u2).id@ != unit_id@,
                    decreases armies[a as int].divisions[d as int].regiments.len() - r,
                {
                    let mut u: usize = 0;
                    while u < self.armies[a].divisions[d].regiments[r].units.len()
                        invariant
                            *self == *old(self),
                            armies == self@,
                            a < armies.len(),
                            d < armies[a as int].divisions.len(),
                            r < armies[a as int].divisions[d as int].regiments.len(),
                            u <= armies[a as int].divisions[d as int].regiments[r as int].units.len(),
                            forall|a2: int, d2: int, r2: int, u2: int|
                                valid_position(armies, a2, d2, r2, u2) && position_before(a2, d2, r2, u2, a as int, d as int, r as int, u as int)
                                    ==> #[trigger] unit_at(armies, a2, d2, r2, u2).id@ != unit_id@,
                        decreases armies[a as int].divisions[d as int].regiments[r as int].units.len() - u,
                    {
                        assert(self.armies@[a as int].divisions@[d as int].regiments@[r as int].units@[u as int]
                            == unit_at(armies, a as int, d as int, r as int, u as int));
                        if str_eq(self.armies[a].divisions[d].regiments[r].units[u].id.as_str(), unit_id) {
                            let m = self.unit_mut_at(a, d, r, u);
                            proof {
                                assert(first_position_of(armies, unit_id@, a as int, d as int, r as int, u as int));
                            }
                            return Some(m);
                        }
                        u = u + 1;
                    }
                    r = r + 1;
                }
                d = d + 1;
            }
            a = a + 1;
        }
        None
    }

    /// Finds the first unit (in hierarchy order) with the given ID.
    pub fn find_unit(&self, unit_id: &str) -> (r: Option<&MilitaryUnit>)
        ensures
            match find_unit_from(self.units(), unit_id@, 0) {
                Some(k) => r matches Some(u) && *u == self.units()[k],
                None => r is None,
            },
    {
        let all = self.collect_all_units();
        let ghost units = deref_units(all@);
        let mut i: usize = 0;
        while i < all.len()
            invariant
                i <= all@.len(),
                units == deref_units(all@),
                units == self.units(),
                find_unit_from(units, unit_id@, 0) == find_unit_from(units, unit_id@, i as int),
            decreases all@.len() - i,
        {
            if str_eq(all[i].id.as_str(), unit_id) {
                assert(units[i as int] == *all@[i as int]);
                return Some(all[i]);
            }
            i = i + 1;
        }
        None
    }

    /// Counts the units of each type. A type is present in the result
    /// exactly when at least one unit has it.
    pub fn count_by_type(&self) -> (r: FxHashMap<UnitType, usize>)
        ensures
            forall|t: UnitType| #[trigger] r@.contains_key(t) <==> count_of_type(self.units(), t) > 0,
            forall|t: UnitType| r@.contains_key(t) ==> #[trigger] r@[t] == count_of_type(self.units(), t),
    {
        let all = self.collect_all_units();
        let ghost units = deref_units(all@);
        let mut counts: FxHashMap<UnitType, usize> = FxHashMap::default();
        let mut i: usize = 0;
        while i < all.len()
            invariant
                i <= all@.len(),
                units == deref_units(all@),
                forall|t: UnitType| #[trigger] counts@.contains_key(t) <==> count_of_type(units.take(i as int), t) > 0,
                forall|t: UnitType| counts@.contains_key(t) ==> #[trigger] counts@[t] == count_of_type(units.take(i as int), t),
                forall|t: UnitType| #[trigger] count_of_type(units.take(i as int), t) <= i,
            decreases all@.len() - i,
        {
            let t = all[i].unit_type;
            proof {
                assert(units.take(i as int + 1).drop_last() =~= units.take(i as int));
                assert(units.take(i as int + 1).last() == units[i as int]);
            }
            let current = match fx_get(&counts, t) {
                Some(c) => c,
                None => 0,
            };
            fx_insert(&mut counts, t, current + 1);
            i = i + 1;
            assert forall|u: UnitType| #[trigger] count_of_type(units.take(i as int), u) <= i by {
                assert(count_of_type(units.take(i as int - 1), u) <= i - 1);
            }
        }
        assert(units.take(i as int) =~= units);
        counts
    }

    /// Copies every unit into a flat list, in hierarchy order.
    pub fn flatten(&self) -> (r: Vec<MilitaryUnit>)
        ensures
            r@.len() == self.units().len(),
            forall|i: int| 0 <= i < r@.len() ==> #[trigger] same_unit(r@[i], self.units()[i]),
    {
        let all = self.collect_all_units();
        let ghost units = deref_units(all@);
        let mut r: Vec<MilitaryUnit> = Vec::new();
        let mut i: usize = 0;
        while i < all.len()
            invariant
                i <= all@.len(),
                units == deref_units(all@),
                r@.len() == i,
                forall|j: int| 0 <= j < i ==> #[trigger] same_unit(r@[j], units[j]),
            decreases all@.len() - i,
        {
            r.push(all[i].clone());
            i = i + 1;
        }
        r
    }

    /// Removes dead units, then empty regiments, empty divisions and empty
    /// armies. Called after combat resolution each turn.
    pub fn cleanup_dead(&mut self)
        ensures
            final(self)@ == clean_armies(old(self)@),
    {
        let mut i: usize = 0;
        while i < self.armies.len()
            invariant
                i <= self.armies@.len(),
                self.armies@.len() == old(self).armies@.len(),
                forall|j: int| 0 <= j < i ==> #[trigger] self.armies@[j]@ == clean_army(old(self).armies@[j]@),
                forall|j: int| i <= j < self.armies@.len() ==> #[trigger] self.armies@[j] == old(self).armies@[j],
            decreases self.armies@.len() - i,
        {
            self.armies[i].cleanup();
            i = i + 1;
        }
        assert(self@ =~= old(self)@.map_values(|a: ArmyModel| clean_army(a)));
        self.remove_empty_armies();
    }
}

/// The English ordinal suffix of `n` ("st", "nd", "rd" or "th").
pub open spec fn ordinal_suffix(n: nat) -> Seq<char> {
    if n % 10 == 1 && n % 100 != 11 {
        "st"@
    } else if n % 10 == 2 && n % 100 != 12 {
        "nd"@
    } else if n % 10 == 3 && n % 100 != 13 {
        "rd"@
    } else {
        "th"@
    }
}

/// `n` followed by its ordinal suffix ("1st", "2nd", "11th", ...).
pub open spec fn ordinal_text(n: nat) -> Seq<char> {
    decimal(n) + ordinal_suffix(n)
}

/// Returns the number with its ordinal suffix (1st, 2nd, 3rd, 4th, ...).
pub fn ordinal(n: usize) -> (r: String)
    ensures
        r@ == ordinal_text(n as nat),
{
    let mut s = String::new();
    push_decimal(&mut s, n as u64);
    let suffix = if n % 10 == 1 && n % 100 != 11 {
        "st"
    } else if n % 10 == 2 && n % 100 != 12 {
        "nd"
    } else if n % 10 == 3 && n % 100 != 13 {
        "rd"
    } else {
        "th"
    };
    s.append(suffix);
    s
}

/// Configuration for building an order of battle at world generation.
#[derive(Debug, Clone)]
pub struct OobGenerationConfig {
    /// Number of armies to create.
    pub army_count: usize,
    /// Number of divisions per army.
    pub divisions_per_army: usize,
    /// Number of regiments per division.
    pub regiments_per_division: usize,
    /// Units per regiment.
    pub units_per_regiment: usize,
    /// Manpower of each unit.
    pub base_unit_manpower: i64,
    /// Home regions for the armies (army `i` is based in region `i` modulo
    /// their number).
    pub home_regions: Vec<String>,
    /// Country name (for ID prefixes).
    pub country_name: String,
}

/// `-` followed by `n` padded to three digits.
pub open spec fn id_part(n: nat) -> Seq<char> {
    "-"@ + zero_padded(n, 3)
}

/// Home region of army `a`.
pub open spec fn army_home(cfg: OobGenerationConfig, a: int) -> Seq<char> {
    cfg.home_regions@[a % (cfg.home_regions@.len() as int)]@
}

/// Unit type given to the `k`-th unit of a regiment: infantry, artillery,
/// tanks, infantry, then again.
pub open spec fn generated_unit_type(k: nat) -> UnitType {
    if k % 4 == 1 {
        UnitType::Artillery
    } else if k % 4 == 2 {
        UnitType::Tanks
    } else {
        UnitType::Infantry
    }
}

/// Whether `u` is unit `k` of regiment `r` of division `d` of army `a`.
pub open spec fn generated_unit(u: MilitaryUnit, cfg: OobGenerationConfig, a: nat, d: nat, r: nat, k: nat) -> bool {
    &&& u.id@ == "UNIT-"@ + cfg.country_name@ + id_part(a + 1) + id_part(d + 1) + id_part(r + 1) + id_part(k + 1)
    &&& u.unit_type == generated_unit_type(k)
    &&& u.manpower == cfg.base_unit_manpower
    &&& u.manpower_origin@ == Map::<RuralClass, i64>::empty().insert(RuralClass::FreePeasant, cfg.base_unit_manpower)
    &&& u.home_region@ == army_home(cfg, a as int)
    &&& u.location@ == army_home(cfg, a as int)
}

/// Whether `m` is regiment `r` of division `d` of army `a`.
pub open spec fn generated_regiment(m: RegimentModel, cfg: OobGenerationConfig, a: nat, d: nat, r: nat) -> bool {
    &&& m.id == "REG-"@ + cfg.country_name@ + id_part(a + 1) + id_part(d + 1) + id_part(r + 1)
    &&& m.name == ordinal_text(r + 1) + " Regiment"@
    &&& m.home_region == army_home(cfg, a as int)
    &&& m.commander_id is None
    &&& m.units.len() == cfg.units_per_regiment
    &&& forall|k: int| 0 <= k < m.units.len() ==> #[trigger] generated_unit(m.units[k], cfg, a, d, r, k as nat)
}

/// Whether `m` is division `d` of army `a`.
pub open spec fn generated_division(m: DivisionModel, cfg: OobGenerationConfig, a: nat, d: nat) -> bool {
    &&& m.id == "DIV-"@ + cfg.country_name@ + id_part(a + 1) + id_part(d + 1)
    &&& m.name == ordinal_text(d + 1) + " Division"@
    &&& m.home_region == army_home(cfg, a as int)
    &&& m.commander_id is None
    &&& m.regiments.len() == cfg.regiments_per_division
    &&& forall|r: int| 0 <= r < m.regiments.len() ==> #[trigger] generated_regiment(m.regiments[r], cfg, a, d, r as nat)
}

/// Whether `m` is army `a`.
pub open spec fn generated_army(m: ArmyModel, cfg: OobGenerationConfig, a: nat) -> bool {
    &&& m.id == "ARMY-"@ + cfg.country_name@ + id_part(a + 1)
    &&& m.name == ordinal_text(a + 1) + " Army"@
    &&& m.home_region == army_home(cfg, a as int)
    &&& m.commander_id is None
    &&& m.divisions.len() == cfg.divisions_per_army
    &&& forall|d: int| 0 <= d < m.divisions.len() ==> #[trigger] generated_division(m.divisions[d], cfg, a, d as nat)
}

/// Appends `-` and `n` padded to three digits.
fn push_id_part(s: &mut String, n: usize)
    ensures
        final(s)@ == old(s)@ + id_part(n as nat),
{
    push_char(s, '-');
    push_zero_padded(s, n as u64, 3);
    proof {
        reveal_strlit("-");
    }
    assert(s@ =~= old(s)@ + id_part(n as nat));
}

/// Builds the unit `k` of regiment `r` of division `d` of army `a`.
fn generate_unit(config: &OobGenerationConfig, home: &String, a: usize, d: usize, r: usize, k: usize) -> (u: MilitaryUnit)
    requires
        a < usize::MAX,
        d < usize::MAX,
        r < usize::MAX,
        k < usize::MAX,
        config.home_regions@.len() > 0,
        home@ == army_home(*config, a as int),
    ensures
        generated_unit(u, *config, a as nat, d as nat, r as nat, k as nat),
{
    let mut id = String::from_str("UNIT-");
    id.append(config.country_name.as_str());
    push_id_part(&mut id, a + 1);
    push_id_part(&mut id, d + 1);
    push_id_part(&mut id, r + 1);
    push_id_part(&mut id, k + 1);
    let unit_type = match k % 4 {
        0 => UnitType::Infantry,
        1 => UnitType::Artillery,
        2 => UnitType::Tanks,
        _ => UnitType::Infantry,
    };
    let mut manpower_origin: FxHashMap<RuralClass, i64> = FxHashMap::default();
    fx_insert(&mut manpower_origin, RuralClass::FreePeasant, config.base_unit_manpower);
    let u = MilitaryUnit::new(id, unit_type, config.base_unit_manpower, manpower_origin, home.clone());
    assert(u.id@ =~= "UNIT-"@ + config.country_name@ + id_part((a + 1) as nat) + id_part((d + 1) as nat) + id_part((r + 1) as nat) + id_part((k + 1) as nat));
    u
}

/// Builds regiment `r` of division `d` of army `a`.
fn generate_regiment(config: &OobGenerationConfig, home: &String, a: usize, d: usize, r: usize) -> (reg: Regiment)
    requires
        a < usize::MAX,
        d < usize::MAX,
        r < usize::MAX,
        config.home_regions@.len() > 0,
        home@ == army_home(*config, a as int),
    ensures
        generated_regiment(reg@, *config, a as nat, d as nat, r as nat),
{
    let mut id = String::from_str("REG-");
    id.append(config.country_name.as_str());
    push_id_part(&mut id, a + 1);
    push_id_part(&mut id, d + 1);
    push_id_part(&mut id, r + 1);
    let mut name = ordinal(r + 1);
    name.append(" Regiment");
    let mut regiment = Regiment::new(id, name, home.clone());
    let mut k: usize = 0;
    while k < config.units_per_regiment
        invariant
            a < usize::MAX,
            d < usize::MAX,
            r < usize::MAX,
            config.home_regions@.len() > 0,
            home@ == army_home(*config, a as int),
            k <= config.units_per_regiment,
            regiment@.id == "REG-"@ + config.country_name@ + id_part((a + 1) as nat) + id_part((d + 1) as nat) + id_part((r + 1) as nat),
            regiment@.name == ordinal_text((r + 1) as nat) + " Regiment"@,
            regiment@.home_region == army_home(*config, a as int),
            regiment@.commander_id is None,
            regiment@.units.len() == k,
            forall|j: int| 0 <= j < k ==> #[trigger] generated_unit(regiment@.units[j], *config, a as nat, d as nat, r as nat, j as nat),
        decreases config.units_per_regiment - k,
    {
        let unit = generate_unit(config, home, a, d, r, k);
        regiment.add_unit(unit);
        k = k + 1;
    }
    regiment
}

/// Builds division `d` of army `a`.
fn generate_division(config: &OobGenerationConfig, home: &String, a: usize, d: usize) -> (div: Division)
    requires
        a < usize::MAX,
        d < usize::MAX,
        config.home_regions@.len() > 0,
        home@ == army_home(*config, a as int),
    ensures
        generated_division(div@, *config, a as nat, d as nat),
{
    let mut id = String::from_str("DIV-");
    id.append(config.country_name.as_str());
    push_id_part(&mut id, a + 1);
    push_id_part(&mut id, d + 1);
    let mut name = ordinal(d + 1);
    name.append(" Division");
    let mut division = Division::new(id, name, home.clone());
    let mut r: usize = 0;
    while r < config.regiments_per_division
        invariant
            a < usize::MAX,
            d < usize::MAX,
            config.home_regions@.len() > 0,
            home@ == army_home(*config, a as int),
            r <= config.regiments_per_division,
            division@.id == "DIV-"@ + config.country_name@ + id_part((a + 1) as nat) + id_part((d + 1) as nat),
            division@.name == ordinal_text((d + 1) as nat) + " Division"@,
            division@.home_region == army_home(*config, a as int),
            division@.commander_id is None,
            division@.regiments.len() == r,
            forall|j: int| 0 <= j < r ==> #[trigger] generated_regiment(division@.regiments[j], *config, a as nat, d as nat, j as nat),
        decreases config.regiments_per_division - r,
    {
        let regiment = generate_regiment(config, home, a, d, r);
        division.add_regiment(regiment);
        r = r + 1;
    }
    division
}

/// Builds army `a`.
fn generate_army(config: &OobGenerationConfig, a: usize) -> (army: Army)
    requires
        a < usize::MAX,
        config.home_regions@.len() > 0,
    ensures
        generated_army(army@, *config, a as nat),
{
    let home = config.home_regions[a % config.home_regions.len()].clone();
    let mut id = String::from_str("ARMY-");
    id.append(config.country_name.as_str());
    push_id_part(&mut id, a + 1);
    let mut name = ordinal(a + 1);
    name.append(" Army");
    let mut army = Army::new(id, name, home.clone());
    let mut d: usize = 0;
    while d < config.divisions_per_army
        invariant
            a < usize::MAX,
            config.home_regions@.len() > 0,
            home@ == army_home(*config, a as int),
            d <= config.divisions_per_army,
            army@.id == "ARMY-"@ + config.country_name@ + id_part((a + 1) as nat),
            army@.name == ordinal_text((a + 1) as nat) + " Army"@,
            army@.home_region == army_home(*config, a as int),
            army@.commander_id is None,
            army@.divisions.len() == d,
            forall|j: int| 0 <= j < d ==> #[trigger] generated_division(army@.divisions[j], *config, a as nat, j as nat),
        decreases config.divisions_per_army - d,
    {
        let division = generate_division(config, &home, a, d);
        army.add_division(division);
        d = d + 1;
    }
    army
}

/// Generates an order of battle from a generation config: `army_count`
/// armies of `divisions_per_army` divisions of `regiments_per_division`
/// regiments of `units_per_regiment` units each, named and numbered in
/// order, every unit with `base_unit_manpower` free peasants.
pub fn generate_oob(config: &OobGenerationConfig) -> (oob: OrderOfBattle)
    requires
        config.army_count > 0 ==> config.home_regions@.len() > 0,
    ensures
        oob@.len() == config.army_count,
        forall|a: int| 0 <= a < config.army_count ==> #[trigger] generated_army(oob@[a], *config, a as nat),
{
    let mut oob = OrderOfBattle::new();
    let mut a: usize = 0;
    while a < config.army_count
        invariant
            config.army_count > 0 ==> config.home_regions@.len() > 0,
            a <= config.army_count,
            oob@.len() == a,
            forall|j: int| 0 <= j < a ==> #[trigger] generated_army(oob@[j], *config, j as nat),
        decreases config.army_count - a,
    {
        let army = generate_army(config, a);
        oob.add_army(army);
        a = a + 1;
    }
    oob
}

proof fn lemma_regiment_units_drop_empty(rs: Seq<RegimentModel>)
    ensures
        regiment_units(rs.filter(|r: RegimentModel| r.units.len() > 0)) == regiment_units(rs),
    decreases rs.len(),
{
    reveal(Seq::filter);
    if rs.len() > 0 {
        lemma_regiment_units_drop_empty(rs.drop_last());
        let f = rs.drop_last().filter(|r: RegimentModel| r.units.len() > 0);
        if rs.last().units.len() > 0 {
            assert(f.push(rs.last()).drop_last() =~= f);
        } else {
            assert(rs.last().units =~= Seq::<MilitaryUnit>::empty());
            assert(regiment_units(rs.drop_last()) + rs.last().units =~= regiment_units(rs.drop_last()));
        }
    }
}

proof fn lemma_regiment_units_clean(rs: Seq<RegimentModel>)
    ensures
        regiment_units(rs.map_values(|r: RegimentModel| clean_regiment(r)))
            == regiment_units(rs).filter(|u: MilitaryUnit| alive(u)),
    decreases rs.len(),
{
    broadcast use Seq::filter_distributes_over_add;
    let m = rs.map_values(|r: RegimentModel| clean_regiment(r));
    if rs.len() == 0 {
        reveal(Seq::filter);
        assert(regiment_units(rs).filter(|u: MilitaryUnit| alive(u)) =~= Seq::<MilitaryUnit>::empty());
    } else {
        lemma_regiment_units_clean(rs.drop_last());
        assert(m.drop_last() =~= rs.drop_last().map_values(|r: RegimentModel| clean_regiment(r)));
        assert(m.last() == clean_regiment(rs.last()));
    }
}

/// Cleaning a division keeps exactly its living units, in order.
pub proof fn lemma_clean_division_units(d: DivisionModel)
    ensures
        division_units(clean_division(d)) == division_units(d).filter(|u: MilitaryUnit| alive(u)),
{
    lemma_regiment_units_drop_empty(d.regiments.map_values(|r: RegimentModel| clean_regiment(r)));
    lemma_regiment_units_clean(d.regiments);
}

proof fn lemma_divisions_units_drop_empty(ds: Seq<DivisionModel>)
    ensures
        divisions_units(ds.filter(|d: DivisionModel| d.regiments.len() > 0)) == divisions_units(ds),
    decreases ds.len(),
{
    reveal(Seq::filter);
    if ds.len() > 0 {
        lemma_divisions_units_drop_empty(ds.drop_last());
        let f = ds.drop_last().filter(|d: DivisionModel| d.regiments.len() > 0);
        if ds.last().regiments.len() > 0 {
            assert(f.push(ds.last()).drop_last() =~= f);
        } else {
            assert(division_units(ds.last()) =~= Seq::<MilitaryUnit>::empty());
            assert(divisions_units(ds.drop_last()) + division_units(ds.last()) =~= divisions_units(ds.drop_last()));
        }
    }
}

proof fn lemma_divisions_units_clean(ds: Seq<DivisionModel>)
    ensures
        divisions_units(ds.map_values(|d: DivisionModel| clean_division(d)))
            == divisions_units(ds).filter(|u: MilitaryUnit| alive(u)),
    decreases ds.len(),
{
    broadcast use Seq::filter_distributes_over_add;
    let m = ds.map_values(|d: DivisionModel| clean_division(d));
    if ds.len() == 0 {
        reveal(Seq::filter);
        assert(divisions_units(ds).filter(|u: MilitaryUnit| alive(u)) =~= Seq::<MilitaryUnit>::empty());
    } else {
        lemma_divisions_units_clean(ds.drop_last());
        assert(m.drop_last() =~= ds.drop_last().map_values(|d: DivisionModel| clean_division(d)));
        assert(m.last() == clean_division(ds.last()));
        lemma_clean_division_units(ds.last());
    }
}

/// Cleaning an army keeps exactly its living units, in order.
pub proof fn lemma_clean_army_units(a: ArmyModel)
    ensures
        army_units(clean_army(a)) == army_units(a).filter(|u: MilitaryUnit| alive(u)),
{
    lemma_divisions_units_drop_empty(a.divisions.map_values(|d: DivisionModel| clean_division(d)));
    lemma_divisions_units_clean(a.divisions);
}

proof fn lemma_armies_units_drop_empty(armies: Seq<ArmyModel>)
    ensures
        armies_units(armies.filter(|a: ArmyModel| a.divisions.len() > 0)) == armies_units(armies),
    decreases armies.len(),
{
    reveal(Seq::filter);
    if armies.len() > 0 {
        lemma_armies_units_drop_empty(armies.drop_last());
        let f = armies.drop_last().filter(|a: ArmyModel| a.divisions.len() > 0);
        if armies.last().divisions.len() > 0 {
            assert(f.push(armies.last()).drop_last() =~= f);
        } else {
            assert(army_units(armies.last()) =~= Seq::<MilitaryUnit>::empty());
            assert(armies_units(armies.drop_last()) + army_units(armies.last()) =~= armies_units(armies.drop_last()));
        }
    }
}

proof fn lemma_armies_units_clean(armies: Seq<ArmyModel>)
    ensures
        armies_units(armies.map_values(|a: ArmyModel| clean_army(a)))
            == armies_units(armies).filter(|u: MilitaryUnit| alive(u)),
    decreases armies.len(),
{
    broadcast use Seq::filter_distributes_over_add;
    let m = armies.map_values(|a: ArmyModel| clean_army(a));
    if armies.len() == 0 {
        reveal(Seq::filter);
        assert(armies_units(armies).filter(|u: MilitaryUnit| alive(u)) =~= Seq::<MilitaryUnit>::empty());
    } else {
        lemma_armies_units_clean(armies.drop_last());
        assert(m.drop_last() =~= armies.drop_last().map_values(|a: ArmyModel| clean_army(a)));
        assert(m.last() == clean_army(armies.last()));
        lemma_clean_army_units(armies.last());
    }
}

/// Cleaning up the dead keeps exactly the living units, in hierarchy
/// order, and leaves no army, division or regiment empty.
pub proof fn law_cleanup_keeps_exactly_the_living(armies: Seq<ArmyModel>)
    ensures
        armies_units(clean_armies(armies)) == armies_units(armies).filter(|u: MilitaryUnit| alive(u)),
        forall|i: int| 0 <= i < armies_units(clean_armies(armies)).len() ==> alive(
            #[trigger] armies_units(clean_armies(armies))[i],
        ),
        forall|i: int| 0 <= i < clean_armies(armies).len() ==> (#[trigger] clean_armies(armies)[i]).divisions.len() > 0,
        forall|i: int, j: int|
            0 <= i < clean_armies(armies).len() && 0 <= j < clean_armies(armies)[i].divisions.len()
                ==> (#[trigger] clean_armies(armies)[i].divisions[j]).regiments.len() > 0,
        forall|i: int, j: int, k: int|
            0 <= i < clean_armies(armies).len() && 0 <= j < clean_armies(armies)[i].divisions.len()
                && 0 <= k < clean_armies(armies)[i].divisions[j].regiments.len()
                ==> (#[trigger] clean_armies(armies)[i].divisions[j].regiments[k]).units.len() > 0,
{
    broadcast use vstd::seq_lib::group_filter_ensures;
    let m = armies.map_values(|a: ArmyModel| clean_army(a));
    let c = clean_armies(armies);
    lemma_armies_units_drop_empty(m);
    lemma_armies_units_clean(armies);
    assert forall|i: int| 0 <= i < armies_units(c).len() implies alive(#[trigger] armies_units(c)[i]) by {
        assert(armies_units(c) == armies_units(armies).filter(|u: MilitaryUnit| alive(u)));
    }
    assert forall|i: int| 0 <= i < c.len() implies (#[trigger] c[i]).divisions.len() > 0 by {
        assert((|a: ArmyModel| a.divisions.len() > 0)(c[i]));
    }
    assert forall|i: int, j: int|
        0 <= i < c.len() && 0 <= j < c[i].divisions.len() implies (#[trigger] c[i].divisions[j]).regiments.len() > 0 by {
        assert(c.contains(c[i]));
        m.lemma_filter_contains_rev(|a: ArmyModel| a.divisions.len() > 0, c[i]);
        let x = choose|x: int| 0 <= x < m.len() && m[x] == c[i];
        let dm = armies[x].divisions.map_values(|d: DivisionModel| clean_division(d));
        assert(c[i].divisions == dm.filter(|d: DivisionModel| d.regiments.len() > 0));
        assert((|d: DivisionModel| d.regiments.len() > 0)(c[i].divisions[j]));
    }
    assert forall|i: int, j: int, k: int|
        0 <= i < c.len() && 0 <= j < c[i].divisions.len() && 0 <= k < c[i].divisions[j].regiments.len()
            implies (#[trigger] c[i].divisions[j].regiments[k]).units.len() > 0 by {
        assert(c.contains(c[i]));
        m.lemma_filter_contains_rev(|a: ArmyModel| a.divisions.len() > 0, c[i]);
        let x = choose|x: int| 0 <= x < m.len() && m[x] == c[i];
        let dm = armies[x].divisions.map_values(|d: DivisionModel| clean_division(d));
        let df = dm.filter(|d: DivisionModel| d.regiments.len() > 0);
        assert(c[i].divisions == df);
        assert(df.contains(df[j]));
        dm.lemma_filter_contains_rev(|d: DivisionModel| d.regiments.len() > 0, df[j]);
        let y = choose|y: int| 0 <= y < dm.len() && dm[y] == df[j];
        let rm = armies[x].divisions[y].regiments.map_values(|r: RegimentModel| clean_regiment(r));
        let rf = rm.filter(|r: RegimentModel| r.units.len() > 0);
        assert(df[j].regiments == rf);
        assert((|r: RegimentModel| r.units.len() > 0)(rf[k]));
    }
}

/// Whether every unit of `units` has manpower `base`.
pub open spec fn uniform_manpower(units: Seq<MilitaryUnit>, base: i64) -> bool {
    forall|j: int| 0 <= j < units.len() ==> (#[trigger] units[j]).manpower == base
}

proof fn lemma_uniform_append(a: Seq<MilitaryUnit>, b: Seq<MilitaryUnit>, base: i64)
    requires
        uniform_manpower(a, base),
        uniform_manpower(b, base),
    ensures
        uniform_manpower(a + b, base),
{
    assert forall|j: int| 0 <= j < (a + b).len() implies (#[trigger] (a + b)[j]).manpower == base by {
        if j < a.len() {
            assert((a + b)[j] == a[j]);
        } else {
            assert((a + b)[j] == b[j - a.len()]);
        }
    }
}

proof fn lemma_uniform_sum(units: Seq<MilitaryUnit>, base: i64)
    requires
        uniform_manpower(units, base),
    ensures
        manpower_sum(units) == units.len() * base,
    decreases units.len(),
{
    if units.len() > 0 {
        assert(uniform_manpower(units.drop_last(), base)) by {
            assert forall|j: int| 0 <= j < units.drop_last().len() implies (#[trigger] units.drop_last()[j]).manpower == base by {
                assert(units.drop_last()[j] == units[j]);
            }
        }
        lemma_uniform_sum(units.drop_last(), base);
        assert(units.last() == units[units.len() - 1]);
        let n = units.len() as int;
        assert((n - 1) * base + base == n * base) by (nonlinear_arith);
    }
}

proof fn lemma_regiments_uniform(rs: Seq<RegimentModel>, n: nat, base: i64)
    requires
        forall|i: int| 0 <= i < rs.len() ==> (#[trigger] rs[i]).units.len() == n && uniform_manpower(rs[i].units, base),
    ensures
        regiment_units(rs).len() == rs.len() * n,
        uniform_manpower(regiment_units(rs), base),
    decreases rs.len(),
{
    if rs.len() > 0 {
        lemma_regiments_uniform(rs.drop_last(), n, base);
        assert(rs.last() == rs[rs.len() - 1]);
        lemma_uniform_append(regiment_units(rs.drop_last()), rs.last().units, base);
        let k = rs.len() as int;
        assert((k - 1) * n + n == k * n) by (nonlinear_arith);
    }
}

proof fn lemma_divisions_uniform(ds: Seq<DivisionModel>, n: nat, base: i64)
    requires
        forall|i: int| 0 <= i < ds.len() ==> division_units(#[trigger] ds[i]).len() == n && uniform_manpower(division_units(ds[i]), base),
    ensures
        divisions_units(ds).len() == ds.len() * n,
        uniform_manpower(divisions_units(ds), base),
    decreases ds.len(),
{
    if ds.len() > 0 {
        lemma_divisions_uniform(ds.drop_last(), n, base);
        assert(ds.last() == ds[ds.len() - 1]);
        lemma_uniform_append(divisions_units(ds.drop_last()), division_units(ds.last()), base);
        let k = ds.len() as int;
        assert((k - 1) * n + n == k * n) by (nonlinear_arith);
    }
}

proof fn lemma_armies_uniform(armies: Seq<ArmyModel>, n: nat, base: i64)
    requires
        forall|i: int| 0 <= i < armies.len() ==> army_units(#[trigger] armies[i]).len() == n && uniform_manpower(army_units(armies[i]), base),
    ensures
        armies_units(armies).len() == armies.len() * n,
        uniform_manpower(armies_units(armies), base),
    decreases armies.len(),
{
    if armies.len() > 0 {
        lemma_armies_uniform(armies.drop_last(), n, base);
        assert(armies.last() == armies[armies.len() - 1]);
        lemma_uniform_append(armies_units(armies.drop_last()), army_units(armies.last()), base);
        let k = armies.len() as int;
        assert((k - 1) * n + n == k * n) by (nonlinear_arith);
    }
}

/// A generated order of battle holds `army_count × divisions_per_army ×
/// regiments_per_division × units_per_regiment` units, each with the base
/// manpower, so its total manpower is that count times the base manpower.
pub proof fn law_generated_oob_size(armies: Seq<ArmyModel>, cfg: OobGenerationConfig)
    requires
        armies.len() == cfg.army_count,
        forall|a: int| 0 <= a < cfg.army_count ==> #[trigger] generated_army(armies[a], cfg, a as nat),
    ensures
        armies_units(armies).len() == cfg.army_count * cfg.divisions_per_army * cfg.regiments_per_division * cfg.units_per_regiment,
        uniform_manpower(armies_units(armies), cfg.base_unit_manpower),
        manpower_sum(armies_units(armies)) == armies_units(armies).len() * cfg.base_unit_manpower,
{
    let base = cfg.base_unit_manpower;
    let nu = cfg.units_per_regiment as nat;
    let nr = cfg.regiments_per_division as nat;
    let nd = cfg.divisions_per_army as nat;
    assert forall|a: int| 0 <= a < armies.len() implies army_units(#[trigger] armies[a]).len() == nd * (nr * nu)
        && uniform_manpower(army_units(armies[a]), base) by {
        assert(generated_army(armies[a], cfg, a as nat));
        let ds = armies[a].divisions;
        assert forall|d: int| 0 <= d < ds.len() implies division_units(#[trigger] ds[d]).len() == nr * nu
            && uniform_manpower(division_units(ds[d]), base) by {
            assert(generated_division(ds[d], cfg, a as nat, d as nat));
            let rs = ds[d].regiments;
            assert forall|r: int| 0 <= r < rs.len() implies (#[trigger] rs[r]).units.len() == nu
                && uniform_manpower(rs[r].units, base) by {
                assert(generated_regiment(rs[r], cfg, a as nat, d as nat, r as nat));
                assert forall|k: int| 0 <= k < rs[r].units.len() implies (#[trigger] rs[r].units[k]).manpower == base by {
                    assert(generated_unit(rs[r].units[k], cfg, a as nat, d as nat, r as nat, k as nat));
                }
            }
            lemma_regiments_uniform(rs, nu, base);
        }
        lemma_divisions_uniform(ds, nr * nu, base);
    }
    lemma_armies_uniform(armies, nd * (nr * nu), base);
    let na = cfg.army_count as int;
    assert(na * (nd * (nr * nu)) == na * nd * nr * nu) by (nonlinear_arith);
    lemma_uniform_sum(armies_units(armies), base);
}

/// `u`, with tanks replaced by infantry.
pub open spec fn tanks_as_infantry(u: MilitaryUnit) -> MilitaryUnit {
    if u.unit_type == UnitType::Tanks {
        MilitaryUnit { unit_type: UnitType::Infantry, ..u }
    } else {
        u
    }
}

/// A regiment whose tank units have become infantry.
pub open spec fn regiment_without_tanks(r: RegimentModel) -> RegimentModel {
    RegimentModel { units: r.units.map_values(|u: MilitaryUnit| tanks_as_infantry(u)), ..r }
}

/// A division whose tank units have become infantry.
pub open spec fn division_without_tanks(d: DivisionModel) -> DivisionModel {
    DivisionModel { regiments: d.regiments.map_values(|r: RegimentModel| regiment_without_tanks(r)), ..d }
}

/// An army whose tank units have become infantry.
pub open spec fn army_without_tanks(a: ArmyModel) -> ArmyModel {
    ArmyModel { divisions: a.divisions.map_values(|d: DivisionModel| division_without_tanks(d)), ..a }
}

impl Regiment {
    fn replace_tanks_with_infantry(&mut self)
        ensures
            final(self)@ == regiment_without_tanks(old(self)@),
    {
        let mut i: usize = 0;
        while i < self.units.len()
            invariant
                i <= self.units@.len(),
                self.units@.len() == old(self).units@.len(),
                forall|j: int| 0 <= j < i ==> #[trigger] self.units@[j] == tanks_as_infantry(old(self).units@[j]),
                forall|j: int| i <= j < self.units@.len() ==> #[trigger] self.units@[j] == old(self).units@[j],
                self.id == old(self).id,
                self.name == old(self).name,
                self.home_region == old(self).home_region,
                self.commander_id == old(self).commander_id,
            decreases self.units@.len() - i,
        {
            if self.units[i].unit_type == UnitType::Tanks {
                self.units[i].unit_type = UnitType::Infantry;
            }
            i = i + 1;
        }
        assert(self@.units =~= old(self)@.units.map_values(|u: MilitaryUnit| tanks_as_infantry(u)));
    }
}

impl Division {
    fn replace_tanks_with_infantry(&mut self)
        ensures
            final(self)@ == division_without_tanks(old(self)@),
    {
        let mut i: usize = 0;
        while i < self.regiments.len()
            invariant
                i <= self.regiments@.len(),
                self.regiments@.len() == old(self).regiments@.len(),
                forall|j: int| 0 <= j < i ==> #[trigger] self.regiments@[j]@ == regiment_without_tanks(old(self).regiments@[j]@),
                forall|j: int| i <= j < self.regiments@.len() ==> #[trigger] self.regiments@[j] == old(self).regiments@[j],
                self.id == old(self).id,
                self.name == old(self).name,
                self.home_region == old(self).home_region,
                self.commander_id == old(self).commander_id,
            decreases self.regiments@.len() - i,
        {
            self.regiments[i].replace_tanks_with_infantry();
            i = i + 1;
        }
        assert(self@.regiments =~= old(self)@.regiments.map_values(|r: RegimentModel| regiment_without_tanks(r)));
    }
}

impl Army {
    fn replace_tanks_with_infantry(&mut self)
        ensures
            final(self)@ == army_without_tanks(old(self)@),
    {
        let mut i: usize = 0;
        while i < self.divisions.len()
            invariant
                i <= self.divisions@.len(),
                self.divisions@.len() == old(self).divisions@.len(),
                forall|j: int| 0 <= j < i ==> #[trigger] self.divisions@[j]@ == division_without_tanks(old(self).divisions@[j]@),
                forall|j: int| i <= j < self.divisions@.len() ==> #[trigger] self.divisions@[j] == old(self).divisions@[j],
                self.id == old(self).id,
                self.name == old(self).name,
                self.home_region == old(self).home_region,
                self.commander_id == old(self).commander_id,
            decreases self.divisions@.len() - i,
        {
            self.divisions[i].replace_tanks_with_infantry();
            i = i + 1;
        }
        assert(self@.divisions =~= old(self)@.divisions.map_values(|d: DivisionModel| division_without_tanks(d)));
    }
}

impl OrderOfBattle {
    /// Turns every tank unit into infantry, for a country too poor to
    /// field tanks; the structure and every other unit are left unchanged.
    pub fn replace_tanks_with_infantry(&mut self)
        ensures
            final(self)@ == old(self)@.map_values(|a: ArmyModel| army_without_tanks(a)),
    {
        let mut i: usize = 0;
        while i < self.armies.len()
            invariant
                i <= self.armies@.len(),
                self.armies@.len() == old(self).armies@.len(),
                forall|j: int| 0 <= j < i ==> #[trigger] self.armies@[j]@ == army_without_tanks(old(self).armies@[j]@),
                forall|j: int| i <= j < self.armies@.len() ==> #[trigger] self.armies@[j] == old(self).armies@[j],
            decreases self.armies@.len() - i,
        {
            self.armies[i].replace_tanks_with_infantry();
            i = i + 1;
        }
        assert(self@ =~= old(self)@.map_values(|a: ArmyModel| army_without_tanks(a)));
    }
}

} // verus!
