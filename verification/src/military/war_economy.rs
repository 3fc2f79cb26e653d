//! War economy: production decrees that switch civilian factories to
//! military production, the registry of military conversion methods, and
//! conscription levels.
use vstd::prelude::*;
use crate::economy::{Commodity, Sector};
use crate::geography::RuralClass;
use crate::text::{str_eq, to_lowercase, unicode_lowercase, ascii_lowercase, all_ascii};
use crate::economy::Commodity as C;
use crate::military::oob::{
    Army, ArmyModel, Division, DivisionModel, OrderOfBattle, Regiment, RegimentModel, armies_units, army_units,
    division_units, divisions_units, regiment_units,
};
use crate::military::units::{MilitaryUnit, UnitType, fx_get, fx_insert};
use crate::text::{push_decimal, decimal};
use rustc_hash::FxHashMap;

verus! {

/// Mobilization level of a country's military.
#[derive(Debug, Clone, Copy, PartialEq, Eq, Hash, Structural)]
pub enum ConscriptionLevel {
    /// No active draft. Peacetime standing army only.
    Peacetime,
    /// Selective draft: a configured fraction of eligible population.
    Selective,
    /// Universal conscription: all eligible adults are subject to draft.
    UniversalDraft,
    /// Total mobilization: maximum extraction, severe economic penalties.
    TotalMobilization,
}

impl Default for ConscriptionLevel {
    fn default() -> (r: Self)
        ensures
            r == ConscriptionLevel::Peacetime,
    {
        ConscriptionLevel::Peacetime
    }
}

/// A state decree forcing the factories of a sector to switch to military
/// production. `M` is the representation of production methods: the
/// decree keeps the method it replaced, so it can be restored, and never
/// inspects it.
#[derive(Debug, Clone, PartialEq)]
pub struct ProductionDecree<M> {
    /// Sector targeted by the decree.
    pub target_sector: Sector,
    /// The military production method ID applied.
    pub military_method_id: String,
    /// The method in use before the decree, restored when it is lifted.
    pub original_method: M,
    /// Turn the decree was enacted.
    pub enacted_turn: u32,
    /// Optional expiry turn. `None` = indefinite until manually lifted.
    pub expiry_turn: Option<u32>,
    /// Building IDs affected by this decree.
    pub affected_building_ids: Vec<String>,
}

impl<M> ProductionDecree<M> {
    /// Whether the decree has expired by `turn`.
    pub open spec fn expired_at(&self, turn: int) -> bool {
        match self.expiry_turn {
            Some(expiry) => turn >= expiry,
            None => false,
        }
    }

    /// Whether the decree names the building `id`.
    pub open spec fn affects(&self, id: Seq<char>) -> bool {
        exists|j: int| 0 <= j < self.affected_building_ids@.len() && #[trigger] self.affected_building_ids@[j]@ == id
    }

    /// Returns true if the decree has expired by the given turn.
    pub fn is_expired(&self, current_turn: u32) -> (r: bool)
        ensures
            r == self.expired_at(current_turn as int),
    {
        match self.expiry_turn {
            Some(expiry) => current_turn >= expiry,
            None => false,
        }
    }

    /// Whether the decree names the building `id`.
    fn affects_building(&self, id: &str) -> (r: bool)
        ensures
            r == self.affects(id@),
    {
        let mut j: usize = 0;
        while j < self.affected_building_ids.len()
            invariant
                j <= self.affected_building_ids@.len(),
                forall|k: int| 0 <= k < j ==> #[trigger] self.affected_building_ids@[k]@ != id@,
            decreases self.affected_building_ids@.len() - j,
        {
            if str_eq(self.affected_building_ids[j].as_str(), id) {
                return true;
            }
            j = j + 1;
        }
        false
    }
}

/// A building, as far as production decrees read it: its identity,
/// sector, workforce and active production method.
#[derive(Debug, Clone, PartialEq)]
pub struct Building<M> {
    /// Building ID.
    pub id: String,
    /// Sector of the building.
    pub sector: Sector,
    /// Number of workers currently employed.
    pub current_employment: u64,
    /// Production method currently in use.
    pub active_method: M,
}

/// Whether a production decree for `sector` takes over building `b`: it
/// belongs to the sector and is operating (employs workers).
pub open spec fn decree_selects<M>(b: Building<M>, sector: Sector) -> bool {
    b.sector == sector && b.current_employment > 0
}

/// The index of the first building at or after `k` that a decree for
/// `sector` takes over.
pub open spec fn first_selected_from<M>(buildings: Seq<Building<M>>, sector: Sector, k: int) -> Option<int>
    decreases buildings.len() - k,
{
    if k < 0 || k >= buildings.len() {
        None
    } else if decree_selects(buildings[k], sector) {
        Some(k)
    } else {
        first_selected_from(buildings, sector, k + 1)
    }
}

proof fn lemma_first_selected_bounds<M>(buildings: Seq<Building<M>>, sector: Sector, k: int)
    requires
        0 <= k,
    ensures
        first_selected_from(buildings, sector, k) matches Some(i) ==> k <= i < buildings.len() && decree_selects(
            buildings[i],
            sector,
        ),
        first_selected_from(buildings, sector, k) is None ==> forall|j: int|
            k <= j < buildings.len() ==> !decree_selects(#[trigger] buildings[j], sector),
    decreases buildings.len() - k,
{
    if k < buildings.len() {
        lemma_first_selected_bounds(buildings, sector, k + 1);
    }
}

/// The IDs of the buildings a decree for `sector` takes over, in order.
pub open spec fn selected_ids<M>(buildings: Seq<Building<M>>, sector: Sector) -> Seq<Seq<char>>
    decreases buildings.len(),
{
    if buildings.len() == 0 {
        Seq::empty()
    } else {
        let rest = selected_ids(buildings.drop_last(), sector);
        if decree_selects(buildings.last(), sector) {
            rest.push(buildings.last().id@)
        } else {
            rest
        }
    }
}

/// Enacts a production decree over the operating buildings of
/// `target_sector`: their IDs are recorded, the method of the first of
/// them is kept as the original to restore, and every building whose ID
/// was recorded switches to a copy of `military_method` (the military
/// method with any retooling penalty already applied). Returns `None`, and
/// changes nothing, when no building of the sector is operating.
pub fn apply_production_decree<M: Clone>(
    buildings: &mut [Building<M>],
    target_sector: Sector,
    military_method: &M,
    military_method_id: &str,
    enacted_turn: u32,
    expiry_turn: Option<u32>,
) -> (r: Option<ProductionDecree<M>>)
    ensures
        r is None <==> first_selected_from(old(buildings)@, target_sector, 0) is None,
        r is None ==> final(buildings)@ == old(buildings)@,
        r matches Some(d) ==> {
            let f = first_selected_from(old(buildings)@, target_sector, 0)->0;
            &&& d.target_sector == target_sector
            &&& d.military_method_id@ == military_method_id@
            &&& d.enacted_turn == enacted_turn
            &&& d.expiry_turn == expiry_turn
            &&& d.affected_building_ids@.map_values(|s: String| s@) == selected_ids(old(buildings)@, target_sector)
            &&& cloned(old(buildings)@[f].active_method, d.original_method)
            &&& final(buildings)@.len() == old(buildings)@.len()
            &&& forall|i: int| 0 <= i < old(buildings)@.len() ==> {
                let b = #[trigger] final(buildings)@[i];
                let a = old(buildings)@[i];
                &&& b.id == a.id
                &&& b.sector == a.sector
                &&& b.current_employment == a.current_employment
                &&& d.affects(a.id@) ==> cloned(*military_method, b.active_method)
                &&& !d.affects(a.id@) ==> b.active_method == a.active_method
            }
        },
{
    proof {
        lemma_first_selected_bounds(buildings@, target_sector, 0);
    }
    let mut affected_ids: Vec<String> = Vec::new();
    let mut first: Option<usize> = None;
    let mut i: usize = 0;
    while i < buildings.len()
        invariant
            i <= buildings@.len(),
            buildings@ == old(buildings)@,
            affected_ids@.map_values(|s: String| s@) == selected_ids(buildings@.take(i as int), target_sector),
            first is None ==> first_selected_from(buildings@, target_sector, 0) == first_selected_from(
                buildings@,
                target_sector,
                i as int,
            ),
            first matches Some(f) ==> first_selected_from(buildings@, target_sector, 0) == Some(f as int) && f < i,
            first is None <==> affected_ids@.len() == 0,
        decreases buildings@.len() - i,
    {
        proof {
            assert(buildings@.take(i as int + 1).drop_last() =~= buildings@.take(i as int));
            assert(buildings@.take(i as int + 1).last() == buildings@[i as int]);
        }
        if buildings[i].sector == target_sector && buildings[i].current_employment > 0 {
            affected_ids.push(buildings[i].id.clone());
            if first.is_none() {
                first = Some(i);
            }
        }
        i = i + 1;
        assert(affected_ids@.map_values(|s: String| s@) =~= selected_ids(buildings@.take(i as int), target_sector));
    }
    assert(buildings@.take(i as int) =~= buildings@);
    match first {
        None => None,
        Some(f) => {
            let original_method = buildings[f].active_method.clone();
            let decree = ProductionDecree {
                target_sector,
                military_method_id: String::from_str(military_method_id),
                original_method,
                enacted_turn,
                expiry_turn,
                affected_building_ids: affected_ids,
            };
            let ghost before = buildings@;
            let mut k: usize = 0;
            while k < buildings.len()
                invariant
                    k <= buildings@.len(),
                    buildings@.len() == before.len(),
                    forall|j: int| 0 <= j < before.len() ==> {
                        let b = #[trigger] buildings@[j];
                        let a = before[j];
                        &&& b.id == a.id
                        &&& b.sector == a.sector
                        &&& b.current_employment == a.current_employment
                        &&& (j < k && decree.affects(a.id@)) ==> cloned(*military_method, b.active_method)
                        &&& !(j < k && decree.affects(a.id@)) ==> b.active_method == a.active_method
                    },
                decreases buildings@.len() - k,
            {
                if decree.affects_building(buildings[k].id.as_str()) {
                    buildings[k].active_method = military_method.clone();
                }
                k = k + 1;
            }
            Some(decree)
        },
    }
}

/// Lifts a production decree: every building it affected gets a copy of
/// the decree's original method back.
pub fn lift_production_decree<M: Clone>(buildings: &mut [Building<M>], decree: &ProductionDecree<M>)
    ensures
        final(buildings)@.len() == old(buildings)@.len(),
        forall|i: int| 0 <= i < old(buildings)@.len() ==> {
            let b = #[trigger] final(buildings)@[i];
            let a = old(buildings)@[i];
            &&& b.id == a.id
            &&& b.sector == a.sector
            &&& b.current_employment == a.current_employment
            &&& decree.affects(a.id@) ==> cloned(decree.original_method, b.active_method)
            &&& !decree.affects(a.id@) ==> b.active_method == a.active_method
        },
{
    let mut i: usize = 0;
    while i < buildings.len()
        invariant
            i <= buildings@.len(),
            buildings@.len() == old(buildings)@.len(),
            forall|k: int| 0 <= k < old(buildings)@.len() ==> {
                let b = #[trigger] buildings@[k];
                let a = old(buildings)@[k];
                &&& b.id == a.id
                &&& b.sector == a.sector
                &&& b.current_employment == a.current_employment
                &&& (k < i && decree.affects(a.id@)) ==> cloned(decree.original_method, b.active_method)
                &&& !(k < i && decree.affects(a.id@)) ==> b.active_method == a.active_method
            },
        decreases buildings@.len() - i,
    {
        if decree.affects_building(buildings[i].id.as_str()) {
            buildings[i].active_method = decree.original_method.clone();
        }
        i = i + 1;
    }
}

/// Lifting a decree right after enacting it restores every building: each
/// keeps its ID, sector and workforce, and runs the same method as before;
/// a building the decree did not take over is left exactly as it was. This
/// holds when the buildings the decree took over all used the same method
/// (it restores the method of the first of them).
pub proof fn law_lift_undoes_apply(
    before: Seq<Building<ProductionMethod>>,
    during: Seq<Building<ProductionMethod>>,
    after: Seq<Building<ProductionMethod>>,
    d: ProductionDecree<ProductionMethod>,
    military_method: ProductionMethod,
)
    requires
        first_selected_from(before, d.target_sector, 0) matches Some(f) && cloned(before[f].active_method, d.original_method),
        forall|i: int|
            0 <= i < before.len() && #[trigger] d.affects(before[i].id@) ==> same_method(
                before[i].active_method,
                before[first_selected_from(before, d.target_sector, 0)->0].active_method,
            ),
        during.len() == before.len(),
        forall|i: int| 0 <= i < before.len() ==> {
            let b = #[trigger] during[i];
            let a = before[i];
            &&& b.id == a.id
            &&& b.sector == a.sector
            &&& b.current_employment == a.current_employment
            &&& d.affects(a.id@) ==> cloned(military_method, b.active_method)
            &&& !d.affects(a.id@) ==> b.active_method == a.active_method
        },
        after.len() == during.len(),
        forall|i: int| 0 <= i < during.len() ==> {
            let b = #[trigger] after[i];
            let a = during[i];
            &&& b.id == a.id
            &&& b.sector == a.sector
            &&& b.current_employment == a.current_employment
            &&& d.affects(a.id@) ==> cloned(d.original_method, b.active_method)
            &&& !d.affects(a.id@) ==> b.active_method == a.active_method
        },
    ensures
        after.len() == before.len(),
        forall|i: int| 0 <= i < before.len() ==> {
            let b = #[trigger] after[i];
            let a = before[i];
            &&& b.id == a.id
            &&& b.sector == a.sector
            &&& b.current_employment == a.current_employment
            &&& same_method(b.active_method, a.active_method)
        },
        forall|i: int| 0 <= i < before.len() && !d.affects(before[i].id@) ==> #[trigger] after[i] == before[i],
{
    let f = first_selected_from(before, d.target_sector, 0)->0;
    assert(same_method(d.original_method, before[f].active_method));
    assert forall|i: int| 0 <= i < before.len() implies {
        let b = #[trigger] after[i];
        let a = before[i];
        &&& b.id == a.id
        &&& b.sector == a.sector
        &&& b.current_employment == a.current_employment
        &&& same_method(b.active_method, a.active_method)
    } by {
        let a = before[i];
        let m = during[i];
        let b = after[i];
        assert(m.id == a.id);
        if d.affects(a.id@) {
            assert(cloned(d.original_method, b.active_method));
            assert(same_method(b.active_method, d.original_method));
            assert(same_method(a.active_method, before[f].active_method));
        }
    }
    assert forall|i: int| 0 <= i < before.len() && !d.affects(before[i].id@) implies #[trigger] after[i] == before[i] by {
        assert(during[i].id == before[i].id);
    }
}

/// Index of the first decree at or after `k` that has expired by `turn`
/// and affects the building `id`.
pub open spec fn first_expired_affecting_from<M>(
    decrees: Seq<ProductionDecree<M>>,
    id: Seq<char>,
    turn: int,
    k: int,
) -> Option<int>
    decreases decrees.len() - k,
{
    if k < 0 || k >= decrees.len() {
        None
    } else if decrees[k].expired_at(turn) && decrees[k].affects(id) {
        Some(k)
    } else {
        first_expired_affecting_from(decrees, id, turn, k + 1)
    }
}

/// Removes the decrees that have expired by `current_turn` and restores
/// the methods they replaced. A building named by several expired decrees
/// ends up with the original method of the earliest of them; a building
/// named by none keeps its method.
pub fn process_expired_decrees<M: Clone>(
    buildings: &mut [Building<M>],
    active_decrees: &mut Vec<ProductionDecree<M>>,
    current_turn: u32,
)
    ensures
        final(active_decrees)@ == old(active_decrees)@.filter(|d: ProductionDecree<M>| !d.expired_at(current_turn as int)),
        final(buildings)@.len() == old(buildings)@.len(),
        forall|i: int| 0 <= i < old(buildings)@.len() ==> {
            let b = #[trigger] final(buildings)@[i];
            let a = old(buildings)@[i];
            &&& b.id == a.id
            &&& b.sector == a.sector
            &&& b.current_employment == a.current_employment
            &&& match first_expired_affecting_from(old(active_decrees)@, a.id@, current_turn as int, 0) {
                Some(e) => cloned(old(active_decrees)@[e].original_method, b.active_method),
                None => b.active_method == a.active_method,
            }
        },
{
    let ghost orig = active_decrees@;
    let ghost pred = |d: ProductionDecree<M>| !d.expired_at(current_turn as int);
    let mut k: usize = active_decrees.len();
    assert(active_decrees@ =~= orig.take(k as int) + orig.skip(k as int).filter(pred)) by {
        reveal(Seq::filter);
        assert(orig.skip(k as int) =~= Seq::<ProductionDecree<M>>::empty());
    }
    while k > 0
        invariant
            k <= orig.len(),
            pred == (|d: ProductionDecree<M>| !d.expired_at(current_turn as int)),
            active_decrees@ == orig.take(k as int) + orig.skip(k as int).filter(pred),
            buildings@.len() == old(buildings)@.len(),
            forall|i: int| 0 <= i < old(buildings)@.len() ==> {
                let b = #[trigger] buildings@[i];
                let a = old(buildings)@[i];
                &&& b.id == a.id
                &&& b.sector == a.sector
                &&& b.current_employment == a.current_employment
                &&& match first_expired_affecting_from(orig, a.id@, current_turn as int, k as int) {
                    Some(e) => cloned(orig[e].original_method, b.active_method),
                    None => b.active_method == a.active_method,
                }
            },
        decreases k,
    {
        let j = k - 1;
        assert(active_decrees@[j as int] == orig[j as int]);
        proof {
            orig.skip(k as int).lemma_filter_prepend(orig[j as int], pred);
            assert(orig.skip(j as int) =~= seq![orig[j as int]] + orig.skip(k as int));
        }
        if active_decrees[j].is_expired(current_turn) {
            let decree = active_decrees.remove(j);
            let ghost before = buildings@;
            lift_production_decree(buildings, &decree);
            assert(active_decrees@ =~= orig.take(j as int) + orig.skip(j as int).filter(pred));
        } else {
            assert(active_decrees@ =~= orig.take(j as int) + orig.skip(j as int).filter(pred));
        }
        k = j;
    }
    assert(orig.take(0) + orig.skip(0).filter(pred) =~= orig.filter(pred));
}

/// A production method of the conversion registry. Every ratio and
/// efficiency in the registry is a whole percentage and every quantity a
/// whole number of units per turn, so they are held exactly as integers.
#[derive(Debug, PartialEq)]
pub struct ProductionMethod {
    /// Technology year of the method.
    pub year: u32,
    /// Share of expert workers, in percent.
    pub experts_percent: u32,
    /// Share of skilled workers, in percent.
    pub skilled_percent: u32,
    /// Share of basic workers, in percent.
    pub basic_percent: u32,
    /// Efficiency, in percent.
    pub efficiency_percent: u32,
    /// Physical inputs per turn, by commodity.
    pub inputs: Vec<(Commodity, u32)>,
    /// Physical outputs per turn, by commodity.
    pub outputs: Vec<(Commodity, u32)>,
}

/// The quantity listed for `c` in `list` (the first entry for it), if any.
pub open spec fn listed_quantity(list: Seq<(Commodity, u32)>, c: Commodity) -> Option<u32>
    decreases list.len(),
{
    if list.len() == 0 {
        None
    } else if list[0].0 == c {
        Some(list[0].1)
    } else {
        listed_quantity(list.drop_first(), c)
    }
}

fn quantity_in(list: &Vec<(Commodity, u32)>, c: Commodity) -> (r: Option<u32>)
    ensures
        r == listed_quantity(list@, c),
{
    let mut i: usize = 0;
    assert(list@.skip(0) =~= list@);
    while i < list.len()
        invariant
            i <= list@.len(),
            listed_quantity(list@, c) == listed_quantity(list@.skip(i as int), c),
        decreases list@.len() - i,
    {
        assert(list@.skip(i as int).drop_first() =~= list@.skip(i as int + 1));
        if list[i].0 == c {
            return Some(list[i].1);
        }
        i = i + 1;
    }
    None
}

/// Whether two production methods are the same method: equal fields and
/// equal lists of inputs and outputs.
pub open spec fn same_method(a: ProductionMethod, b: ProductionMethod) -> bool {
    &&& a.year == b.year
    &&& a.experts_percent == b.experts_percent
    &&& a.skilled_percent == b.skilled_percent
    &&& a.basic_percent == b.basic_percent
    &&& a.efficiency_percent == b.efficiency_percent
    &&& a.inputs@ == b.inputs@
    &&& a.outputs@ == b.outputs@
}

fn copy_quantities(list: &Vec<(Commodity, u32)>) -> (r: Vec<(Commodity, u32)>)
    ensures
        r@ == list@,
{
    let mut r: Vec<(Commodity, u32)> = Vec::new();
    let mut i: usize = 0;
    while i < list.len()
        invariant
            i <= list@.len(),
            r@ == list@.take(i as int),
        decreases list@.len() - i,
    {
        r.push(list[i]);
        i = i + 1;
        assert(r@ =~= list@.take(i as int));
    }
    assert(list@.take(i as int) =~= list@);
    r
}

impl Clone for ProductionMethod {
    /// A copy of the method: the same fields, inputs and outputs.
    fn clone(&self) -> (r: Self)
        ensures
            same_method(r, *self),
    {
        ProductionMethod {
            year: self.year,
            experts_percent: self.experts_percent,
            skilled_percent: self.skilled_percent,
            basic_percent: self.basic_percent,
            efficiency_percent: self.efficiency_percent,
            inputs: copy_quantities(&self.inputs),
            outputs: copy_quantities(&self.outputs),
        }
    }
}

impl ProductionMethod {
    /// The quantity of `c` the method consumes per turn, if it uses it.
    pub fn input_quantity(&self, c: Commodity) -> (r: Option<u32>)
        ensures
            r == listed_quantity(self.inputs@, c),
    {
        quantity_in(&self.inputs, c)
    }

    /// The quantity of `c` the method produces per turn, if it makes it.
    pub fn output_quantity(&self, c: Commodity) -> (r: Option<u32>)
        ensures
            r == listed_quantity(self.outputs@, c),
    {
        quantity_in(&self.outputs, c)
    }
}

/// An entry of the conversion registry as a mathematical value.
#[verifier::ext_equal]
pub struct ConversionEntry {
    /// Method ID.
    pub method_id: Seq<char>,
    /// Civilian sector converted.
    pub target_sector: Sector,
    /// Technology year.
    pub year: u32,
    /// Expert, skilled and basic worker shares, in percent.
    pub worker_percents: (u32, u32, u32),
    /// Efficiency, in percent.
    pub efficiency_percent: u32,
    /// Inputs per turn.
    pub inputs: Seq<(Commodity, u32)>,
    /// Outputs per turn.
    pub outputs: Seq<(Commodity, u32)>,
    /// Description of the conversion.
    pub description: Seq<char>,
}

/// A military conversion method: maps a civilian sector to a military
/// production method that a production decree can apply. Each conversion
/// demands physical inputs distinct from the civilian method it replaces.
#[derive(Debug, Clone)]
pub struct MilitaryConversion {
    /// The method ID (used as `military_method_id` in a decree).
    pub method_id: &'static str,
    /// The civilian sector this conversion targets.
    pub target_sector: Sector,
    /// The military production method to swap in.
    pub method: ProductionMethod,
    /// Human-readable description of the conversion.
    pub description: &'static str,
}

impl View for MilitaryConversion {
    type V = ConversionEntry;

    open spec fn view(&self) -> ConversionEntry {
        ConversionEntry {
            method_id: self.method_id@,
            target_sector: self.target_sector,
            year: self.method.year,
            worker_percents: (self.method.experts_percent, self.method.skilled_percent, self.method.basic_percent),
            efficiency_percent: self.method.efficiency_percent,
            inputs: self.method.inputs@,
            outputs: self.method.outputs@,
            description: self.description@,
        }
    }
}

/// The conversion registry, in order.
pub open spec fn conversion_registry() -> Seq<ConversionEntry> {
    seq![
        ConversionEntry {
            method_id: "military_truck_conversion"@,
            target_sector: Sector::HeavyIndustry,
            year: 1916,
            worker_percents: (20, 35, 45),
            efficiency_percent: 80,
            inputs: seq![(C::Steel, 25), (C::Fuels, 12), (C::MechanicalComponents, 8), (C::Plastics, 5)],
            outputs: seq![(C::Trucks, 8)],
            description: "Converts heavy industry to military truck production. Requires plastics and mechanical components not needed for steel production."@,
        },
        ConversionEntry {
            method_id: "light_tank_conversion"@,
            target_sector: Sector::HeavyIndustry,
            year: 1935,
            worker_percents: (22, 38, 40),
            efficiency_percent: 70,
            inputs: seq![(C::Steel, 35), (C::Aluminum, 10), (C::Fuels, 15), (C::MechanicalComponents, 12)],
            outputs: seq![(C::LightTanks, 3)],
            description: "Converts heavy industry to light tank production. Demands aluminum and heavy mechanical components."@,
        },
        ConversionEntry {
            method_id: "artillery_conversion"@,
            target_sector: Sector::HeavyIndustry,
            year: 1916,
            worker_percents: (20, 35, 45),
            efficiency_percent: 80,
            inputs: seq![(C::Steel, 30), (C::Fuels, 10), (C::MechanicalComponents, 8)],
            outputs: seq![(C::TowedArtillery, 4)],
            description: "Converts heavy industry to towed artillery production. High steel demand."@,
        },
        ConversionEntry {
            method_id: "ammunition_surge_production"@,
            target_sector: Sector::HeavyIndustry,
            year: 1916,
            worker_percents: (18, 32, 50),
            efficiency_percent: 90,
            inputs: seq![(C::Steel, 20), (C::Chemicals, 25), (C::Fuels, 8)],
            outputs: seq![(C::Ammunition, 40)],
            description: "Surge ammunition production. Demands massive chemical inputs (explosives) not needed for civilian steel."@,
        },
        ConversionEntry {
            method_id: "gunpowder_conversion"@,
            target_sector: Sector::HeavyIndustry,
            year: 1880,
            worker_percents: (15, 30, 55),
            efficiency_percent: 80,
            inputs: seq![(C::Chemicals, 30), (C::Sulfur, 15), (C::Energy, 10)],
            outputs: seq![(C::Gunpowder, 20)],
            description: "Converts chemical/heavy industry to gunpowder production. Requires sulfur and heavy chemical inputs."@,
        },
        ConversionEntry {
            method_id: "military_uniform_conversion"@,
            target_sector: Sector::LightIndustry,
            year: 1880,
            worker_percents: (10, 25, 65),
            efficiency_percent: 80,
            inputs: seq![(C::Fibers, 20), (C::IndustrialFiber, 5), (C::Steel, 2), (C::Energy, 5)],
            outputs: seq![(C::Clothing, 15)],
            description: "Converts textile factories to military uniform production. Adds industrial fiber and steel inputs for webbing, buttons, buckles."@,
        },
        ConversionEntry {
            method_id: "support_equipment_conversion"@,
            target_sector: Sector::LightIndustry,
            year: 1916,
            worker_percents: (15, 30, 55),
            efficiency_percent: 70,
            inputs: seq![(C::Fibers, 10), (C::Steel, 8), (C::IndustrialFiber, 8), (C::Energy, 5)],
            outputs: seq![(C::SupportEquipment, 6)],
            description: "Converts light industry to support equipment (webbing, packs, entrenching tools). Steel and industrial fiber heavy."@,
        },
    ]
}

fn method(
    year: u32,
    experts_percent: u32,
    skilled_percent: u32,
    basic_percent: u32,
    efficiency_percent: u32,
    inputs: Vec<(Commodity, u32)>,
    outputs: Vec<(Commodity, u32)>,
) -> (r: ProductionMethod)
    ensures
        r == (ProductionMethod { year, experts_percent, skilled_percent, basic_percent, efficiency_percent, inputs, outputs }),
{
    ProductionMethod { year, experts_percent, skilled_percent, basic_percent, efficiency_percent, inputs, outputs }
}

/// Returns all available military conversion methods, in registry order.
pub fn military_conversion_methods() -> (r: Vec<MilitaryConversion>)
    ensures
        r@.map_values(|c: MilitaryConversion| c@) == conversion_registry(),
{
    let r = vec![
        MilitaryConversion {
            method_id: "military_truck_conversion",
            target_sector: Sector::HeavyIndustry,
            method: method(1916, 20, 35, 45, 80,
                vec![(C::Steel, 25), (C::Fuels, 12), (C::MechanicalComponents, 8), (C::Plastics, 5)],
                vec![(C::Trucks, 8)]),
            description: "Converts heavy industry to military truck production. Requires plastics and mechanical components not needed for steel production.",
        },
        MilitaryConversion {
            method_id: "light_tank_conversion",
            target_sector: Sector::HeavyIndustry,
            method: method(1935, 22, 38, 40, 70,
                vec![(C::Steel, 35), (C::Aluminum, 10), (C::Fuels, 15), (C::MechanicalComponents, 12)],
                vec![(C::LightTanks, 3)]),
            description: "Converts heavy industry to light tank production. Demands aluminum and heavy mechanical components.",
        },
        MilitaryConversion {
            method_id: "artillery_conversion",
            target_sector: Sector::HeavyIndustry,
            method: method(1916, 20, 35, 45, 80,
                vec![(C::Steel, 30), (C::Fuels, 10), (C::MechanicalComponents, 8)],
                vec![(C::TowedArtillery, 4)]),
            description: "Converts heavy industry to towed artillery production. High steel demand.",
        },
        MilitaryConversion {
            method_id: "ammunition_surge_production",
            target_sector: Sector::HeavyIndustry,
            method: method(1916, 18, 32, 50, 90,
                vec![(C::Steel, 20), (C::Chemicals, 25), (C::Fuels, 8)],
                vec![(C::Ammunition, 40)]),
            description: "Surge ammunition production. Demands massive chemical inputs (explosives) not needed for civilian steel.",
        },
        MilitaryConversion {
            method_id: "gunpowder_conversion",
            target_sector: Sector::HeavyIndustry,
            method: method(1880, 15, 30, 55, 80,
                vec![(C::Chemicals, 30), (C::Sulfur, 15), (C::Energy, 10)],
                vec![(C::Gunpowder, 20)]),
            description: "Converts chemical/heavy industry to gunpowder production. Requires sulfur and heavy chemical inputs.",
        },
        MilitaryConversion {
            method_id: "military_uniform_conversion",
            target_sector: Sector::LightIndustry,
            method: method(1880, 10, 25, 65, 80,
                vec![(C::Fibers, 20), (C::IndustrialFiber, 5), (C::Steel, 2), (C::Energy, 5)],
                vec![(C::Clothing, 15)]),
            description: "Converts textile factories to military uniform production. Adds industrial fiber and steel inputs for webbing, buttons, buckles.",
        },
        MilitaryConversion {
            method_id: "support_equipment_conversion",
            target_sector: Sector::LightIndustry,
            method: method(1916, 15, 30, 55, 70,
                vec![(C::Fibers, 10), (C::Steel, 8), (C::IndustrialFiber, 8), (C::Energy, 5)],
                vec![(C::SupportEquipment, 6)]),
            description: "Converts light industry to support equipment (webbing, packs, entrenching tools). Steel and industrial fiber heavy.",
        },
    ];
    assert(r@.map_values(|c: MilitaryConversion| c@) =~~= conversion_registry());
    r
}

/// Index of the first registry entry at or after `k` with ID `id`.
pub open spec fn find_conversion_from(registry: Seq<ConversionEntry>, id: Seq<char>, k: int) -> Option<int>
    decreases registry.len() - k,
{
    if k < 0 || k >= registry.len() {
        None
    } else if registry[k].method_id == id {
        Some(k)
    } else {
        find_conversion_from(registry, id, k + 1)
    }
}

/// Looks up a military conversion method by its ID.
pub fn find_military_conversion(method_id: &str) -> (r: Option<MilitaryConversion>)
    ensures
        match find_conversion_from(conversion_registry(), method_id@, 0) {
            Some(k) => r matches Some(c) && c@ == conversion_registry()[k],
            None => r is None,
        },
{
    let mut all = military_conversion_methods();
    let ghost reg = conversion_registry();
    let mut i: usize = 0;
    while i < all.len()
        invariant
            i <= all@.len(),
            reg == conversion_registry(),
            all@.map_values(|c: MilitaryConversion| c@) == reg,
            find_conversion_from(reg, method_id@, 0) == find_conversion_from(reg, method_id@, i as int),
        decreases all@.len() - i,
    {
        assert(all@[i as int]@ == reg[i as int]);
        if str_eq(all[i].method_id, method_id) {
            let c = all.remove(i);
            return Some(c);
        }
        i = i + 1;
    }
    None
}

/// Returns the military conversions available for a sector, in registry
/// order.
pub fn conversions_for_sector(sector: Sector) -> (r: Vec<MilitaryConversion>)
    ensures
        r@.map_values(|c: MilitaryConversion| c@) == conversion_registry().filter(|e: ConversionEntry| e.target_sector == sector),
{
    let mut rest = military_conversion_methods();
    let ghost orig = conversion_registry();
    let ghost pred = |e: ConversionEntry| e.target_sector == sector;
    let mut r: Vec<MilitaryConversion> = Vec::new();
    assert(r@.map_values(|c: MilitaryConversion| c@) =~= orig.take(0).filter(pred)) by {
        reveal(Seq::filter);
    }
    assert(orig.skip(0) =~= orig);
    while rest.len() > 0
        invariant
            rest@.len() <= orig.len(),
            rest@.map_values(|c: MilitaryConversion| c@) == orig.skip(orig.len() - rest@.len()),
            r@.map_values(|c: MilitaryConversion| c@) == orig.take(orig.len() - rest@.len()).filter(pred),
            pred == (|e: ConversionEntry| e.target_sector == sector),
        decreases rest@.len(),
    {
        let ghost k = orig.len() - rest@.len();
        let ghost rest_before = rest@;
        let c = rest.remove(0);
        proof {
            assert(rest_before.map_values(|c: MilitaryConversion| c@)[0] == c@);
            assert(c@ == orig[k]);
            assert(orig.take(k + 1).drop_last() =~= orig.take(k));
            assert(orig.take(k + 1).last() == orig[k]);
            reveal(Seq::filter);
            assert forall|j: int| 0 <= j < rest@.len() implies #[trigger] rest@[j]@ == orig.skip(k + 1)[j] by {
                assert(rest@[j] == rest_before[j + 1]);
                assert(rest_before.map_values(|c: MilitaryConversion| c@)[j + 1] == orig.skip(k)[j + 1]);
            }
            assert(rest@.map_values(|c: MilitaryConversion| c@) =~= orig.skip(k + 1));
        }
        let ghost kept_before = r@;
        if c.target_sector == sector {
            r.push(c);
            assert(r@.map_values(|c: MilitaryConversion| c@) =~= kept_before.map_values(|c: MilitaryConversion| c@).push(orig[k]));
        }
        assert(r@.map_values(|c: MilitaryConversion| c@) == orig.take(k + 1).filter(pred));
    }
    assert(orig.take(orig.len() as int) =~= orig);
    r
}

/// The rural class named by a lower-case key, if any.
pub open spec fn rural_class_of_lowercase_key(key: Seq<char>) -> Option<RuralClass> {
    if key == "aristocracy"@ {
        Some(RuralClass::Aristocracy)
    } else if key == "freepeasant"@ || key == "free_peasant"@ || key == "free peasant"@ {
        Some(RuralClass::FreePeasant)
    } else if key == "serf"@ || key == "serfs"@ {
        Some(RuralClass::Serf)
    } else if key == "landlesslaborer"@ || key == "landless_laborer"@ || key == "landless laborer"@ {
        Some(RuralClass::LandlessLaborer)
    } else {
        None
    }
}

/// The string key of a rural class.
pub open spec fn rural_class_key(class: RuralClass) -> Seq<char> {
    match class {
        RuralClass::Aristocracy => "Aristocracy"@,
        RuralClass::FreePeasant => "FreePeasant"@,
        RuralClass::Serf => "Serf"@,
        RuralClass::LandlessLaborer => "LandlessLaborer"@,
    }
}

/// Recognizes a rural class from an already lower-cased key.
pub fn rural_class_from_lowercase_key(key: &str) -> (r: Option<RuralClass>)
    ensures
        r == rural_class_of_lowercase_key(key@),
{
    if str_eq(key, "aristocracy") {
        Some(RuralClass::Aristocracy)
    } else if str_eq(key, "freepeasant") || str_eq(key, "free_peasant") || str_eq(key, "free peasant") {
        Some(RuralClass::FreePeasant)
    } else if str_eq(key, "serf") || str_eq(key, "serfs") {
        Some(RuralClass::Serf)
    } else if str_eq(key, "landlesslaborer") || str_eq(key, "landless_laborer") || str_eq(key, "landless laborer") {
        Some(RuralClass::LandlessLaborer)
    } else {
        None
    }
}

/// Parses a rural class from its string key, ignoring case.
pub fn parse_rural_class(key: &str) -> (r: Option<RuralClass>)
    ensures
        r == rural_class_of_lowercase_key(unicode_lowercase(key@)),
        all_ascii(key@) ==> r == rural_class_of_lowercase_key(ascii_lowercase(key@)),
{
    let lower = to_lowercase(key);
    rural_class_from_lowercase_key(lower.as_str())
}

/// Converts a rural class to its string key.
pub fn rural_class_to_string(class: &RuralClass) -> (r: String)
    ensures
        r@ == rural_class_key(*class),
{
    match class {
        RuralClass::Aristocracy => String::from_str("Aristocracy"),
        RuralClass::FreePeasant => String::from_str("FreePeasant"),
        RuralClass::Serf => String::from_str("Serf"),
        RuralClass::LandlessLaborer => String::from_str("LandlessLaborer"),
    }
}

/// The key of every rural class, lower-cased, is recognized as that
/// class: rendering a class and parsing it back gives the class.
pub proof fn law_rural_class_key_roundtrip(class: RuralClass)
    ensures
        all_ascii(rural_class_key(class)),
        rural_class_of_lowercase_key(ascii_lowercase(rural_class_key(class))) == Some(class),
{
    reveal_strlit("Aristocracy");
    reveal_strlit("FreePeasant");
    reveal_strlit("Serf");
    reveal_strlit("LandlessLaborer");
    reveal_strlit("aristocracy");
    reveal_strlit("freepeasant");
    reveal_strlit("serf");
    reveal_strlit("landlesslaborer");
    reveal_strlit("free_peasant");
    reveal_strlit("free peasant");
    reveal_strlit("serfs");
    reveal_strlit("landless_laborer");
    reveal_strlit("landless laborer");
    let k = ascii_lowercase(rural_class_key(class));
    match class {
        RuralClass::Aristocracy => {
            assert(k =~= "aristocracy"@);
            assert(rural_class_of_lowercase_key(k) == Some(class));
        },
        RuralClass::FreePeasant => {
            assert(k =~= "freepeasant"@);
            assert("freepeasant"@[0] != "aristocracy"@[0]);
            assert(rural_class_of_lowercase_key(k) == Some(class));
        },
        RuralClass::Serf => {
            assert(k =~= "serf"@);
            assert(rural_class_of_lowercase_key(k) == Some(class));
        },
        RuralClass::LandlessLaborer => {
            assert(k =~= "landlesslaborer"@);
            assert(rural_class_of_lowercase_key(k) == Some(class));
        },
    }
}

/// The ID of a country's conscript reserve army.
pub open spec fn conscript_army_id(country: Seq<char>) -> Seq<char> {
    "ARMY-"@ + country + "-CONSCRIPT"@
}

/// The ID of the first division of a country's conscript reserve army.
pub open spec fn conscript_division_id(country: Seq<char>) -> Seq<char> {
    "DIV-"@ + country + "-CONSCRIPT-001"@
}

/// The ID of the first regiment of a country's conscript reserve army.
pub open spec fn conscript_regiment_id(country: Seq<char>) -> Seq<char> {
    "REG-"@ + country + "-CONSCRIPT-001"@
}

/// A new conscript regiment holding just `unit`, based in its home region.
pub open spec fn fresh_conscript_regiment(country: Seq<char>, unit: MilitaryUnit) -> RegimentModel {
    RegimentModel {
        id: conscript_regiment_id(country),
        name: "Conscript Regiment"@,
        home_region: unit.home_region@,
        units: seq![unit],
        commander_id: None,
    }
}

/// A new conscript division holding a new conscript regiment with `unit`.
pub open spec fn fresh_conscript_division(country: Seq<char>, unit: MilitaryUnit) -> DivisionModel {
    DivisionModel {
        id: conscript_division_id(country),
        name: "Conscript Division"@,
        home_region: unit.home_region@,
        regiments: seq![fresh_conscript_regiment(country, unit)],
        commander_id: None,
    }
}

/// A new conscript reserve army holding a new conscript division with
/// `unit`.
pub open spec fn fresh_conscript_army(country: Seq<char>, unit: MilitaryUnit) -> ArmyModel {
    ArmyModel {
        id: conscript_army_id(country),
        name: "Conscript Reserve Army"@,
        home_region: unit.home_region@,
        divisions: seq![fresh_conscript_division(country, unit)],
        commander_id: None,
    }
}

/// The conscript army `a` with `unit` added: to the first regiment of its
/// first division, or to a new conscript regiment (or division) where
/// there is none.
pub open spec fn army_with_conscript(a: ArmyModel, country: Seq<char>, unit: MilitaryUnit) -> ArmyModel {
    if a.divisions.len() == 0 {
        ArmyModel { divisions: a.divisions.push(fresh_conscript_division(country, unit)), ..a }
    } else {
        let d = a.divisions[0];
        if d.regiments.len() == 0 {
            let d2 = DivisionModel { regiments: d.regiments.push(fresh_conscript_regiment(country, unit)), ..d };
            ArmyModel { divisions: a.divisions.update(0, d2), ..a }
        } else {
            let r = d.regiments[0];
            let r2 = RegimentModel { units: r.units.push(unit), ..r };
            let d2 = DivisionModel { regiments: d.regiments.update(0, r2), ..d };
            ArmyModel { divisions: a.divisions.update(0, d2), ..a }
        }
    }
}

/// The index of the first army at or after `k` whose ID is `id`.
pub open spec fn first_army_from(armies: Seq<ArmyModel>, id: Seq<char>, k: int) -> Option<int>
    decreases armies.len() - k,
{
    if k < 0 || k >= armies.len() {
        None
    } else if armies[k].id == id {
        Some(k)
    } else {
        first_army_from(armies, id, k + 1)
    }
}

/// The order of battle after enrolling `unit` as a conscript of
/// `country`: it joins the country's conscript reserve army (the first
/// army with the conscript army ID), which is created if missing.
pub open spec fn with_conscript(armies: Seq<ArmyModel>, country: Seq<char>, unit: MilitaryUnit) -> Seq<ArmyModel> {
    match first_army_from(armies, conscript_army_id(country), 0) {
        Some(i) => armies.update(i, army_with_conscript(armies[i], country, unit)),
        None => armies.push(fresh_conscript_army(country, unit)),
    }
}

proof fn lemma_first_army_bounds(armies: Seq<ArmyModel>, id: Seq<char>, k: int)
    requires
        0 <= k,
    ensures
        first_army_from(armies, id, k) matches Some(i) ==> k <= i < armies.len() && armies[i].id == id,
    decreases armies.len() - k,
{
    if k < armies.len() && armies[k].id != id {
        lemma_first_army_bounds(armies, id, k + 1);
    }
}

fn id_with(prefix: &str, country: &str, suffix: &str) -> (r: String)
    ensures
        r@ == prefix@ + country@ + suffix@,
{
    let mut s = String::from_str(prefix);
    s.append(country);
    s.append(suffix);
    s
}

fn new_conscript_regiment(country: &str, unit: MilitaryUnit) -> (r: Regiment)
    ensures
        r@ == fresh_conscript_regiment(country@, unit),
{
    proof {
        reveal_strlit("REG-");
        reveal_strlit("-CONSCRIPT-001");
    }
    let home = unit.home_region.clone();
    let mut reg = Regiment::new(id_with("REG-", country, "-CONSCRIPT-001"), String::from_str("Conscript Regiment"), home);
    reg.add_unit(unit);
    assert(reg@.units =~= seq![unit]);
    reg
}

fn new_conscript_division(country: &str, unit: MilitaryUnit) -> (r: Division)
    ensures
        r@ == fresh_conscript_division(country@, unit),
{
    let home = unit.home_region.clone();
    let reg = new_conscript_regiment(country, unit);
    let mut div = Division::new(id_with("DIV-", country, "-CONSCRIPT-001"), String::from_str("Conscript Division"), home);
    div.add_regiment(reg);
    assert(div@.regiments =~= seq![fresh_conscript_regiment(country@, unit)]);
    div
}

fn find_army(oob: &OrderOfBattle, id: &str) -> (r: Option<usize>)
    ensures
        r matches Some(i) ==> first_army_from(oob@, id@, 0) == Some(i as int) && i < oob@.len(),
        r is None ==> first_army_from(oob@, id@, 0) is None,
{
    proof {
        lemma_first_army_bounds(oob@, id@, 0);
    }
    let mut k: usize = 0;
    while k < oob.armies.len()
        invariant
            k <= oob.armies.len(),
            first_army_from(oob@, id@, 0) == first_army_from(oob@, id@, k as int),
        decreases oob.armies.len() - k,
    {
        if str_eq(oob.armies[k].id.as_str(), id) {
            assert(oob@[k as int].id == id@);
            return Some(k);
        }
        assert(oob@[k as int].id != id@);
        k = k + 1;
    }
    None
}

/// Enrolls `unit` as a conscript of `country_name`: it joins the first
/// regiment of the first division of the conscript reserve army
/// (`ARMY-<country>-CONSCRIPT`), and whatever of that army, division or
/// regiment is missing is created, based in the unit's home region.
pub fn add_conscript_to_oob(oob: &mut OrderOfBattle, unit: MilitaryUnit, country_name: &str)
    ensures
        final(oob)@ == with_conscript(old(oob)@, country_name@, unit),
{
    proof {
        reveal_strlit("ARMY-");
        reveal_strlit("-CONSCRIPT");
    }
    let army_id = id_with("ARMY-", country_name, "-CONSCRIPT");
    assert(army_id@ == conscript_army_id(country_name@));
    match find_army(oob, army_id.as_str()) {
        None => {
            let home = unit.home_region.clone();
            let ghost u = unit;
            let div = new_conscript_division(country_name, unit);
            let mut army = Army::new(army_id, String::from_str("Conscript Reserve Army"), home);
            army.add_division(div);
            assert(army@.divisions =~= seq![fresh_conscript_division(country_name@, u)]);
            assert(army@ == fresh_conscript_army(country_name@, u));
            oob.add_army(army);
        },
        Some(idx) => {
            let ghost before = oob@;
            let ghost armies0 = oob.armies@;
            let ghost a = before[idx as int];
            let ghost u = unit;
            assert(armies0[idx as int]@ == a);
            if oob.armies[idx].divisions.len() == 0 {
                let div = new_conscript_division(country_name, unit);
                oob.armies[idx].add_division(div);
                assert(oob.armies@[idx as int]@ == army_with_conscript(a, country_name@, u));
            } else if oob.armies[idx].divisions[0].regiments.len() == 0 {
                let ghost d0 = armies0[idx as int].divisions@[0];
                assert(d0@ == a.divisions[0]);
                let reg = new_conscript_regiment(country_name, unit);
                oob.armies[idx].divisions[0].add_regiment(reg);
                let ghost d1 = oob.armies@[idx as int].divisions@[0];
                assert(d1@ == (DivisionModel { regiments: a.divisions[0].regiments.push(fresh_conscript_regiment(country_name@, u)), ..a.divisions[0] }));
                assert(oob.armies@[idx as int].divisions@ =~= armies0[idx as int].divisions@.update(0, d1));
                assert(oob.armies@[idx as int]@.divisions =~= a.divisions.update(0, d1@));
                assert(oob.armies@[idx as int]@ == army_with_conscript(a, country_name@, u));
            } else {
                let ghost d0 = armies0[idx as int].divisions@[0];
                let ghost r0 = d0.regiments@[0];
                assert(d0@ == a.divisions[0]);
                assert(r0@ == a.divisions[0].regiments[0]);
                oob.armies[idx].divisions[0].regiments[0].add_unit(unit);
                let ghost d1 = oob.armies@[idx as int].divisions@[0];
                let ghost r1 = d1.regiments@[0];
                assert(r1@ == (RegimentModel { units: r0@.units.push(u), ..r0@ }));
                assert(d1.regiments@ =~= d0.regiments@.update(0, r1));
                assert(d1@.regiments =~= d0@.regiments.update(0, r1@));
                assert(oob.armies@[idx as int].divisions@ =~= armies0[idx as int].divisions@.update(0, d1));
                assert(oob.armies@[idx as int]@.divisions =~= a.divisions.update(0, d1@));
                assert(oob.armies@[idx as int]@ == army_with_conscript(a, country_name@, u));
            }
            assert(oob.armies@ =~= armies0.update(idx as int, oob.armies@[idx as int]));
            assert(oob@ =~= before.update(idx as int, army_with_conscript(a, country_name@, u)));
        },
    }
}

proof fn lemma_regiment_units_update(rs: Seq<RegimentModel>, i: int, r2: RegimentModel, x: MilitaryUnit)
    requires
        0 <= i < rs.len(),
    ensures
        regiment_units(rs.update(i, r2)).len() == regiment_units(rs).len() - rs[i].units.len() + r2.units.len(),
        r2.units.contains(x) ==> regiment_units(rs.update(i, r2)).contains(x),
    decreases rs.len(),
{
    let rs2 = rs.update(i, r2);
    if i < rs.len() - 1 {
        assert(rs2.drop_last() =~= rs.drop_last().update(i, r2));
        lemma_regiment_units_update(rs.drop_last(), i, r2, x);
        if r2.units.contains(x) {
            let k = choose|k: int| 0 <= k < regiment_units(rs2.drop_last()).len() && regiment_units(rs2.drop_last())[k] == x;
            assert(regiment_units(rs2)[k] == x);
        }
    } else {
        assert(rs2.drop_last() =~= rs.drop_last());
        if r2.units.contains(x) {
            let k = choose|k: int| 0 <= k < r2.units.len() && r2.units[k] == x;
            assert(regiment_units(rs2)[regiment_units(rs2.drop_last()).len() + k] == x);
        }
    }
}

proof fn lemma_regiment_units_push(rs: Seq<RegimentModel>, r2: RegimentModel, x: MilitaryUnit)
    ensures
        regiment_units(rs.push(r2)).len() == regiment_units(rs).len() + r2.units.len(),
        r2.units.contains(x) ==> regiment_units(rs.push(r2)).contains(x),
{
    assert(rs.push(r2).drop_last() =~= rs);
    if r2.units.contains(x) {
        let k = choose|k: int| 0 <= k < r2.units.len() && r2.units[k] == x;
        assert(regiment_units(rs.push(r2))[regiment_units(rs).len() + k] == x);
    }
}

proof fn lemma_divisions_units_update(ds: Seq<DivisionModel>, i: int, d2: DivisionModel, x: MilitaryUnit)
    requires
        0 <= i < ds.len(),
    ensures
        divisions_units(ds.update(i, d2)).len() == divisions_units(ds).len() - division_units(ds[i]).len()
            + division_units(d2).len(),
        division_units(d2).contains(x) ==> divisions_units(ds.update(i, d2)).contains(x),
    decreases ds.len(),
{
    let ds2 = ds.update(i, d2);
    if i < ds.len() - 1 {
        assert(ds2.drop_last() =~= ds.drop_last().update(i, d2));
        lemma_divisions_units_update(ds.drop_last(), i, d2, x);
        if division_units(d2).contains(x) {
            let k = choose|k: int| 0 <= k < divisions_units(ds2.drop_last()).len() && divisions_units(ds2.drop_last())[k] == x;
            assert(divisions_units(ds2)[k] == x);
        }
    } else {
        assert(ds2.drop_last() =~= ds.drop_last());
        if division_units(d2).contains(x) {
            let k = choose|k: int| 0 <= k < division_units(d2).len() && division_units(d2)[k] == x;
            assert(divisions_units(ds2)[divisions_units(ds2.drop_last()).len() + k] == x);
        }
    }
}

proof fn lemma_divisions_units_push(ds: Seq<DivisionModel>, d2: DivisionModel, x: MilitaryUnit)
    ensures
        divisions_units(ds.push(d2)).len() == divisions_units(ds).len() + division_units(d2).len(),
        division_units(d2).contains(x) ==> divisions_units(ds.push(d2)).contains(x),
{
    assert(ds.push(d2).drop_last() =~= ds);
    if division_units(d2).contains(x) {
        let k = choose|k: int| 0 <= k < division_units(d2).len() && division_units(d2)[k] == x;
        assert(divisions_units(ds.push(d2))[divisions_units(ds).len() + k] == x);
    }
}

proof fn lemma_armies_units_update(armies: Seq<ArmyModel>, i: int, a2: ArmyModel, x: MilitaryUnit)
    requires
        0 <= i < armies.len(),
    ensures
        armies_units(armies.update(i, a2)).len() == armies_units(armies).len() - army_units(armies[i]).len()
            + army_units(a2).len(),
        army_units(a2).contains(x) ==> armies_units(armies.update(i, a2)).contains(x),
    decreases armies.len(),
{
    let s2 = armies.update(i, a2);
    if i < armies.len() - 1 {
        assert(s2.drop_last() =~= armies.drop_last().update(i, a2));
        lemma_armies_units_update(armies.drop_last(), i, a2, x);
        if army_units(a2).contains(x) {
            let k = choose|k: int| 0 <= k < armies_units(s2.drop_last()).len() && armies_units(s2.drop_last())[k] == x;
            assert(armies_units(s2)[k] == x);
        }
    } else {
        assert(s2.drop_last() =~= armies.drop_last());
        if army_units(a2).contains(x) {
            let k = choose|k: int| 0 <= k < army_units(a2).len() && army_units(a2)[k] == x;
            assert(armies_units(s2)[armies_units(s2.drop_last()).len() + k] == x);
        }
    }
}

/// Enrolling a conscript adds exactly one unit to the order of battle,
/// and that unit is the conscript: no unit is lost or duplicated.
pub proof fn law_conscript_joins_oob(armies: Seq<ArmyModel>, country: Seq<char>, unit: MilitaryUnit)
    ensures
        armies_units(with_conscript(armies, country, unit)).len() == armies_units(armies).len() + 1,
        armies_units(with_conscript(armies, country, unit)).contains(unit),
{
    let fresh_reg = fresh_conscript_regiment(country, unit);
    let fresh_div = fresh_conscript_division(country, unit);
    assert(fresh_reg.units[0] == unit);
    lemma_regiment_units_push(Seq::empty(), fresh_reg, unit);
    assert(Seq::<RegimentModel>::empty().push(fresh_reg) =~= fresh_div.regiments);
    assert(regiment_units(Seq::<RegimentModel>::empty()) =~= Seq::<MilitaryUnit>::empty());
    match first_army_from(armies, conscript_army_id(country), 0) {
        Some(i) => {
            lemma_first_army_bounds(armies, conscript_army_id(country), 0);
            let a = armies[i];
            let a2 = army_with_conscript(a, country, unit);
            if a.divisions.len() == 0 {
                lemma_divisions_units_push(a.divisions, fresh_div, unit);
            } else {
                let d = a.divisions[0];
                if d.regiments.len() == 0 {
                    let d2 = DivisionModel { regiments: d.regiments.push(fresh_reg), ..d };
                    lemma_regiment_units_push(d.regiments, fresh_reg, unit);
                    lemma_divisions_units_update(a.divisions, 0, d2, unit);
                } else {
                    let r = d.regiments[0];
                    let r2 = RegimentModel { units: r.units.push(unit), ..r };
                    let d2 = DivisionModel { regiments: d.regiments.update(0, r2), ..d };
                    assert(r2.units[r.units.len() as int] == unit);
                    lemma_regiment_units_update(d.regiments, 0, r2, unit);
                    lemma_divisions_units_update(a.divisions, 0, d2, unit);
                }
            }
            lemma_armies_units_update(armies, i, a2, unit);
        },
        None => {
            let fa = fresh_conscript_army(country, unit);
            lemma_divisions_units_push(Seq::empty(), fresh_div, unit);
            assert(Seq::<DivisionModel>::empty().push(fresh_div) =~= fa.divisions);
            assert(divisions_units(Seq::<DivisionModel>::empty()) =~= Seq::<MilitaryUnit>::empty());
            assert(armies.push(fa).drop_last() =~= armies);
            let k = choose|k: int| 0 <= k < army_units(fa).len() && army_units(fa)[k] == unit;
            assert(armies_units(armies.push(fa))[armies_units(armies).len() + k] == unit);
        },
    }
}


/// The population of one demographic class of a region, with the rural
/// class its recruits are counted under (urban workers count as landless
/// laborers).
#[derive(Debug, Clone, Copy, PartialEq, Eq, Structural)]
pub struct ClassPopulation {
    /// The class recruits drafted from here are counted under.
    pub rural_class: RuralClass,
    /// Current population of the class.
    pub population: i64,
}

/// What a conscription drain took: the number of recruits and, for each
/// rural class that was drafted from, how many came from it.
#[derive(Debug, Clone)]
pub struct ConscriptionDraft {
    /// Total recruits drafted.
    pub total: i64,
    /// Recruits by the rural class they came from.
    pub origin: FxHashMap<RuralClass, i64>,
}

/// How many recruits a class of `population` gives when `eligible` of it
/// are called up: none unless some are eligible, and never more than the
/// class holds.
pub open spec fn drain_of(population: i64, eligible: i64) -> int {
    if eligible <= 0 {
        0
    } else if eligible < population {
        eligible as int
    } else {
        population as int
    }
}

/// The recruits drained from the first `n` classes.
pub open spec fn total_drain(classes: Seq<ClassPopulation>, eligible: Seq<i64>, n: int) -> int
    decreases n,
{
    if n <= 0 {
        0
    } else {
        total_drain(classes, eligible, n - 1) + drain_of(classes[n - 1].population, eligible[n - 1])
    }
}

/// The recruits drained from those of the first `n` classes counted under
/// `class`.
pub open spec fn class_drain(classes: Seq<ClassPopulation>, eligible: Seq<i64>, class: RuralClass, n: int) -> int
    decreases n,
{
    if n <= 0 {
        0
    } else if classes[n - 1].rural_class == class {
        class_drain(classes, eligible, class, n - 1) + drain_of(classes[n - 1].population, eligible[n - 1])
    } else {
        class_drain(classes, eligible, class, n - 1)
    }
}

/// Whether one of the first `n` classes counted under `class` is called up.
pub open spec fn drafts_class(classes: Seq<ClassPopulation>, eligible: Seq<i64>, class: RuralClass, n: int) -> bool {
    exists|j: int| 0 <= j < n && #[trigger] eligible[j] > 0 && classes[j].rural_class == class
}

/// The sum of the sizes of the drains from the first `n` classes, counting
/// a drain from a class in deficit as its size.
pub open spec fn drain_magnitude(classes: Seq<ClassPopulation>, eligible: Seq<i64>, n: int) -> int
    decreases n,
{
    if n <= 0 {
        0
    } else {
        let d = drain_of(classes[n - 1].population, eligible[n - 1]);
        drain_magnitude(classes, eligible, n - 1) + if d < 0 { -d } else { d }
    }
}

proof fn lemma_drain_bounds(classes: Seq<ClassPopulation>, eligible: Seq<i64>, n: int, m: int)
    requires
        0 <= n <= m,
    ensures
        0 <= drain_magnitude(classes, eligible, n) <= drain_magnitude(classes, eligible, m),
        -drain_magnitude(classes, eligible, n) <= total_drain(classes, eligible, n) <= drain_magnitude(classes, eligible, n),
        forall|c: RuralClass|
            -drain_magnitude(classes, eligible, n) <= #[trigger] class_drain(classes, eligible, c, n)
                <= drain_magnitude(classes, eligible, n),
    decreases m,
{
    if n < m {
        lemma_drain_bounds(classes, eligible, n, m - 1);
    } else if n > 0 {
        lemma_drain_bounds(classes, eligible, n - 1, n - 1);
        assert forall|c: RuralClass|
            -drain_magnitude(classes, eligible, n) <= #[trigger] class_drain(classes, eligible, c, n)
                <= drain_magnitude(classes, eligible, n) by {
            assert(-drain_magnitude(classes, eligible, n - 1) <= class_drain(classes, eligible, c, n - 1)
                <= drain_magnitude(classes, eligible, n - 1));
        }
    }
}

/// Drains recruits from demographic classes: every class whose eligible
/// count `eligible[i]` is positive loses the smaller of that count and its
/// population. Returns the total drained and, for each rural class drafted
/// from, the recruits it gave (the sum over its classes, called up even
/// where nothing was left to take).
pub fn drain_conscripts(classes: &mut Vec<ClassPopulation>, eligible: &Vec<i64>) -> (r: ConscriptionDraft)
    requires
        old(classes).len() == eligible.len(),
        drain_magnitude(old(classes)@, eligible@, eligible.len() as int) <= i64::MAX,
    ensures
        final(classes).len() == old(classes).len(),
        forall|i: int| 0 <= i < old(classes).len() ==> {
            let a = old(classes)@[i];
            let b = #[trigger] final(classes)@[i];
            &&& b.rural_class == a.rural_class
            &&& b.population == a.population - drain_of(a.population, eligible@[i])
        },
        r.total == total_drain(old(classes)@, eligible@, eligible.len() as int),
        forall|c: RuralClass| #[trigger] r.origin@.contains_key(c) <==> drafts_class(old(classes)@, eligible@, c, eligible.len() as int),
        forall|c: RuralClass| #[trigger] r.origin@.contains_key(c) ==> r.origin@[c] == class_drain(old(classes)@, eligible@, c, eligible.len() as int),
        population_total(final(classes)@, eligible.len() as int) + r.total == population_total(old(classes)@, eligible.len() as int),
{
    let ghost before = classes@;
    let n = classes.len();
    let mut total: i64 = 0;
    let mut origin: FxHashMap<RuralClass, i64> = FxHashMap::default();
    let mut i: usize = 0;
    while i < n
        invariant
            i <= n,
            n == classes.len(),
            n == eligible.len(),
            before.len() == n,
            drain_magnitude(before, eligible@, n as int) <= i64::MAX,
            forall|j: int| i <= j < n ==> #[trigger] classes@[j] == before[j],
            forall|j: int| 0 <= j < i ==> {
                let a = before[j];
                let b = #[trigger] classes@[j];
                &&& b.rural_class == a.rural_class
                &&& b.population == a.population - drain_of(a.population, eligible@[j])
            },
            total == total_drain(before, eligible@, i as int),
            forall|c: RuralClass| #[trigger] origin@.contains_key(c) <==> drafts_class(before, eligible@, c, i as int),
            forall|c: RuralClass| #[trigger] origin@.contains_key(c) ==> origin@[c] == class_drain(before, eligible@, c, i as int),
        decreases n - i,
    {
        proof {
            lemma_drain_bounds(before, eligible@, i as int + 1, n as int);
        }
        let wanted = eligible[i];
        let entry = classes[i];
        if wanted > 0 {
            let drain = if wanted < entry.population { wanted } else { entry.population };
            classes.set(i, ClassPopulation { rural_class: entry.rural_class, population: entry.population - drain });
            total = total + drain;
            let so_far = match fx_get(&origin, entry.rural_class) {
                Some(v) => v,
                None => 0,
            };
            proof {
                if !origin@.contains_key(entry.rural_class) {
                    assert(!drafts_class(before, eligible@, entry.rural_class, i as int));
                    assert(class_drain(before, eligible@, entry.rural_class, i as int) == 0) by {
                        lemma_class_drain_zero(before, eligible@, entry.rural_class, i as int);
                    }
                }
            }
            assert(class_drain(before, eligible@, entry.rural_class, i as int + 1) == so_far + drain);
            fx_insert(&mut origin, entry.rural_class, so_far + drain);
        }
        proof {
            assert forall|c: RuralClass| #[trigger] origin@.contains_key(c) <==> drafts_class(before, eligible@, c, i as int + 1) by {
                if drafts_class(before, eligible@, c, i as int + 1) && !drafts_class(before, eligible@, c, i as int) {
                    assert(eligible@[i as int] > 0 && before[i as int].rural_class == c);
                }
                if drafts_class(before, eligible@, c, i as int) {
                    let j = choose|j: int| 0 <= j < i && #[trigger] eligible@[j] > 0 && before[j].rural_class == c;
                    assert(0 <= j < i as int + 1 && eligible@[j] > 0 && before[j].rural_class == c);
                }
                if wanted > 0 && c == entry.rural_class {
                    assert(0 <= i < i as int + 1 && eligible@[i as int] > 0 && before[i as int].rural_class == c);
                }
            }
        }
        i = i + 1;
    }
    proof {
        law_drain_conserves_population(before, classes@, eligible@, n as int);
    }
    ConscriptionDraft { total, origin }
}

/// The total population of the first `n` classes.
pub open spec fn population_total(classes: Seq<ClassPopulation>, n: int) -> int
    decreases n,
{
    if n <= 0 {
        0
    } else {
        population_total(classes, n - 1) + classes[n - 1].population
    }
}

/// Conscription moves people and creates none: after a drain, the
/// population left in the classes plus the recruits drafted is the
/// population before, and the recruits counted under the four rural
/// classes add up to the recruits drafted.
pub proof fn law_drain_conserves_population(
    before: Seq<ClassPopulation>,
    after: Seq<ClassPopulation>,
    eligible: Seq<i64>,
    n: int,
)
    requires
        0 <= n <= before.len(),
        n <= after.len(),
        n <= eligible.len(),
        forall|i: int| 0 <= i < n ==> (#[trigger] after[i]).population == before[i].population - drain_of(before[i].population, eligible[i]),
    ensures
        population_total(after, n) + total_drain(before, eligible, n) == population_total(before, n),
        class_drain(before, eligible, RuralClass::Aristocracy, n) + class_drain(before, eligible, RuralClass::FreePeasant, n)
            + class_drain(before, eligible, RuralClass::Serf, n) + class_drain(before, eligible, RuralClass::LandlessLaborer, n)
            == total_drain(before, eligible, n),
    decreases n,
{
    if n > 0 {
        law_drain_conserves_population(before, after, eligible, n - 1);
        assert(after[n - 1].population == before[n - 1].population - drain_of(before[n - 1].population, eligible[n - 1]));
    }
}

proof fn lemma_class_drain_zero(classes: Seq<ClassPopulation>, eligible: Seq<i64>, class: RuralClass, n: int)
    requires
        !drafts_class(classes, eligible, class, n),
    ensures
        class_drain(classes, eligible, class, n) == 0,
    decreases n,
{
    if n > 0 {
        if eligible[n - 1] > 0 && classes[n - 1].rural_class == class {
            assert(0 <= n - 1 < n && eligible[n - 1] > 0 && classes[n - 1].rural_class == class);
        }
        assert(!drafts_class(classes, eligible, class, n - 1)) by {
            if drafts_class(classes, eligible, class, n - 1) {
                let j = choose|j: int| 0 <= j < n - 1 && #[trigger] eligible[j] > 0 && classes[j].rural_class == class;
                assert(0 <= j < n && eligible[j] > 0 && classes[j].rural_class == class);
            }
        }
        lemma_class_drain_zero(classes, eligible, class, n - 1);
    }
}

/// The ID of the conscript unit a country raises on `turn`.
pub open spec fn conscript_unit_id(country: Seq<char>, turn: u32) -> Seq<char> {
    "CONSCRIPT-"@ + country + "-"@ + decimal(turn as nat)
}

/// Forms the recruits of a draft into an infantry unit of the country's
/// conscript reserve (`CONSCRIPT-<country>-<turn>`), based in
/// `home_region`, and enrolls it in the order of battle. A draft that
/// brought in no recruits raises no unit and leaves the order of battle as
/// it was. Returns the ID of the unit raised.
pub fn enlist_conscripts(
    oob: &mut OrderOfBattle,
    draft: ConscriptionDraft,
    country_name: &str,
    current_turn: u32,
    home_region: String,
) -> (r: Option<String>)
    ensures
        draft.total <= 0 ==> r is None && final(oob)@ == old(oob)@,
        draft.total > 0 ==> (r matches Some(id) && id@ == conscript_unit_id(country_name@, current_turn) && exists|u: MilitaryUnit|
            {
                &&& u.id@ == id@
                &&& u.unit_type == UnitType::Infantry
                &&& u.manpower == draft.total
                &&& u.manpower_origin@ == draft.origin@
                &&& u.home_region == home_region
                &&& u.location == home_region
                &&& #[trigger] with_conscript(old(oob)@, country_name@, u) == final(oob)@
            }),
{
    if draft.total <= 0 {
        return None;
    }
    let mut id = String::from_str("CONSCRIPT-");
    id.append(country_name);
    id.append("-");
    push_decimal(&mut id, current_turn as u64);
    proof {
        reveal_strlit("CONSCRIPT-");
        reveal_strlit("-");
    }
    assert(id@ == conscript_unit_id(country_name@, current_turn));
    let unit_id = id.clone();
    let unit = MilitaryUnit::new(id, UnitType::Infantry, draft.total, draft.origin, home_region);
    let ghost u = unit;
    add_conscript_to_oob(oob, unit, country_name);
    assert(with_conscript(old(oob)@, country_name@, u) == oob@);
    Some(unit_id)
}

} // verus!
