//! Battles on a front: the terrain of the battle region, which units
//! fight on which side, and which side loses prisoners.
use vstd::prelude::*;
use crate::text::str_eq;

verus! {

/// The terrain of a region: mountains where the climate is mountainous,
/// otherwise forest where forests cover more than a quarter of the land,
/// otherwise plains.
pub open spec fn terrain_of(mountainous: bool, forested: bool) -> Seq<char> {
    if mountainous {
        "mountain"@
    } else if forested {
        "forest"@
    } else {
        "plains"@
    }
}

/// Derives the terrain type of a region from whether its climate is
/// mountainous and whether forests cover more than a quarter of its land.
pub fn derive_terrain(mountainous: bool, forested: bool) -> (r: &'static str)
    ensures
        r@ == terrain_of(mountainous, forested),
{
    if mountainous {
        "mountain"
    } else if forested {
        "forest"
    } else {
        "plains"
    }
}

/// A side of a front battle.
#[derive(Debug, Clone, Copy, PartialEq, Eq, Structural)]
pub enum FrontSide {
    /// The side holding the front's first region.
    Attacker,
    /// The side holding the front's other regions.
    Defender,
}

/// The side a unit located in `location` fights on, if it stands in one of
/// the front's regions: the attacker in the first region, the defender in
/// any other.
pub open spec fn side_of(location: Seq<char>, regions: Seq<Seq<char>>) -> Option<FrontSide> {
    if !regions.contains(location) {
        None
    } else if location == regions[0] {
        Some(FrontSide::Attacker)
    } else {
        Some(FrontSide::Defender)
    }
}

/// The positions, in order, of those of the first `n` units that fight on
/// `side`.
pub open spec fn side_positions(locations: Seq<Seq<char>>, regions: Seq<Seq<char>>, side: FrontSide, n: int) -> Seq<int>
    decreases n,
{
    if n <= 0 {
        Seq::empty()
    } else if side_of(locations[n - 1], regions) == Some(side) {
        side_positions(locations, regions, side, n - 1).push(n - 1)
    } else {
        side_positions(locations, regions, side, n - 1)
    }
}

fn position_in(names: &[String], name: &str) -> (r: bool)
    ensures
        r == names@.map_values(|s: String| s@).contains(name@),
{
    let ghost all = names@.map_values(|s: String| s@);
    let mut i: usize = 0;
    while i < names.len()
        invariant
            i <= names@.len(),
            all == names@.map_values(|s: String| s@),
            forall|j: int| 0 <= j < i ==> #[trigger] all[j] != name@,
        decreases names@.len() - i,
    {
        if str_eq(names[i].as_str(), name) {
            assert(all[i as int] == name@);
            return true;
        }
        i = i + 1;
    }
    false
}

/// Splits the units at a front into the two sides by where they stand
/// (see `side_of`): the positions of the attacker's units, then of the
/// defender's, each in order. Units elsewhere fight on neither side.
pub fn split_front_units(unit_locations: &[String], front_regions: &[String]) -> (r: (Vec<usize>, Vec<usize>))
    ensures
        r.0@.map_values(|i: usize| i as int) == side_positions(
            unit_locations@.map_values(|s: String| s@),
            front_regions@.map_values(|s: String| s@),
            FrontSide::Attacker,
            unit_locations@.len() as int,
        ),
        r.1@.map_values(|i: usize| i as int) == side_positions(
            unit_locations@.map_values(|s: String| s@),
            front_regions@.map_values(|s: String| s@),
            FrontSide::Defender,
            unit_locations@.len() as int,
        ),
{
    let ghost locs = unit_locations@.map_values(|s: String| s@);
    let ghost regions = front_regions@.map_values(|s: String| s@);
    let mut attackers: Vec<usize> = Vec::new();
    let mut defenders: Vec<usize> = Vec::new();
    let mut i: usize = 0;
    while i < unit_locations.len()
        invariant
            i <= unit_locations@.len(),
            locs == unit_locations@.map_values(|s: String| s@),
            regions == front_regions@.map_values(|s: String| s@),
            attackers@.map_values(|k: usize| k as int) == side_positions(locs, regions, FrontSide::Attacker, i as int),
            defenders@.map_values(|k: usize| k as int) == side_positions(locs, regions, FrontSide::Defender, i as int),
        decreases unit_locations@.len() - i,
    {
        let location = unit_locations[i].as_str();
        assert(locs[i as int] == location@);
        if position_in(front_regions, location) {
            assert(regions.len() > 0);
            assert(regions[0] == front_regions@[0]@);
            if str_eq(location, front_regions[0].as_str()) {
                attackers.push(i);
            } else {
                defenders.push(i);
            }
        }
        i = i + 1;
        assert(attackers@.map_values(|k: usize| k as int) =~= side_positions(locs, regions, FrontSide::Attacker, i as int));
        assert(defenders@.map_values(|k: usize| k as int) =~= side_positions(locs, regions, FrontSide::Defender, i as int));
    }
    (attackers, defenders)
}

/// The side that loses prisoners after a battle: the side with more
/// casualties, the defender on a tie.
pub fn prisoner_losing_side(attacker_casualties: i64, defender_casualties: i64) -> (r: FrontSide)
    ensures
        r == (if attacker_casualties > defender_casualties { FrontSide::Attacker } else { FrontSide::Defender }),
{
    if attacker_casualties > defender_casualties {
        FrontSide::Attacker
    } else {
        FrontSide::Defender
    }
}

/// No unit fights on both sides, and a unit outside the front's regions
/// fights on neither.
pub proof fn law_front_sides_disjoint(locations: Seq<Seq<char>>, regions: Seq<Seq<char>>, n: int, p: int)
    requires
        0 <= n <= locations.len(),
    ensures
        !(side_positions(locations, regions, FrontSide::Attacker, n).contains(p)
            && side_positions(locations, regions, FrontSide::Defender, n).contains(p)),
        0 <= p < n && !regions.contains(locations[p]) ==> !side_positions(locations, regions, FrontSide::Attacker, n).contains(p)
            && !side_positions(locations, regions, FrontSide::Defender, n).contains(p),
{
    lemma_positions_below(locations, regions, FrontSide::Attacker, n);
    lemma_positions_below(locations, regions, FrontSide::Defender, n);
    let a = side_positions(locations, regions, FrontSide::Attacker, n);
    let d = side_positions(locations, regions, FrontSide::Defender, n);
    if a.contains(p) {
        let k = choose|k: int| 0 <= k < a.len() && #[trigger] a[k] == p;
        assert(side_of(locations[p], regions) == Some(FrontSide::Attacker));
    }
    if d.contains(p) {
        let k = choose|k: int| 0 <= k < d.len() && #[trigger] d[k] == p;
        assert(side_of(locations[p], regions) == Some(FrontSide::Defender));
    }
}

proof fn lemma_positions_below(locations: Seq<Seq<char>>, regions: Seq<Seq<char>>, side: FrontSide, n: int)
    ensures
        forall|k: int| 0 <= k < side_positions(locations, regions, side, n).len() ==> {
            let p = #[trigger] side_positions(locations, regions, side, n)[k];
            0 <= p < n && side_of(locations[p], regions) == Some(side)
        },
    decreases n,
{
    if n > 0 {
        lemma_positions_below(locations, regions, side, n - 1);
    }
}

} // verus!
