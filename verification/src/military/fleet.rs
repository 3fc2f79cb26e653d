//! Fleets: their ships, missions and maritime trade routes.
use vstd::prelude::*;
use crate::text::str_eq;

verus! {

/// Fleet mission type.
#[derive(Debug, Clone, Copy, PartialEq, Eq, Hash, Structural)]
pub enum FleetMission {
    /// Idle at port.
    Idle,
    /// Trade route mission.
    TradeRoute,
    /// Fishing operation.
    Fishing,
    /// Naval patrol.
    Patrol,
    /// Naval combat.
    Combat,
}

/// Whether two routes visit the same regions in the same order.
pub open spec fn same_route(a: Seq<String>, b: Seq<String>) -> bool {
    a.len() == b.len() && forall|i: int| 0 <= i < a.len() ==> (#[trigger] a[i])@ == b[i]@
}

/// Checks whether a fleet's trade route matches the target route (same
/// regions in the same order).
pub fn route_matches(fleet_route: &[String], target_route: &[String]) -> (r: bool)
    ensures
        r == same_route(fleet_route@, target_route@),
{
    if fleet_route.len() != target_route.len() {
        return false;
    }
    let mut i: usize = 0;
    while i < fleet_route.len()
        invariant
            i <= fleet_route@.len(),
            fleet_route@.len() == target_route@.len(),
            forall|j: int| 0 <= j < i ==> (#[trigger] fleet_route@[j])@ == target_route@[j]@,
        decreases fleet_route@.len() - i,
    {
        if !str_eq(fleet_route[i].as_str(), target_route[i].as_str()) {
            return false;
        }
        i = i + 1;
    }
    true
}

/// A ship of a fleet: its ID and the ship itself.
#[derive(Debug, Clone, PartialEq)]
pub struct FleetShip<S> {
    /// Unique ship ID.
    pub id: String,
    /// The ship.
    pub ship: S,
}

/// A fleet of ships assigned to a mission. `S` is the kind of ship.
#[derive(Debug, Clone, PartialEq)]
pub struct Fleet<S> {
    /// Unique fleet ID.
    pub id: String,
    /// Name of the fleet.
    pub name: String,
    /// Owner country.
    pub owner_country: String,
    /// Home port ID.
    pub home_port: String,
    /// Current mission.
    pub current_mission: FleetMission,
    /// Ships in the fleet.
    pub ships: Vec<FleetShip<S>>,
    /// Trade route path (if on a trade mission).
    pub trade_route: Vec<String>,
    /// Fishing region ID (if on a fishing mission).
    pub fishing_region: Option<String>,
    /// Operational status.
    pub operational_status: bool,
}

/// The position of the first ship with ID `id` at or after `k`.
pub open spec fn ship_position<S>(ships: Seq<FleetShip<S>>, id: Seq<char>, k: int) -> Option<int>
    decreases ships.len() - k,
{
    if k < 0 || k >= ships.len() {
        None
    } else if ships[k].id@ == id {
        Some(k)
    } else {
        ship_position(ships, id, k + 1)
    }
}

/// Whether `a` and `b` are the same fleet apart from its ships, mission,
/// route and fishing region.
pub open spec fn same_fleet_identity<S>(a: Fleet<S>, b: Fleet<S>) -> bool {
    &&& a.id == b.id
    &&& a.name == b.name
    &&& a.owner_country == b.owner_country
    &&& a.home_port == b.home_port
    &&& a.operational_status == b.operational_status
}

proof fn lemma_ship_position_bounds<S>(ships: Seq<FleetShip<S>>, id: Seq<char>, k: int)
    requires
        0 <= k,
    ensures
        ship_position(ships, id, k) matches Some(i) ==> k <= i < ships.len() && ships[i].id@ == id,
    decreases ships.len() - k,
{
    if k < ships.len() && ships[k].id@ != id {
        lemma_ship_position_bounds(ships, id, k + 1);
    }
}

impl<S> Fleet<S> {
    /// Adds a ship to the fleet.
    pub fn add_ship(&mut self, ship: FleetShip<S>)
        ensures
            final(self).ships@ == old(self).ships@.push(ship),
            same_fleet_identity(*final(self), *old(self)),
            final(self).current_mission == old(self).current_mission,
            final(self).trade_route == old(self).trade_route,
            final(self).fishing_region == old(self).fishing_region,
    {
        self.ships.push(ship);
    }

    /// Removes the first ship with ID `ship_id`. Returns whether one was
    /// found; without one the fleet is unchanged.
    pub fn remove_ship(&mut self, ship_id: &str) -> (r: bool)
        ensures
            r == ship_position(old(self).ships@, ship_id@, 0) is Some,
            r ==> final(self).ships@ == old(self).ships@.remove(ship_position(old(self).ships@, ship_id@, 0)->0),
            !r ==> final(self).ships@ == old(self).ships@,
            same_fleet_identity(*final(self), *old(self)),
            final(self).current_mission == old(self).current_mission,
            final(self).trade_route == old(self).trade_route,
            final(self).fishing_region == old(self).fishing_region,
    {
        proof {
            lemma_ship_position_bounds(self.ships@, ship_id@, 0);
        }
        let mut i: usize = 0;
        while i < self.ships.len()
            invariant
                i <= self.ships@.len(),
                *self == *old(self),
                ship_position(self.ships@, ship_id@, 0) == ship_position(self.ships@, ship_id@, i as int),
            decreases self.ships@.len() - i,
        {
            if str_eq(self.ships[i].id.as_str(), ship_id) {
                self.ships.remove(i);
                return true;
            }
            i = i + 1;
        }
        false
    }

    /// Assigns the fleet to a trade route along `route`, leaving any
    /// fishing region.
    pub fn assign_trade_route(&mut self, route: Vec<String>)
        ensures
            final(self).current_mission == FleetMission::TradeRoute,
            final(self).trade_route == route,
            final(self).fishing_region is None,
            final(self).ships == old(self).ships,
            same_fleet_identity(*final(self), *old(self)),
    {
        self.current_mission = FleetMission::TradeRoute;
        self.trade_route = route;
        self.fishing_region = None;
    }

    /// Assigns the fleet to fish in `region_id`, leaving any trade route.
    pub fn assign_fishing(&mut self, region_id: String)
        ensures
            final(self).current_mission == FleetMission::Fishing,
            final(self).fishing_region == Some(region_id),
            final(self).trade_route@.len() == 0,
            final(self).ships == old(self).ships,
            same_fleet_identity(*final(self), *old(self)),
    {
        self.current_mission = FleetMission::Fishing;
        self.fishing_region = Some(region_id);
        self.trade_route.clear();
    }

    /// Sets the fleet idle: no trade route and no fishing region.
    pub fn set_idle(&mut self)
        ensures
            final(self).current_mission == FleetMission::Idle,
            final(self).trade_route@.len() == 0,
            final(self).fishing_region is None,
            final(self).ships == old(self).ships,
            same_fleet_identity(*final(self), *old(self)),
    {
        self.current_mission = FleetMission::Idle;
        self.trade_route.clear();
        self.fishing_region = None;
    }
}

/// Adding a ship and then removing it by its ID gives back the fleet's
/// ships, provided no ship of the fleet had that ID.
pub proof fn law_add_then_remove_ship<S>(ships: Seq<FleetShip<S>>, ship: FleetShip<S>)
    requires
        ship_position(ships, ship.id@, 0) is None,
    ensures
        ship_position(ships.push(ship), ship.id@, 0) == Some(ships.len() as int),
        ships.push(ship).remove(ships.len() as int) == ships,
{
    lemma_ship_absent_prefix(ships, ship, ship.id@, 0);
    assert(ships.push(ship).remove(ships.len() as int) =~= ships);
}

proof fn lemma_ship_absent_prefix<S>(ships: Seq<FleetShip<S>>, ship: FleetShip<S>, id: Seq<char>, k: int)
    requires
        0 <= k <= ships.len(),
        ship_position(ships, id, k) is None,
        ship.id@ == id,
    ensures
        ship_position(ships.push(ship), id, k) == Some(ships.len() as int),
    decreases ships.len() - k,
{
    if k < ships.len() {
        lemma_ship_absent_prefix(ships, ship, id, k + 1);
    }
}

} // verus!
