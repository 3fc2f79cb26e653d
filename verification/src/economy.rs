//! Economic vocabulary shared by the military systems: sectors,
//! commodities and production methods.
use vstd::prelude::*;

verus! {

/// Economic sector of a building.
#[derive(Debug, Clone, Copy, PartialEq, Eq, Hash, Structural)]
pub enum Sector {
    /// Farming.
    Agriculture,
    /// Textiles and consumer goods.
    LightIndustry,
    /// Steel, machinery and chemicals.
    HeavyIndustry,
}

/// A traded physical good.
#[derive(Debug, Clone, Copy, PartialEq, Eq, Hash, Structural)]
pub enum Commodity {
    /// Aluminum.
    Aluminum,
    /// Ammunition.
    Ammunition,
    /// Bomber aircraft.
    Bombers,
    /// Industrial chemicals.
    Chemicals,
    /// Clothing.
    Clothing,
    /// Electronic components.
    ElectronicComponents,
    /// Energy.
    Energy,
    /// Natural fibers.
    Fibers,
    /// Fighter aircraft.
    Fighters,
    /// Food.
    Food,
    /// Freight capacity.
    FreightCapacity,
    /// Fuels.
    Fuels,
    /// Gunpowder.
    Gunpowder,
    /// Heavy tanks.
    HeavyTanks,
    /// Helicopters.
    Helicopters,
    /// Industrial fiber (webbing).
    IndustrialFiber,
    /// Iron.
    Iron,
    /// Light tanks.
    LightTanks,
    /// Mechanical components.
    MechanicalComponents,
    /// Medium tanks.
    MediumTanks,
    /// Plastics.
    Plastics,
    /// Rifles.
    Rifles,
    /// Steel.
    Steel,
    /// Submarines.
    Submarines,
    /// Sulfur.
    Sulfur,
    /// Support equipment (webbing, packs, entrenching tools).
    SupportEquipment,
    /// Towed artillery.
    TowedArtillery,
    /// Trucks.
    Trucks,
}

} // verus!
