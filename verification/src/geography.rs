//! Rural social classes that soldiers are drafted from.
use vstd::prelude::*;

verus! {

/// Rural social class of a population group.
#[derive(Debug, Clone, Copy, PartialEq, Eq, Hash, Structural)]
pub enum RuralClass {
    /// Landed nobility.
    Aristocracy,
    /// Free peasants owning their land.
    FreePeasant,
    /// Serfs bound to the land.
    Serf,
    /// Laborers without land.
    LandlessLaborer,
}

} // verus!
