//! Commander doctrines derived from VIP traits.
use vstd::prelude::*;

verus! {

/// Air doctrine preference for a commander: how air force units under
/// this commander's control are employed.
#[derive(Debug, Clone, Copy, PartialEq, Eq, Hash, Structural)]
pub enum AirDoctrine {
    /// Prioritize achieving air superiority (fighter sweeps, interceptor
    /// missions).
    Superiority,
    /// Prioritize ground support (close air support, tactical bombing).
    GroundSupport,
    /// Defensive air doctrine (preserve air assets, defensive patrols).
    Defensive,
}

impl Default for AirDoctrine {
    fn default() -> (r: Self)
        ensures
            r == AirDoctrine::GroundSupport,
    {
        AirDoctrine::GroundSupport
    }
}

} // verus!
