//! Targets of state propaganda campaigns.
use vstd::prelude::*;

verus! {

/// Target of a propaganda campaign.
#[derive(Debug, Clone, Copy, PartialEq, Eq, Hash, Structural)]
pub enum PropagandaTarget {
    /// Boost war morale only.
    WarMorale,
    /// Boost general mental health only.
    GeneralHappiness,
    /// Boost both war morale and mental health.
    Both,
}

impl Default for PropagandaTarget {
    fn default() -> (r: Self)
        ensures
            r == PropagandaTarget::Both,
    {
        PropagandaTarget::Both
    }
}

} // verus!
