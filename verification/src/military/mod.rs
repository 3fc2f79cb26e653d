//! Military units, the order of battle, war declarations, the war economy
//! and prisoners of war.
pub mod commander_traits;
pub mod fleet;
pub mod fronts;
pub mod multi_domain;
pub mod occupation;
pub mod oob;
pub mod pows;
pub mod propaganda;
pub mod retreat;
pub mod turn;
pub mod units;
pub mod war_declarations;
pub mod war_economy;
