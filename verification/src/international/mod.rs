//! International systems: sanctions, organizations, treaties, fog of war,
//! diplomacy and AI doctrines.
pub mod ai_doctrines;
pub mod diplomacy;
pub mod fog_of_war;
pub mod organizations;
pub mod sanctions;
pub mod treaties;
