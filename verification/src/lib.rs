//! Verified core of the grand-strategy simulation state: international
//! relations (sanctions, organizations, treaties, intelligence, diplomacy)
//! and the military (order of battle, war declarations, war economy,
//! prisoners of war).
pub mod economy;
pub mod geography;
pub mod international;
pub mod io;
pub mod military;
pub mod text;
