//! The computing side of persistence: telemetry file names and columns,
//! the calendar of a save, and the entity stores.
pub mod entity_store;
pub mod save_manager;
pub mod telemetry_export;
