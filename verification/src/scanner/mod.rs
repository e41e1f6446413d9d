pub mod exclusions;
pub mod walker;
pub mod analysis;
pub mod coordinator;
