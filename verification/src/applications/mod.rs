pub mod bundles;
pub mod coordinator;
pub mod inventory;
pub mod plists;
pub mod related;
pub mod windows;
