pub mod catalogs;
pub mod chrome;
pub mod project_detection;
pub mod registry;
