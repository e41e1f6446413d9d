pub mod application;
pub mod cleanup;
pub mod diagnostics;
pub mod disk;
pub mod duplicate;
pub mod error;
pub mod finding;
pub mod intelligence;
pub mod rule;
pub mod scan;
pub mod settings;
