pub mod common;
pub mod duplicates;
pub mod history;
pub mod scans;
pub mod settings;
