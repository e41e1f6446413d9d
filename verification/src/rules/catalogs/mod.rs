pub mod safe_caches;
pub mod developer_tools;
pub mod project_artifacts;
