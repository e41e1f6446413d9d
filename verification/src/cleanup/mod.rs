pub mod coordinator;
pub mod permanent_executor;
pub mod revalidation;
pub mod trash_executor;
