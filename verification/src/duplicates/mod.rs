pub mod cleanup;
pub mod coordinator;
pub mod grouping;
pub mod groups;
pub mod hashing;
pub mod roots;
pub mod scanner;
