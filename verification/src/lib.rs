//! DiskSage core: the rules, safety policy, planning and bookkeeping logic of a
//! local-first disk cleanup tool, with machine-checked contracts.
pub mod applications;
pub mod cleanup;
pub mod commands;
pub mod domain;
pub mod duplicates;
pub mod ids;
pub mod intelligence;
pub mod path_order;
pub mod paths;
pub mod persistence;
pub mod platform;
pub mod rules;
pub mod safety;
pub mod scanner;
pub mod sorting;
pub mod text;
