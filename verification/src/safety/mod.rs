pub mod protected_paths;
