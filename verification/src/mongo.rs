pub mod document;
pub mod mongo_repo;
pub mod scanner;
pub mod servers_settings;
