pub mod config;
pub mod guarantees;
pub mod launcher;
pub mod paths;
pub mod snapshot;
pub mod text;
