//! The decision logic of the program's subcommands.

pub mod characteristics;
pub mod interactive_console;
pub mod list_sensors;
pub mod service;
