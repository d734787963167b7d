//! Service commands of the devices.
pub mod factory_commands;
pub mod factory_interface;
