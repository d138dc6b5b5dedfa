//! Memory-optimisation engine for a desktop RAM cleaner: the memory figures,
//! the process guard lists, the optimisation bookkeeping and the user settings.
//! Everything that talks to the operating system lives outside this library and
//! hands it plain values.

pub mod memory;
pub mod process_manager;
pub mod settings;
pub mod commands;
