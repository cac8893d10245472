//! Running plugins and drivers.

pub mod bootstrap;
pub mod driver;
pub mod plugin;
