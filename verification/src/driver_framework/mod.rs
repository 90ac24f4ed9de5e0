//! Devices, the drivers that serve them, and the registry that joins the two.

pub mod device;
pub mod driver;
pub mod drivers;
pub mod manager;
