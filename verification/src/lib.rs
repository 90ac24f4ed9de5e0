//! Hardware discovery and interrupt routing for a bare-metal x86-64 kernel.
//!
//! Every function here works on plain values: bytes of firmware tables,
//! dwords of PCI configuration space, register contents. The code that
//! touches memory, ports and registers lives outside this crate; it hands the
//! values in and carries out the register operations that come back.

pub mod bytes;
pub mod text;
pub mod driver_framework;
pub mod devices;
pub mod hal;
pub mod arch;
pub mod memory;
pub mod bootvga;
pub mod rlib;
