//! Memory for the kernel's own use.

pub mod frame;
pub mod kmalloc;
pub mod virtual_alloc;
