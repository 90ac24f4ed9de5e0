//! The drivers that come with the kernel.

pub mod console;
pub mod ps2;
pub mod ps2kbd;
pub mod ps2mouse;
pub mod vbe_vga;
