//! The text screen that the machine boots with.

pub mod vga_buffer;
