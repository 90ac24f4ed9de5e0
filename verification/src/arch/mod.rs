//! What is particular to the processor: its interrupt table, its features
//! and its time-stamp counter.

pub mod idt;
pub mod processor;
pub mod tsc_timer;
