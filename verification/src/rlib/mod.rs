//! What a program without a run-time library must bring along itself.

pub mod mem;
