//! What is asked of the operating system: which process a packet comes from, and how much of
//! the machine this program uses.
pub mod process;
pub mod stats;
