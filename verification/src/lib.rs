//! Verified core of a bare-metal runtime: the boot-time memory image setup,
//! the interrupt vector table, and the single-writer state cell that hands an
//! interrupt's event over to the main loop.
//!
//! Addresses count storage units (32-bit words) from the base of the address
//! space; the vector table starts at unit 0.

pub mod region;
pub mod memory;
pub mod image;
pub mod vector_table;
pub mod boot;
pub mod cell;
pub mod button;
pub mod registers;
pub mod echo;
