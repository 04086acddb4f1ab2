//! A catalog of low-level bit-manipulation primitives over fixed-width
//! machine integers: bit extraction and mutation, range masks, packed
//! multi-field encoding, population count and prefix rank, binary
//! logarithms, "next integer with equal popcount", arithmetic-shift
//! emulation, and XOR-based selection and recovery tricks.
//!
//! Every function is pure and stateless; its exact numeric behaviour,
//! including domain restrictions and overflow handling, is stated in its
//! contract.

pub mod access;
pub mod count;
pub mod enumerate;
pub mod log2;
pub mod pack;
pub mod twos;
pub mod xor;
