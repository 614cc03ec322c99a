//! A bounded virtual machine for digital organisms.
//!
//! A cell holds a fixed number of fixed-length genes, each a sequence of
//! stack-machine instructions. A processor interprets them with wrapping
//! byte arithmetic, two bounded stacks that compact instead of overflowing,
//! call/return across genes, label/jump within a gene, and a one-shot
//! conditional predicate. The machine never fails at runtime: every
//! irregular situation has a silent, deterministic fallback.

pub mod laws;
pub mod neighbors;
pub mod semantics;
pub mod vm;
