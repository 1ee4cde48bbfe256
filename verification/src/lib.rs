//! A small stack machine: a fixed-width instruction set interpreted over a
//! flat memory of 4096 bytes, with every rule of its encoding and of its
//! execution stated as a contract.

pub mod alu;
pub mod engine;
pub mod execute;
pub mod image;
pub mod instruction;
pub mod laws;
pub mod machine;
pub mod semantics;
pub mod text;
pub mod word;
