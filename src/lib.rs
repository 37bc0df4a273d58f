//! An interpreter for a small register-machine language: a program is a list
//! of arithmetic assignments and conditional jumps over a sparse memory of
//! signed 32-bit cells, addressed directly or through other registers.
pub mod instructions;
pub mod machine;
pub mod grammar;
pub mod parser;
pub mod text;
pub mod round_trip;
pub mod memory_seed;
pub mod options;
