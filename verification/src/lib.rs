//! Back end of the Skunk compiler: turns resolved module declarations into
//! the instruction streams of their update and listener functions, and hands
//! those streams to LLVM.

pub mod ast;
pub mod ir_gen;
pub mod paths;
