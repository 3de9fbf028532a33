//! The IR generator.

pub mod codegen;
pub mod codegen_state;
pub mod emit;
pub mod ir;
pub mod laws;
pub mod listener_laws;
pub mod llvm;
pub mod loop_laws;
pub mod order;
pub mod primitives;
pub mod run_laws;
pub mod semantics;
pub mod state_values;
pub mod type_check;
pub mod types;
pub mod typing;
pub mod update_laws;
