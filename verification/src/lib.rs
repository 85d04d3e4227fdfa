//! A compiler from a subset of TypeScript to MLIR.
pub mod ast;
pub mod error;
pub mod ir;
pub mod scope;
pub mod codegen_spec;
pub mod codegen;
pub mod budget;
pub mod semantics;
pub mod laws;
pub mod visit_spec;
pub mod visitor;
pub mod basic;
pub mod parser;
pub mod blocks;
pub mod stmt_laws;
pub mod basic_laws;
pub mod visit_laws;
pub mod module_laws;
pub mod branch_laws;
