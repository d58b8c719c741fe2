//! An evaluator for the jsonnet configuration language, with its semantics
//! stated as spec functions and the evaluator proved against them.
pub mod ast;
pub mod val;
pub mod num;
pub mod spec;
pub mod ops;
pub mod context;
pub mod evaluate;
pub mod laws;
pub mod depth;
pub mod outcome;
pub mod op_laws;
