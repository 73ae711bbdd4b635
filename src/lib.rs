//! Lowering of assignment targets to the mid-level IR.
pub mod ast;
pub mod hir;
pub mod lvalue;
pub mod mir;
pub mod pack;
pub mod ty;
