//! What the resolution and type checking stages have established about the
//! nodes of a design, under one parametrization.
use crate::mir::{NodeId, ParamEnv, Span};
use crate::ty::Ty;
use std::rc::Rc;
use vstd::prelude::*;

verus! {

/// A primitive conversion step.
#[derive(Clone, Copy, Debug, PartialEq, Eq, Structural)]
pub enum CastOp {
    PackSBVT,
    UnpackSBVT,
    Bool,
    Sign,
    Range,
    Domain,
    Transmute,
    PickModport,
}

/// The type an expression is built with, and the steps that take it to the
/// type its context requires.
pub struct CastType {
    pub init: Rc<Ty>,
    pub ty: Rc<Ty>,
    pub casts: Vec<(CastOp, Rc<Ty>)>,
}

impl CastType {
    pub fn is_error(&self) -> (r: bool)
        ensures
            r == (*self.init is Error || *self.ty is Error),
    {
        self.init.is_error() || self.ty.is_error()
    }
}

/// The offset of an index as written.
#[derive(Clone, Copy, Debug, PartialEq, Eq, Structural)]
pub enum IndexBase {
    Const(i64),
    Dynamic(NodeId),
}

/// The forms of indexing: `x[i]` and `x[msb:lsb]`.
#[derive(Clone, Copy, Debug, PartialEq, Eq, Structural)]
pub enum IndexMode {
    One(IndexBase),
    Part { msb: i64, lsb: i64 },
}

/// The shape of an expression.
pub enum ExprKind {
    Ident,
    Scope,
    Index { target: NodeId, mode: IndexMode },
    Field { target: NodeId },
    Concat { repeat: Option<NodeId>, exprs: Vec<NodeId> },
    Call,
    Other,
}

/// A node of the resolved syntax tree.
pub enum HirNode {
    Expr(ExprKind),
    GenvarDecl,
    VarDecl,
    IntPort,
    Inst,
    Other,
}

/// What a name inside an interface resolves to.
#[derive(Clone, Copy, Debug, PartialEq, Eq, Structural)]
pub enum IntfMember {
    Modport,
    Signal(NodeId),
}

/// The facts known about one node; `None` where the query failed.
pub struct NodeInfo {
    pub span: Span,
    pub hir: Option<HirNode>,
    /// The cast chain of an expression.
    pub cast: Option<CastType>,
    /// The declaration that a name resolves to.
    pub binding: Option<NodeId>,
    /// The self-determined type of an expression.
    pub self_ty: Option<Rc<Ty>>,
    /// The ordinal of the struct field that a field access selects.
    pub field: Option<usize>,
    /// What a field access into an interface selects.
    pub member: Option<IntfMember>,
    /// The value of a constant expression.
    pub constant: Option<i128>,
}

/// The facts about every node, under one parametrization.
pub struct Context {
    pub env: ParamEnv,
    pub nodes: Vec<NodeInfo>,
}

} // verus!
