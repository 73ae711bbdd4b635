//! The lvalue nodes of the mid-level IR, and the builder that allocates them.
use crate::hir::Context;
use crate::ty::Ty;
use std::rc::Rc;
use vstd::prelude::*;

verus! {

/// Identity of a node of the syntax tree or of the IR.
pub type NodeId = usize;

/// The parametrization under which a node is lowered.
#[derive(Clone, Copy, Debug, PartialEq, Eq, Structural)]
pub struct ParamEnv(pub u64);

/// A range of source text.
#[derive(Clone, Copy, Debug, PartialEq, Eq, Structural)]
pub struct Span {
    pub begin: u64,
    pub end: u64,
}

/// A value that is computed rather than addressed; here the offset of an index.
#[derive(Clone, Copy, Debug, PartialEq, Eq, Structural)]
pub enum Rvalue {
    /// A constant.
    Const(i128),
    /// The value of an expression, lowered by the value engine.
    Value(NodeId),
    /// The value of an expression minus a constant.
    Offset { value: NodeId, by: i64 },
}

/// What an lvalue denotes.
#[derive(Debug)]
pub enum LvalueKind {
    /// A marker for a part of the IR that could not be built.
    Error,
    /// A generate variable.
    Genvar(NodeId),
    /// A variable.
    Var(NodeId),
    /// A port.
    Port(NodeId),
    /// An interface instance.
    Intf(NodeId),
    /// A signal of an interface.
    IntfSignal(Rc<Lvalue>, NodeId),
    /// `length` elements of `value` starting at offset `base` from its low end.
    Index { value: Rc<Lvalue>, base: Rvalue, length: u64 },
    /// A field of a struct, by ordinal.
    Member { value: Rc<Lvalue>, field: usize },
    /// A concatenation of flat bit vectors, most significant first.
    Concat(Rc<Vec<Rc<Lvalue>>>),
    /// A concatenation repeated a number of times.
    Repeat(u64, Rc<Lvalue>),
    /// The same storage, read as another type of equal width.
    Transmute(Rc<Lvalue>),
}

/// A node of the IR that denotes an assignable location.
#[derive(Debug)]
pub struct Lvalue {
    pub id: NodeId,
    pub origin: NodeId,
    pub env: ParamEnv,
    pub span: Span,
    pub ty: Rc<Ty>,
    pub kind: LvalueKind,
}

impl LvalueKind {
    /// A copy of this kind that shares its operands.
    pub fn share(&self) -> (r: LvalueKind)
        ensures
            r == *self,
    {
        match self {
            LvalueKind::Error => LvalueKind::Error,
            LvalueKind::Genvar(d) => LvalueKind::Genvar(*d),
            LvalueKind::Var(d) => LvalueKind::Var(*d),
            LvalueKind::Port(d) => LvalueKind::Port(*d),
            LvalueKind::Intf(d) => LvalueKind::Intf(*d),
            LvalueKind::IntfSignal(v, m) => LvalueKind::IntfSignal(Rc::clone(v), *m),
            LvalueKind::Index { value, base, length } => LvalueKind::Index {
                value: Rc::clone(value),
                base: *base,
                length: *length,
            },
            LvalueKind::Member { value, field } => LvalueKind::Member {
                value: Rc::clone(value),
                field: *field,
            },
            LvalueKind::Concat(v) => LvalueKind::Concat(Rc::clone(v)),
            LvalueKind::Repeat(n, v) => LvalueKind::Repeat(*n, Rc::clone(v)),
            LvalueKind::Transmute(v) => LvalueKind::Transmute(Rc::clone(v)),
        }
    }
}

impl Lvalue {
    pub fn is_error(&self) -> (r: bool)
        ensures
            r == (self.kind is Error),
    {
        matches!(self.kind, LvalueKind::Error)
    }
}

/// The store that hands out node identities.
pub struct Session {
    pub next_id: NodeId,
    pub diagnostics: Vec<Diagnostic>,
}

/// What a diagnostic reports.
#[derive(Clone, Copy, Debug, PartialEq, Eq, Structural)]
pub enum DiagKind {
    /// The name resolves to something that cannot be assigned.
    NotATarget,
    /// The expression has a form that cannot be assigned.
    NotAssignable,
}

/// A message for the user, about one node.
#[derive(Clone, Copy, Debug, PartialEq, Eq, Structural)]
pub struct Diagnostic {
    pub kind: DiagKind,
    pub node: NodeId,
    pub span: Span,
}

/// The text that follows a node's description in a diagnostic.
pub open spec fn suffix(kind: DiagKind) -> Seq<char> {
    match kind {
        DiagKind::NotATarget => " cannot be used as the target of an assignment"@,
        DiagKind::NotAssignable => " cannot be assigned to"@,
    }
}

impl Diagnostic {
    /// The message shown to the user, given a description of the node.
    pub fn message(&self, desc: &str) -> (r: String)
        ensures
            r@ == desc@ + suffix(self.kind),
    {
        let mut m = desc.to_owned();
        match self.kind {
            DiagKind::NotATarget => m.append(" cannot be used as the target of an assignment"),
            DiagKind::NotAssignable => m.append(" cannot be assigned to"),
        }
        m
    }
}

impl Session {
    pub fn new() -> (r: Session)
        ensures
            r.next_id == 0,
            r.diagnostics@.len() == 0,
    {
        Session { next_id: 0, diagnostics: Vec::new() }
    }

    /// A fresh node identity.
    pub fn alloc_id(&mut self) -> (r: NodeId)
        ensures
            r == old(self).next_id,
            old(self).next_id < usize::MAX ==> final(self).next_id == old(self).next_id + 1,
            final(self).diagnostics == old(self).diagnostics,
    {
        let id = self.next_id;
        if self.next_id < usize::MAX {
            self.next_id = self.next_id + 1;
        }
        id
    }

    /// Report a diagnostic.
    pub fn emit(&mut self, d: Diagnostic)
        ensures
            final(self).diagnostics@ == old(self).diagnostics@.push(d),
            final(self).next_id == old(self).next_id,
    {
        self.diagnostics.push(d);
    }
}

/// Builds nodes on behalf of one expression.
pub struct Builder {
    /// The span of the expression being lowered.
    pub span: Span,
    /// The expression being lowered.
    pub expr: NodeId,
    /// The parametrization of the expression being lowered.
    pub env: ParamEnv,
}

impl Builder {
    /// A builder for a different node, under the same parametrization.
    pub fn with(&self, cx: &Context, expr: NodeId) -> (r: Builder)
        ensures
            r.expr == expr,
            r.env == self.env,
            expr < cx.nodes@.len() ==> r.span == cx.nodes@[expr as int].span,
    {
        let span = if expr < cx.nodes.len() {
            cx.nodes[expr].span
        } else {
            self.span
        };
        Builder { span, expr, env: self.env }
    }

    /// Allocate a node of the given type and kind.
    pub fn build(&self, s: &mut Session, ty: Rc<Ty>, kind: LvalueKind) -> (r: Lvalue)
        ensures
            r.id == old(s).next_id,
            old(s).next_id < usize::MAX ==> final(s).next_id == old(s).next_id + 1,
            r.ty == ty,
            r.kind == kind,
            r.origin == self.expr,
            r.env == self.env,
            r.span == self.span,
            final(s).diagnostics == old(s).diagnostics,
    {
        let id = s.alloc_id();
        Lvalue { id, origin: self.expr, env: self.env, span: self.span, ty, kind }
    }

    /// A marker node for a part of the IR that could not be built.
    pub fn error(&self, s: &mut Session) -> (r: Lvalue)
        ensures
            *r.ty is Error,
            r.kind is Error,
            r.id == old(s).next_id,
            old(s).next_id < usize::MAX ==> final(s).next_id == old(s).next_id + 1,
            r.origin == self.expr,
            r.span == self.span,
            r.env == self.env,
            final(s).diagnostics == old(s).diagnostics,
    {
        self.build(s, Rc::new(Ty::Error), LvalueKind::Error)
    }
}

} // verus!
