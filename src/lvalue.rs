//! Lowering of assignment targets to lvalue nodes.
use crate::hir::{CastOp, CastType, Context, ExprKind, HirNode, IndexBase, IndexMode, IntfMember};
use crate::mir::{Builder, DiagKind, Diagnostic, Lvalue, LvalueKind, NodeId, Rvalue, Session};
use crate::pack::{pack_simple_bit_vector, packs};
use crate::ty::{bit_width, coalesces, domain_of, identical, lemma_identical_refl, packable, sbv, sbv_of, Dim, Sign, Ty};
use std::rc::Rc;
use vstd::prelude::*;

verus! {

/// A consistency fault: a fact handed in by an earlier stage contradicts
/// another. It marks a bug upstream, not a mistake in the design.
#[derive(Clone, Copy, Debug, PartialEq, Eq, Structural)]
pub enum Fault {
    /// The node asked for is not an expression.
    NotAnExpr(NodeId),
    /// The expression depends on itself.
    Cycle(NodeId),
    /// The target of an index has no dimension.
    NotIndexable(NodeId),
    /// An operand of a concatenation is not a flat bit vector.
    NotScalar(NodeId),
    /// A concatenation is wider than a `u64` can count.
    TooWide(NodeId),
    /// A repetition count is negative or too large.
    BadRepeat(NodeId),
    /// A value is not of the type the cast chain expects.
    TypeMismatch(NodeId),
    /// A cast that has no meaning on an assignment target.
    UnsupportedCast(CastOp),
    /// A value that should be packed has no bit layout.
    NotPackable(NodeId),
}

/// The type after one cast step from `t` to `target`, if the step is defined
/// on an assignment target.
pub open spec fn cast_step(op: CastOp, t: Ty, target: Ty) -> Option<Ty> {
    match op {
        CastOp::PackSBVT => if packable(t) {
            Some(sbv_of(t))
        } else {
            None
        },
        CastOp::PickModport => Some(target),
        _ => None,
    }
}

/// The type after the first `n` steps of a chain from `t`, each of which must
/// produce the type that it declares.
pub open spec fn chain_type(t: Ty, steps: Seq<(CastOp, Rc<Ty>)>, n: int) -> Option<Ty>
    decreases n,
{
    if n <= 0 || n > steps.len() {
        Some(t)
    } else {
        match chain_type(t, steps, n - 1) {
            Some(u) => match cast_step(steps[n - 1].0, u, *steps[n - 1].1) {
                Some(w) => if identical(w, *steps[n - 1].1) {
                    Some(w)
                } else {
                    None
                },
                None => None,
            },
            None => None,
        }
    }
}

/// A chain that takes a value of type `t` to the chain's final type.
pub open spec fn chain_fits(t: Ty, to: CastType) -> bool {
    &&& identical(t, *to.init)
    &&& chain_type(t, to.casts@, to.casts@.len() as int) is Some
    &&& identical(chain_type(t, to.casts@, to.casts@.len() as int)->0, *to.ty)
}

proof fn lemma_chain_none(t: &Ty, steps: Seq<(CastOp, Rc<Ty>)>, i: int, n: int)
    requires
        0 <= i <= n <= steps.len(),
        chain_type(*t, steps, i) is None,
    ensures
        chain_type(*t, steps, n) is None,
    decreases n,
{
    if i < n {
        lemma_chain_none(t, steps, i, n - 1);
    }
}

/// A chain that the type checker gave up on.
pub open spec fn chain_failed(to: CastType) -> bool {
    *to.init is Error || *to.ty is Error
}

/// Apply a cast chain to a value.
pub fn lower_cast(b: &Builder, s: &mut Session, value: Lvalue, to: &CastType) -> (r: Result<
    Lvalue,
    Fault,
>)
    requires
        value.origin == b.expr,
        value.env == b.env,
        value.span == b.span,
        value.kind is Error ==> *value.ty is Error,
    ensures
        r is Ok ==> r->Ok_0.origin == b.expr && r->Ok_0.env == b.env && r->Ok_0.span == b.span,
        r is Ok && !(value.kind is Error) && !chain_failed(*to) ==> !(r->Ok_0.kind is Error),
        r is Ok && r->Ok_0.kind is Error ==> *r->Ok_0.ty is Error,
        value.kind is Error ==> r == Ok::<Lvalue, Fault>(value),
        !(value.kind is Error) && chain_failed(*to) ==> r is Ok && r->Ok_0.kind is Error,
        !(value.kind is Error) && !chain_failed(*to) ==> (r is Ok <==> chain_fits(
            *value.ty,
            *to,
        )),
        r is Ok && !(r->Ok_0.kind is Error) ==> *r->Ok_0.ty == chain_type(
            *value.ty,
            to.casts@,
            to.casts@.len() as int,
        )->0 && identical(*r->Ok_0.ty, *to.ty),
        r is Ok && !chain_failed(*to) && to.casts@.len() == 0 ==> r->Ok_0 == value,
        r is Ok && !(value.kind is Error) && !chain_failed(*to) && to.casts@.len() == 1
            && to.casts@[0].0 == CastOp::PickModport ==> r->Ok_0.kind == value.kind,
        r is Ok && !(value.kind is Error) && !chain_failed(*to) && to.casts@.len() == 1
            && to.casts@[0].0 == CastOp::PackSBVT ==> packs(value, r->Ok_0),
        final(s).diagnostics == old(s).diagnostics,
{
    if value.is_error() {
        return Ok(value);
    }
    if to.is_error() {
        return Ok(b.error(s));
    }
    if !value.ty.is_identical(&to.init) {
        return Err(Fault::TypeMismatch(value.origin));
    }
    let ghost start = value;
    let mut cur = value;
    let mut i: usize = 0;
    while i < to.casts.len()
        invariant
            start == value,
            !(start.kind is Error),
            !chain_failed(*to),
            identical(*start.ty, *to.init),
            i <= to.casts@.len(),
            !(cur.kind is Error),
            cur.origin == b.expr,
            cur.env == b.env,
            cur.span == b.span,
            chain_type(*start.ty, to.casts@, i as int) == Some(*cur.ty),
            i == 0 ==> cur == start,
            i == 1 && to.casts@[0].0 == CastOp::PickModport ==> cur.kind == start.kind,
            i == 1 && to.casts@[0].0 == CastOp::PackSBVT ==> packs(start, cur),
            s.diagnostics == old(s).diagnostics,
        decreases to.casts@.len() - i,
    {
        let (op, target) = (to.casts[i].0, &to.casts[i].1);
        match op {
            CastOp::PackSBVT => {
                if cur.ty.packed_width().is_none() {
                    proof {
                        lemma_chain_none(&start.ty, to.casts@, i as int + 1, to.casts@.len() as int);
                    }
                    return Err(Fault::NotPackable(cur.origin));
                }
                cur = pack_simple_bit_vector(b, s, Rc::new(cur));
            },
            CastOp::PickModport => {
                let kind = cur.kind.share();
                cur = b.build(s, Rc::clone(target), kind);
            },
            _ => {
                proof {
                    lemma_chain_none(&start.ty, to.casts@, i as int + 1, to.casts@.len() as int);
                }
                return Err(Fault::UnsupportedCast(op));
            },
        }
        if !cur.ty.is_identical(target) {
            proof {
                lemma_chain_none(&start.ty, to.casts@, i as int + 1, to.casts@.len() as int);
            }
            return Err(Fault::TypeMismatch(cur.origin));
        }
        i += 1;
    }
    if !cur.ty.is_identical(&to.ty) {
        return Err(Fault::TypeMismatch(cur.origin));
    }
    Ok(cur)
}

/// The offset and element count that an index form selects, before the
/// offset is re-based on the target's dimension.
pub open spec fn index_of(mode: IndexMode) -> Option<(IndexBase, u64)> {
    match mode {
        IndexMode::One(base) => Some((base, 1)),
        IndexMode::Part { msb, lsb } => {
            let lo = if msb < lsb { msb } else { lsb };
            let hi = if msb < lsb { lsb } else { msb };
            if hi - lo + 1 <= u64::MAX {
                Some((IndexBase::Const(lo), (hi - lo + 1) as u64))
            } else {
                None
            }
        },
    }
}

/// The offset that an index form selects, before re-basing.
pub open spec fn index_base(mode: IndexMode) -> IndexBase {
    match index_of(mode) {
        Some((base, _)) => base,
        None => IndexBase::Const(0),
    }
}

/// The number of elements that an index form selects.
pub open spec fn index_len(mode: IndexMode) -> u64 {
    match index_of(mode) {
        Some((_, len)) => len,
        None => 0,
    }
}

/// Normalize an index form to an offset and an element count.
pub fn compute_indexing(mode: IndexMode) -> (r: Option<(IndexBase, u64)>)
    ensures
        r == index_of(mode),
{
    match mode {
        IndexMode::One(base) => Some((base, 1)),
        IndexMode::Part { msb, lsb } => {
            let lo = if msb < lsb { msb } else { lsb };
            let hi = if msb < lsb { lsb } else { msb };
            let len: i128 = hi as i128 - lo as i128 + 1;
            if len <= u64::MAX as i128 {
                Some((IndexBase::Const(lo), len as u64))
            } else {
                None
            }
        },
    }
}

/// An offset re-based to count from the low end of dimension `dim`.
pub open spec fn adjusted(base: IndexBase, dim: Dim) -> Rvalue {
    match base {
        IndexBase::Const(k) => Rvalue::Const((k - dim.lo) as i128),
        IndexBase::Dynamic(e) => if dim.lo == 0 {
            Rvalue::Value(e)
        } else {
            Rvalue::Offset { value: e, by: dim.lo }
        },
    }
}

/// Re-base an offset on the declared low bound of a dimension, so that `x[1]`
/// into `[2:1]` reads element 0.
pub fn adjust_indexing(base: IndexBase, dim: Dim) -> (r: Rvalue)
    ensures
        r == adjusted(base, dim),
{
    match base {
        IndexBase::Const(k) => Rvalue::Const(k as i128 - dim.lo as i128),
        IndexBase::Dynamic(e) => if dim.lo == 0 {
            Rvalue::Value(e)
        } else {
            Rvalue::Offset { value: e, by: dim.lo }
        },
    }
}

/// The kind of node that assigning to a name bound to declaration `decl`
/// yields, when the name has type `ty`.
pub open spec fn binding_kind(decl: HirNode, d: NodeId, ty: Ty) -> Option<LvalueKind> {
    match decl {
        HirNode::GenvarDecl => Some(LvalueKind::Genvar(d)),
        HirNode::VarDecl => Some(LvalueKind::Var(d)),
        HirNode::IntPort => if ty is Intf {
            Some(LvalueKind::Intf(d))
        } else {
            Some(LvalueKind::Port(d))
        },
        HirNode::Inst => if ty is Intf {
            Some(LvalueKind::Intf(d))
        } else {
            None
        },
        _ => None,
    }
}

fn target_of_binding(decl: &HirNode, d: NodeId, ty: &Ty) -> (r: Option<LvalueKind>)
    ensures
        r == binding_kind(*decl, d, *ty),
{
    let intf = matches!(ty, Ty::Intf { .. });
    match decl {
        HirNode::GenvarDecl => Some(LvalueKind::Genvar(d)),
        HirNode::VarDecl => Some(LvalueKind::Var(d)),
        HirNode::IntPort => if intf {
            Some(LvalueKind::Intf(d))
        } else {
            Some(LvalueKind::Port(d))
        },
        HirNode::Inst => if intf {
            Some(LvalueKind::Intf(d))
        } else {
            None
        },
        _ => None,
    }
}

/// The declaration that expression `id` names, with its node.
pub open spec fn resolved(cx: Context, id: NodeId) -> Option<(NodeId, HirNode)> {
    match cx.nodes@[id as int].binding {
        Some(d) => if d < cx.nodes@.len() {
            match cx.nodes@[d as int].hir {
                Some(h) => Some((d, h)),
                None => None,
            }
        } else {
            None
        },
        None => None,
    }
}

/// The kind of node that a name expression `id` of type `ty` lowers to.
pub open spec fn ident_kind(cx: Context, id: NodeId, ty: Ty) -> Option<LvalueKind> {
    match resolved(cx, id) {
        Some((d, h)) => binding_kind(h, d, ty),
        None => None,
    }
}

/// The type that expression `t` ends with after its cast chain.
pub open spec fn final_type(cx: Context, t: NodeId) -> Ty {
    chain_type(
        *cx.nodes@[t as int].cast->0.init,
        cx.nodes@[t as int].cast->0.casts@,
        cx.nodes@[t as int].cast->0.casts@.len() as int,
    )->0
}

/// Expression `t` has a cast chain that applies to its initial type.
pub open spec fn cast_fits(cx: Context, t: NodeId) -> bool {
    &&& t < cx.nodes@.len()
    &&& cx.nodes@[t as int].cast is Some
    &&& !chain_failed(cx.nodes@[t as int].cast->0)
    &&& chain_fits(*cx.nodes@[t as int].cast->0.init, cx.nodes@[t as int].cast->0)
}

/// The self-determined type of expression `t` is an interface.
pub open spec fn target_is_intf(cx: Context, t: NodeId) -> bool {
    match cx.nodes@[t as int].self_ty {
        Some(ty) => *ty is Intf,
        None => false,
    }
}

/// Expression `t` is a name with a cast chain of no steps.
pub open spec fn plain_name(cx: Context, t: NodeId) -> bool {
    &&& (expr_kind(cx, t) matches Some(ExprKind::Ident) || expr_kind(cx, t) matches Some(
        ExprKind::Scope,
    ))
    &&& cx.nodes@[t as int].cast is Some
    &&& cx.nodes@[t as int].cast->0.casts@.len() == 0
}

/// Expression `id` is, or reaches through indexes and field accesses, a
/// mistake of the user's: a name that cannot be assigned, or a form that
/// cannot be assigned. Each step on the way has a usable initial type.
pub open spec fn fails(cx: Context, id: NodeId) -> bool
    decreases id, usize::MAX + 1,
{
    &&& id < cx.nodes@.len()
    &&& cx.nodes@[id as int].cast is Some
    &&& !(*cx.nodes@[id as int].cast->0.init is Error)
    &&& match expr_kind(cx, id) {
        Some(ExprKind::Ident) | Some(ExprKind::Scope) => resolved(cx, id) is Some && ident_kind(
            cx,
            id,
            *cx.nodes@[id as int].cast->0.init,
        ) is None,
        Some(ExprKind::Call) | Some(ExprKind::Other) => true,
        Some(ExprKind::Index { target, mode }) => target < id && index_of(mode) is Some && fails(
            cx,
            target,
        ),
        Some(ExprKind::Field { target }) => target < id && fails(cx, target),
        Some(ExprKind::Concat { exprs, .. }) => exprs@.len() <= usize::MAX && phase(
            cx,
            exprs@,
            id,
            exprs@.len() as int,
        ) == 1,
        _ => false,
    }
}

/// An operand that lowers, without a diagnostic, to a flat vector.
pub open spec fn operand_good(cx: Context, e: NodeId) -> bool {
    &&& cast_fits(cx, e)
    &&& coalesces(final_type(cx, e))
    &&& packable(final_type(cx, e))
    &&& lowerable(cx, e)
}

/// How the first `n` operands of concatenation `id` lower: 0 when all are
/// good and their widths fit, 1 when the first one that is not good fails
/// and all after it lower, 2 otherwise.
pub open spec fn phase(cx: Context, exprs: Seq<NodeId>, id: NodeId, n: int) -> int
    decreases id, n,
{
    if n <= 0 || n > exprs.len() {
        0
    } else {
        let p = phase(cx, exprs, id, n - 1);
        let e = exprs[n - 1];
        if e >= id {
            2
        } else if p == 0 {
            if operand_good(cx, e) && operands_width(cx, exprs, n) <= u64::MAX {
                0
            } else if fails(cx, e) {
                1
            } else {
                2
            }
        } else if p == 1 {
            if lowerable(cx, e) && cast_fits(cx, e) {
                1
            } else {
                2
            }
        } else {
            2
        }
    }
}

/// The diagnostic of the failing operand among the first `n`.
pub open spec fn phase_root(cx: Context, exprs: Seq<NodeId>, id: NodeId, n: int) -> Diagnostic
    decreases id, n,
{
    if n <= 0 || n > exprs.len() {
        Diagnostic { kind: DiagKind::NotAssignable, node: id, span: cx.nodes@[id as int].span }
    } else if phase(cx, exprs, id, n - 1) == 0 && exprs[n - 1] < id {
        root_diagnostic(cx, exprs[n - 1])
    } else {
        phase_root(cx, exprs, id, n - 1)
    }
}

/// The one diagnostic that a failing expression reports: the one of the
/// mistake it reaches.
pub open spec fn root_diagnostic(cx: Context, id: NodeId) -> Diagnostic
    decreases id, usize::MAX + 1,
{
    match expr_kind(cx, id) {
        Some(ExprKind::Concat { exprs, .. }) => if exprs@.len() <= usize::MAX {
            phase_root(cx, exprs@, id, exprs@.len() as int)
        } else {
            Diagnostic { kind: DiagKind::NotAssignable, node: id, span: cx.nodes@[id as int].span }
        },
        Some(ExprKind::Index { target, .. }) | Some(ExprKind::Field { target }) => if target < id {
            root_diagnostic(cx, target)
        } else {
            Diagnostic { kind: DiagKind::NotAssignable, node: id, span: cx.nodes@[id as int].span }
        },
        Some(ExprKind::Ident) | Some(ExprKind::Scope) => Diagnostic {
            kind: DiagKind::NotATarget,
            node: id,
            span: cx.nodes@[id as int].span,
        },
        _ => Diagnostic { kind: DiagKind::NotAssignable, node: id, span: cx.nodes@[id as int].span },
    }
}

/// Expression `id` lowers to a node that is not an error: names resolve to
/// an assignable declaration, the operands of indexes, field accesses and
/// concatenations are lowerable, with casts that fit, and a concatenation has
/// the type that its operands make up.
pub open spec fn lowerable(cx: Context, id: NodeId) -> bool
    decreases id, usize::MAX + 1,
{
    match expr_kind(cx, id) {
        Some(ExprKind::Ident) | Some(ExprKind::Scope) => cx.nodes@[id as int].cast is Some
            && ident_kind(cx, id, *cx.nodes@[id as int].cast->0.init) is Some,
        Some(ExprKind::Index { target, mode }) => {
            &&& target < id
            &&& index_of(mode) is Some
            &&& cast_fits(cx, target)
            &&& final_type(cx, target) is Array
            &&& lowerable(cx, target)
        },
        Some(ExprKind::Field { target }) => {
            &&& target < id
            &&& cast_fits(cx, target)
            &&& if target_is_intf(cx, target) {
                cx.nodes@[id as int].member is Some
            } else {
                cx.nodes@[id as int].field is Some
            }
            &&& lowerable(cx, target)
        },
        Some(ExprKind::Concat { repeat, exprs }) => {
            &&& cx.nodes@[id as int].cast is Some
            &&& exprs@.len() <= usize::MAX
            &&& operands_lowerable(cx, exprs@, id, exprs@.len() as int)
            &&& operands_width(cx, exprs@, exprs@.len() as int) <= u64::MAX
            &&& cx.nodes@[id as int].self_ty is Some
            &&& !(*cx.nodes@[id as int].self_ty->0 is Error)
            &&& match repeat {
                None => sbv(
                    domain_of(*cx.nodes@[id as int].self_ty->0),
                    Sign::Unsigned,
                    operands_width(cx, exprs@, exprs@.len() as int),
                ) == *cx.nodes@[id as int].cast->0.init,
                Some(rid) => {
                    &&& rid < cx.nodes@.len()
                    &&& cx.nodes@[rid as int].constant is Some
                    &&& 0 <= cx.nodes@[rid as int].constant->0 <= u64::MAX
                    &&& *cx.nodes@[id as int].self_ty->0 == *cx.nodes@[id as int].cast->0.init
                },
            }
        },
        _ => false,
    }
}

/// The first `n` operands of concatenation `id` are lowerable flat vectors.
pub open spec fn operands_lowerable(cx: Context, exprs: Seq<NodeId>, id: NodeId, n: int) -> bool
    decreases id, n,
{
    if n <= 0 || n > exprs.len() {
        true
    } else {
        &&& operands_lowerable(cx, exprs, id, n - 1)
        &&& exprs[n - 1] < id
        &&& cast_fits(cx, exprs[n - 1])
        &&& coalesces(final_type(cx, exprs[n - 1]))
        &&& packable(final_type(cx, exprs[n - 1]))
        &&& lowerable(cx, exprs[n - 1])
    }
}

proof fn lemma_operand(cx: Context, exprs: Seq<NodeId>, id: NodeId, i: int, n: int)
    requires
        0 <= i < n <= exprs.len(),
        operands_lowerable(cx, exprs, id, n),
    ensures
        exprs[i] < id,
        cast_fits(cx, exprs[i]),
        coalesces(final_type(cx, exprs[i])),
        packable(final_type(cx, exprs[i])),
        lowerable(cx, exprs[i]),
    decreases n,
{
    if i < n - 1 {
        lemma_operand(cx, exprs, id, i, n - 1);
    }
}

proof fn lemma_phase_stuck(cx: Context, exprs: Seq<NodeId>, id: NodeId, i: int, n: int)
    requires
        0 <= i <= n <= exprs.len(),
        phase(cx, exprs, id, n) != 2,
    ensures
        phase(cx, exprs, id, i) != 2,
    decreases n,
{
    if i < n {
        lemma_phase_stuck(cx, exprs, id, i, n - 1);
    }
}

proof fn lemma_operands_width_mono(cx: Context, exprs: Seq<NodeId>, i: int, n: int)
    requires
        0 <= i <= n <= exprs.len(),
    ensures
        operands_width(cx, exprs, i) <= operands_width(cx, exprs, n),
    decreases n,
{
    if i < n {
        lemma_operands_width_mono(cx, exprs, i, n - 1);
    }
}

/// Total width of the final types of the first `n` operands.
pub open spec fn operands_width(cx: Context, exprs: Seq<NodeId>, n: int) -> nat
    decreases n,
{
    if n <= 0 || n > exprs.len() {
        0
    } else {
        operands_width(cx, exprs, n - 1) + bit_width(final_type(cx, exprs[n - 1]))
    }
}

/// `r`, not an error, is built for index, field or concatenation expression
/// `id`, before casts: it reads operands that lowered without error.
pub open spec fn access_built(cx: Context, id: NodeId, r: Lvalue) -> bool {
    match expr_kind(cx, id) {
        Some(ExprKind::Index { target, mode }) => match r.kind {
            LvalueKind::Index { value, base, length } => {
                &&& value.origin == target
                &&& !(value.kind is Error)
                &&& index_of(mode) is Some
                &&& length == index_len(mode)
                &&& *value.ty is Array
                &&& base == adjusted(index_base(mode), value.ty->Array_dim)
            },
            _ => false,
        },
        Some(ExprKind::Field { target }) => (target_is_intf(cx, target)
            && cx.nodes@[id as int].member == Some(IntfMember::Modport) && (plain_name(cx, target)
            ==> ident_kind(cx, target, *cx.nodes@[target as int].cast->0.init) == Some(r.kind)))
            || match r.kind {
            LvalueKind::Member { value, field } => {
                &&& !target_is_intf(cx, target)
                &&& value.origin == target
                &&& !(value.kind is Error)
                &&& cx.nodes@[id as int].field == Some(field)
            },
            LvalueKind::IntfSignal(value, m) => {
                &&& target_is_intf(cx, target)
                &&& value.origin == target
                &&& !(value.kind is Error)
                &&& cx.nodes@[id as int].member == Some(IntfMember::Signal(m))
            },
            _ => false,
        },
        Some(ExprKind::Concat { repeat, exprs }) => cx.nodes@[id as int].self_ty is Some
            && match r.kind {
            LvalueKind::Concat(items) => {
                &&& repeat is None
                &&& lowers_operands(items@, exprs@)
                &&& *r.ty == sbv(
                    domain_of(*cx.nodes@[id as int].self_ty->0),
                    Sign::Unsigned,
                    items_width(items@, exprs@.len() as int),
                )
            },
            LvalueKind::Repeat(count, inner) => {
                &&& repeat is Some
                &&& r.ty == cx.nodes@[id as int].self_ty->0
                &&& cx.nodes@[repeat->0 as int].constant == Some(count as i128)
                &&& match inner.kind {
                    LvalueKind::Concat(items) => lowers_operands(items@, exprs@),
                    _ => false,
                }
            },
            _ => false,
        },
        _ => true,
    }
}

/// `r` is what name expression `id` lowers to when its cast chain is empty.
pub open spec fn ident_lowered(cx: Context, id: NodeId, r: Lvalue) -> bool {
    &&& ident_kind(cx, id, *cx.nodes@[id as int].cast->0.init) == Some(r.kind)
    &&& *r.ty == *cx.nodes@[id as int].cast->0.init
}

/// The shape of expression `id`, if it is one.
pub open spec fn expr_kind(cx: Context, id: NodeId) -> Option<ExprKind> {
    if id < cx.nodes@.len() {
        match cx.nodes@[id as int].hir {
            Some(HirNode::Expr(k)) => Some(k),
            _ => None,
        }
    } else {
        None
    }
}

/// Every diagnostic after the first `n` is about a node before `id`.
pub open spec fn only_from_operands(d: Seq<Diagnostic>, n: int, id: NodeId) -> bool {
    forall|j: int| n <= j < d.len() ==> #[trigger] d[j].node < id
}

/// Every diagnostic after the first `n` is about `id` or a node before it.
pub open spec fn only_from_within(d: Seq<Diagnostic>, n: int, id: NodeId) -> bool {
    forall|j: int| n <= j < d.len() ==> #[trigger] d[j].node <= id
}

/// Lower expression `id` to an lvalue, with every implicit cast made explicit.
///
/// Resolution failures upstream give an `Error` node; an expression that
/// cannot be assigned to also reports a diagnostic. A composite whose operand
/// lowers to `Error` is itself `Error` and reports nothing of its own.
pub fn mir_lvalue(cx: &Context, s: &mut Session, id: NodeId) -> (r: Result<Lvalue, Fault>)
    ensures
        old(s).diagnostics@.is_prefix_of(final(s).diagnostics@),
        only_from_within(final(s).diagnostics@, old(s).diagnostics@.len() as int, id),
        r is Ok ==> r->Ok_0.origin == id && r->Ok_0.env == cx.env,
        r is Ok && id < cx.nodes@.len() ==> r->Ok_0.span == cx.nodes@[id as int].span,
        lowerable(*cx, id) && cast_fits(*cx, id) ==> r is Ok && !(r->Ok_0.kind is Error)
            && *r->Ok_0.ty == final_type(*cx, id) && final(s).diagnostics == old(s).diagnostics,
        fails(*cx, id) ==> r is Ok && r->Ok_0.kind is Error && final(s).diagnostics@
            == old(s).diagnostics@.push(root_diagnostic(*cx, id)),
        r is Ok && r->Ok_0.kind is Error ==> *r->Ok_0.ty is Error,
        r is Ok && !(r->Ok_0.kind is Error) ==> expr_kind(*cx, id) is Some
            && cx.nodes@[id as int].cast is Some && identical(
            *r->Ok_0.ty,
            *cx.nodes@[id as int].cast->0.ty,
        ),
        expr_kind(*cx, id) is None && (id >= cx.nodes@.len() || cx.nodes@[id as int].hir is None)
            ==> r is Ok && r->Ok_0.kind is Error && final(s).diagnostics == old(s).diagnostics,
        match expr_kind(*cx, id) {
            Some(ExprKind::Index { .. }) | Some(ExprKind::Field { .. }) | Some(
                ExprKind::Concat { .. },
            ) => only_from_operands(final(s).diagnostics@, old(s).diagnostics@.len() as int, id),
            _ => true,
        },
        (expr_kind(*cx, id) matches Some(ExprKind::Ident) || expr_kind(*cx, id) matches Some(
            ExprKind::Scope,
        )) && r is Ok && !(r->Ok_0.kind is Error) && cx.nodes@[id as int].cast->0.casts@.len()
            == 0 ==> ident_lowered(*cx, id, r->Ok_0),
        r is Ok && !(r->Ok_0.kind is Error) && cx.nodes@[id as int].cast->0.casts@.len() == 0
            ==> access_built(*cx, id, r->Ok_0),
        r is Ok && !(r->Ok_0.kind is Error) ==> !(expr_kind(*cx, id) matches Some(ExprKind::Call))
            && !(expr_kind(*cx, id) matches Some(ExprKind::Other)),
        id < cx.nodes@.len() && cx.nodes@[id as int].hir is Some && !(cx.nodes@[id as int].hir
            matches Some(HirNode::Expr(_))) ==> r == Err::<Lvalue, Fault>(Fault::NotAnExpr(id)),
        expr_kind(*cx, id) is Some && cx.nodes@[id as int].cast is None ==> r is Ok
            && r->Ok_0.kind is Error && final(s).diagnostics == old(s).diagnostics,
        expr_kind(*cx, id) is Some && cx.nodes@[id as int].cast is Some
            && *cx.nodes@[id as int].cast->0.init is Error ==> r is Ok && r->Ok_0.kind is Error
            && final(s).diagnostics == old(s).diagnostics,
        (expr_kind(*cx, id) matches Some(ExprKind::Call) || expr_kind(*cx, id) matches Some(
            ExprKind::Other,
        )) && cx.nodes@[id as int].cast is Some && !(*cx.nodes@[id as int].cast->0.init is Error)
            ==> r is Ok && r->Ok_0.kind is Error && final(s).diagnostics@
            == old(s).diagnostics@.push(
            Diagnostic {
                kind: DiagKind::NotAssignable,
                node: id,
                span: cx.nodes@[id as int].span,
            },
        ),
        (expr_kind(*cx, id) matches Some(ExprKind::Ident) || expr_kind(*cx, id) matches Some(
            ExprKind::Scope,
        )) && cx.nodes@[id as int].cast is Some && !(*cx.nodes@[id as int].cast->0.init is Error)
            ==> final(s).diagnostics@ == if resolved(*cx, id) is Some && ident_kind(
            *cx,
            id,
            *cx.nodes@[id as int].cast->0.init,
        ) is None {
            old(s).diagnostics@.push(
                Diagnostic {
                    kind: DiagKind::NotATarget,
                    node: id,
                    span: cx.nodes@[id as int].span,
                },
            )
        } else {
            old(s).diagnostics@
        },
        (expr_kind(*cx, id) matches Some(ExprKind::Ident) || expr_kind(*cx, id) matches Some(
            ExprKind::Scope,
        )) && cx.nodes@[id as int].cast is Some && !chain_failed(cx.nodes@[id as int].cast->0) ==> (
        r is Ok <==> (ident_kind(*cx, id, *cx.nodes@[id as int].cast->0.init) is None
            || chain_fits(*cx.nodes@[id as int].cast->0.init, cx.nodes@[id as int].cast->0))),
    decreases id, 2int,
{
    let b = Builder {
        span: if id < cx.nodes.len() {
            cx.nodes[id].span
        } else {
            crate::mir::Span { begin: 0, end: 0 }
        },
        expr: id,
        env: cx.env,
    };
    if id >= cx.nodes.len() {
        return Ok(b.error(s));
    }
    let node = &cx.nodes[id];
    match &node.hir {
        Some(HirNode::Expr(_)) => {},
        Some(_) => {
            return Err(Fault::NotAnExpr(id));
        },
        None => {
            return Ok(b.error(s));
        },
    }
    let cast = match &node.cast {
        Some(c) => c,
        None => {
            return Ok(b.error(s));
        },
    };
    let lvalue = lower_expr_inner(cx, s, &b, id, Rc::clone(&cast.init))?;
    if lvalue.is_error() {
        return Ok(lvalue);
    }
    proof {
        lemma_identical_refl(&cast.init);
    }
    if !lvalue.ty.is_identical(&cast.init) {
        return Err(Fault::TypeMismatch(id));
    }
    lower_cast(&b, s, lvalue, cast)
}

/// Lower expression `id` to an lvalue of type `ty`, before any cast.
fn lower_expr_inner(cx: &Context, s: &mut Session, b: &Builder, id: NodeId, ty: Rc<Ty>) -> (r:
    Result<Lvalue, Fault>)
    requires
        expr_kind(*cx, id) is Some,
        b.expr == id,
        b.env == cx.env,
        b.span == cx.nodes@[id as int].span,
    ensures
        old(s).diagnostics@.is_prefix_of(final(s).diagnostics@),
        only_from_within(final(s).diagnostics@, old(s).diagnostics@.len() as int, id),
        r is Ok ==> r->Ok_0.origin == id && r->Ok_0.env == cx.env && r->Ok_0.span == b.span,
        r is Ok && r->Ok_0.kind is Error ==> *r->Ok_0.ty is Error,
        *ty is Error ==> r is Ok && r->Ok_0.kind is Error && final(s).diagnostics
            == old(s).diagnostics,
        match expr_kind(*cx, id)->0 {
            ExprKind::Index { .. } | ExprKind::Field { .. } | ExprKind::Concat { .. } =>
                only_from_operands(final(s).diagnostics@, old(s).diagnostics@.len() as int, id),
            ExprKind::Ident | ExprKind::Scope => r is Ok && !(r->Ok_0.kind is Error) ==> ident_kind(
                *cx,
                id,
                *ty,
            ) == Some(r->Ok_0.kind) && r->Ok_0.ty == ty,
            _ => true,
        },
        r is Ok && !(r->Ok_0.kind is Error) ==> access_built(*cx, id, r->Ok_0),
        r is Ok && !(r->Ok_0.kind is Error) ==> !(expr_kind(*cx, id) matches Some(ExprKind::Call))
            && !(expr_kind(*cx, id) matches Some(ExprKind::Other)),
        r is Ok && !(r->Ok_0.kind is Error) && !(expr_kind(*cx, id) matches Some(
            ExprKind::Concat { .. },
        )) ==> r->Ok_0.ty == ty,
        lowerable(*cx, id) && cx.nodes@[id as int].cast is Some && ty
            == cx.nodes@[id as int].cast->0.init && !(*ty is Error) ==> r is Ok && !(
        r->Ok_0.kind is Error) && *r->Ok_0.ty == *ty && final(s).diagnostics == old(s).diagnostics,
        fails(*cx, id) && ty == cx.nodes@[id as int].cast->0.init ==> r is Ok && r->Ok_0.kind is Error
            && final(s).diagnostics@ == old(s).diagnostics@.push(root_diagnostic(*cx, id)),
        (expr_kind(*cx, id) matches Some(ExprKind::Call) || expr_kind(*cx, id) matches Some(
            ExprKind::Other,
        )) && !(*ty is Error) ==> r is Ok && r->Ok_0.kind is Error && final(s).diagnostics@
            == old(s).diagnostics@.push(
            Diagnostic { kind: DiagKind::NotAssignable, node: id, span: b.span },
        ),
        (expr_kind(*cx, id) matches Some(ExprKind::Ident) || expr_kind(*cx, id) matches Some(
            ExprKind::Scope,
        )) && !(*ty is Error) ==> r is Ok && (ident_kind(*cx, id, *ty) is None
            <==> r->Ok_0.kind is Error) && final(s).diagnostics@ == if resolved(*cx, id) is Some
            && ident_kind(*cx, id, *ty) is None {
            old(s).diagnostics@.push(
                Diagnostic { kind: DiagKind::NotATarget, node: id, span: b.span },
            )
        } else {
            old(s).diagnostics@
        },
    decreases id, 1int,
{
    if ty.is_error() {
        return Ok(b.error(s));
    }
    let node = &cx.nodes[id];
    let kind = match &node.hir {
        Some(HirNode::Expr(k)) => k,
        _ => {
            return Ok(b.error(s));
        },
    };
    match kind {
        ExprKind::Ident | ExprKind::Scope => {
            let d = match node.binding {
                Some(d) => d,
                None => {
                    return Ok(b.error(s));
                },
            };
            if d >= cx.nodes.len() {
                return Ok(b.error(s));
            }
            let decl = match &cx.nodes[d].hir {
                Some(h) => h,
                None => {
                    return Ok(b.error(s));
                },
            };
            match target_of_binding(decl, d, &ty) {
                Some(k) => Ok(b.build(s, ty, k)),
                None => {
                    s.emit(Diagnostic { kind: DiagKind::NotATarget, node: id, span: b.span });
                    Ok(b.error(s))
                },
            }
        },
        ExprKind::Index { target, mode } => {
            let (base, length) = match compute_indexing(*mode) {
                Some(x) => x,
                None => {
                    return Ok(b.error(s));
                },
            };
            if *target >= id {
                return Err(Fault::Cycle(id));
            }
            let value = mir_lvalue(cx, s, *target)?;
            if value.is_error() {
                return Ok(b.error(s));
            }
            let dim = match value.ty.outermost_dim() {
                Some(dim) => dim,
                None => {
                    return Err(Fault::NotIndexable(*target));
                },
            };
            let base = adjust_indexing(base, dim);
            Ok(b.build(s, ty, LvalueKind::Index { value: Rc::new(value), base, length }))
        },
        ExprKind::Field { target } => {
            if *target >= id {
                return Err(Fault::Cycle(id));
            }
            let target_is_intf = match &cx.nodes[*target].self_ty {
                Some(t) => matches!(**t, Ty::Intf { .. }),
                None => false,
            };
            let value = mir_lvalue(cx, s, *target)?;
            if value.is_error() {
                return Ok(b.error(s));
            }
            if target_is_intf {
                match node.member {
                    Some(IntfMember::Modport) => {
                        let k = value.kind.share();
                        Ok(b.build(s, ty, k))
                    },
                    Some(IntfMember::Signal(m)) => Ok(
                        b.build(s, ty, LvalueKind::IntfSignal(Rc::new(value), m)),
                    ),
                    None => Ok(b.error(s)),
                }
            } else {
                match node.field {
                    Some(f) => Ok(b.build(s, ty, LvalueKind::Member { value: Rc::new(value), field: f })),
                    None => Ok(b.error(s)),
                }
            }
        },
        ExprKind::Concat { repeat, exprs } => lower_concat(cx, s, b, id, ty, *repeat, exprs),
        _ => {
            s.emit(Diagnostic { kind: DiagKind::NotAssignable, node: id, span: b.span });
            Ok(b.error(s))
        },
    }
}

proof fn lemma_diag_chain(a: Seq<Diagnostic>, b: Seq<Diagnostic>, c: Seq<Diagnostic>, id: NodeId, e: NodeId)
    requires
        a.is_prefix_of(b),
        only_from_operands(b, a.len() as int, id),
        b.is_prefix_of(c),
        only_from_within(c, b.len() as int, e),
        e < id,
    ensures
        a.is_prefix_of(c),
        only_from_operands(c, a.len() as int, id),
{
    assert forall|j: int| a.len() <= j < c.len() implies #[trigger] c[j].node < id by {
        if j < b.len() {
            assert(c[j] == b[j]);
        }
    }
    assert forall|j: int| 0 <= j < a.len() implies c[j] == a[j] by {
        assert(c[j] == b[j]);
    }
}

/// Total width of the first `n` items.
pub open spec fn items_width(items: Seq<Rc<Lvalue>>, n: int) -> nat
    decreases n,
{
    if n <= 0 || n > items.len() {
        0
    } else {
        items_width(items, n - 1) + bit_width(*items[n - 1].ty)
    }
}

proof fn lemma_items_width_prefix(a: Seq<Rc<Lvalue>>, b: Seq<Rc<Lvalue>>, n: int)
    requires
        0 <= n <= a.len() <= b.len(),
        forall|j: int| 0 <= j < a.len() ==> a[j] == b[j],
    ensures
        items_width(a, n) == items_width(b, n),
    decreases n,
{
    if n > 0 {
        lemma_items_width_prefix(a, b, n - 1);
    }
}

/// The items of a concatenation lower the operands `exprs`, in order.
pub open spec fn lowers_operands(items: Seq<Rc<Lvalue>>, exprs: Seq<NodeId>) -> bool {
    &&& items.len() == exprs.len()
    &&& forall|i: int|
        0 <= i < items.len() ==> (#[trigger] items[i]).origin == exprs[i] && coalesces(
            *items[i].ty,
        ) && !(items[i].kind is Error)
}

/// Lower a concatenation, with an optional repetition count.
fn lower_concat(
    cx: &Context,
    s: &mut Session,
    b: &Builder,
    id: NodeId,
    ty: Rc<Ty>,
    repeat: Option<NodeId>,
    exprs: &Vec<NodeId>,
) -> (r: Result<Lvalue, Fault>)
    requires
        id < cx.nodes@.len(),
        b.expr == id,
        b.env == cx.env,
        expr_kind(*cx, id) == Some(ExprKind::Concat { repeat, exprs: *exprs }),
    ensures
        lowerable(*cx, id) && ty == cx.nodes@[id as int].cast->0.init ==> r is Ok && !(
        r->Ok_0.kind is Error) && *r->Ok_0.ty == *ty && final(s).diagnostics
            == old(s).diagnostics,
        fails(*cx, id) ==> r is Ok && r->Ok_0.kind is Error && final(s).diagnostics@
            == old(s).diagnostics@.push(root_diagnostic(*cx, id)),
        old(s).diagnostics@.is_prefix_of(final(s).diagnostics@),
        only_from_operands(final(s).diagnostics@, old(s).diagnostics@.len() as int, id),
        r is Ok ==> r->Ok_0.origin == id && r->Ok_0.env == cx.env && r->Ok_0.span == b.span,
        r is Ok && r->Ok_0.kind is Error ==> *r->Ok_0.ty is Error,
        r is Ok && !(r->Ok_0.kind is Error) && repeat is None ==> r->Ok_0.kind is Concat
            && lowers_operands(r->Ok_0.kind->Concat_0@, exprs@) && cx.nodes@[id as int].self_ty is Some
            && *r->Ok_0.ty == sbv(
            crate::ty::domain_of(*cx.nodes@[id as int].self_ty->0),
            Sign::Unsigned,
            items_width(r->Ok_0.kind->Concat_0@, exprs@.len() as int),
        ),
        r is Ok && !(r->Ok_0.kind is Error) && repeat is Some ==> r->Ok_0.kind is Repeat
            && r->Ok_0.kind->Repeat_1.kind is Concat && lowers_operands(
            r->Ok_0.kind->Repeat_1.kind->Concat_0@,
            exprs@,
        ) && cx.nodes@[id as int].self_ty is Some && r->Ok_0.ty
            == cx.nodes@[id as int].self_ty->0 && cx.nodes@[repeat->0 as int].constant
            == Some(r->Ok_0.kind->Repeat_0 as i128),
    decreases id, 0int,
{
    let mut items: Vec<Rc<Lvalue>> = Vec::new();
    let mut width: u64 = 0;
    let mut failed = false;
    let mut i: usize = 0;
    while i < exprs.len()
        invariant
            b.expr == id,
            id < cx.nodes@.len(),
            i <= exprs@.len(),
            old(s).diagnostics@.is_prefix_of(s.diagnostics@),
            only_from_operands(s.diagnostics@, old(s).diagnostics@.len() as int, id),
            expr_kind(*cx, id) == Some(ExprKind::Concat { repeat, exprs: *exprs }),
            !failed ==> lowers_operands(items@, exprs@.subrange(0, i as int)),
            !failed ==> width == items_width(items@, i as int),
            lowerable(*cx, id) ==> !failed && width == operands_width(*cx, exprs@, i as int)
                && s.diagnostics == old(s).diagnostics,
            fails(*cx, id) && phase(*cx, exprs@, id, i as int) == 0 ==> !failed && width
                == operands_width(*cx, exprs@, i as int) && s.diagnostics == old(s).diagnostics,
            fails(*cx, id) && phase(*cx, exprs@, id, i as int) == 1 ==> failed && s.diagnostics@
                == old(s).diagnostics@.push(phase_root(*cx, exprs@, id, i as int)),
            fails(*cx, id) ==> phase(*cx, exprs@, id, i as int) != 2,
        decreases exprs@.len() - i,
    {
        let e = exprs[i];
        proof {
            if lowerable(*cx, id) {
                lemma_operand(*cx, exprs@, id, i as int, exprs@.len() as int);
                lemma_operands_width_mono(*cx, exprs@, i as int + 1, exprs@.len() as int);
            }
            if fails(*cx, id) {
                lemma_phase_stuck(*cx, exprs@, id, i as int + 1, exprs@.len() as int);
            }
        }
        if e >= id {
            return Err(Fault::Cycle(id));
        }
        let ghost mid = s.diagnostics@;
        let res = mir_lvalue(cx, s, e);
        proof {
            lemma_diag_chain(old(s).diagnostics@, mid, s.diagnostics@, id, e);
        }
        let v = match res {
            Ok(v) => v,
            Err(f) => {
                return Err(f);
            },
        };
        if v.is_error() {
            failed = true;
        } else if !failed {
            if !v.ty.coalesces_to_scalar() {
                return Err(Fault::NotScalar(e));
            }
            let w = match v.ty.packed_width() {
                Some(w) => w,
                None => {
                    return Err(Fault::NotScalar(e));
                },
            };
            width = match width.checked_add(w) {
                Some(t) => t,
                None => {
                    return Err(Fault::TooWide(id));
                },
            };
            let ghost before = items@;
            items.push(Rc::new(v));
            proof {
                assert(items@.subrange(0, i as int) == before);
                lemma_items_width_prefix(before, items@, i as int);
                assert(exprs@.subrange(0, i as int + 1) == exprs@.subrange(0, i as int).push(e));
            }
        }
        i += 1;
    }
    if failed {
        return Ok(b.error(s));
    }
    proof {
        assert(exprs@.subrange(0, exprs@.len() as int) == exprs@);
    }
    let final_ty = match &cx.nodes[id].self_ty {
        Some(t) => Rc::clone(t),
        None => {
            return Ok(b.error(s));
        },
    };
    if final_ty.is_error() {
        return Ok(b.error(s));
    }
    let concat_ty = Ty::make_sbv(final_ty.domain(), Sign::Unsigned, width);
    let concat = b.build(s, Rc::new(concat_ty), LvalueKind::Concat(Rc::new(items)));
    match repeat {
        Some(rid) => {
            if rid >= cx.nodes.len() {
                return Ok(b.error(s));
            }
            let count = match cx.nodes[rid].constant {
                Some(c) => c,
                None => {
                    return Ok(b.error(s));
                },
            };
            if count < 0 || count > u64::MAX as i128 {
                return Err(Fault::BadRepeat(rid));
            }
            Ok(b.build(s, final_ty, LvalueKind::Repeat(count as u64, Rc::new(concat))))
        },
        None => Ok(concat),
    }
}

/// Lowering a name twice under the same parametrization gives nodes of the
/// same kind and type; only their identities may differ.
pub proof fn lemma_ident_deterministic(cx: Context, id: NodeId, a: Lvalue, b: Lvalue)
    requires
        ident_lowered(cx, id, a),
        ident_lowered(cx, id, b),
    ensures
        a.kind == b.kind,
        *a.ty == *b.ty,
{
}

/// Indexing element `k` of a dimension declared `[hi:lo]` reads offset
/// `k - lo` from the low end.
pub proof fn lemma_index_rebase(k: i64, dim: Dim)
    ensures
        adjusted(IndexBase::Const(k), dim) == Rvalue::Const((k - dim.lo) as i128),
{
}

} // verus!
