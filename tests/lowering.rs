use std::rc::Rc;
use svlog_lvalue::hir::{
    CastOp, CastType, Context, ExprKind, HirNode, IndexBase, IndexMode, IntfMember, NodeInfo,
};
use svlog_lvalue::lvalue::{adjust_indexing, compute_indexing, mir_lvalue, Fault};
use svlog_lvalue::mir::{
    Builder, DiagKind, Lvalue, LvalueKind, ParamEnv, Rvalue, Session, Span,
};
use svlog_lvalue::pack::pack_simple_bit_vector;
use svlog_lvalue::ty::{Dim, Domain, Sign, Ty};

fn bit() -> Rc<Ty> {
    Rc::new(Ty::Bit { domain: Domain::FourValued, sign: Sign::Unsigned })
}

fn vector(lo: i64, size: u64) -> Rc<Ty> {
    Rc::new(Ty::Array { dim: Dim { lo, size }, packed: true, elem: bit() })
}

fn info(hir: HirNode) -> NodeInfo {
    NodeInfo {
        span: Span { begin: 0, end: 0 },
        hir: Some(hir),
        cast: None,
        binding: None,
        self_ty: None,
        field: None,
        member: None,
        constant: None,
    }
}

fn plain(ty: &Rc<Ty>) -> Option<CastType> {
    Some(CastType { init: Rc::clone(ty), ty: Rc::clone(ty), casts: vec![] })
}

fn name(binding: usize, ty: &Rc<Ty>) -> NodeInfo {
    let mut n = info(HirNode::Expr(ExprKind::Ident));
    n.binding = Some(binding);
    n.cast = plain(ty);
    n
}

fn cx(nodes: Vec<NodeInfo>) -> Context {
    Context { env: ParamEnv(0), nodes }
}

fn width(t: &Ty) -> u64 {
    t.packed_width().unwrap()
}

fn items(l: &Lvalue) -> Vec<Rc<Lvalue>> {
    match &l.kind {
        LvalueKind::Concat(v) => v.iter().cloned().collect(),
        k => panic!("not a concatenation: {:?}", k),
    }
}

#[test]
fn variable_is_var_without_casts() {
    let ty = vector(0, 8);
    let c = cx(vec![info(HirNode::VarDecl), name(0, &ty)]);
    let mut s = Session::new();
    let r = mir_lvalue(&c, &mut s, 1).unwrap();
    assert!(matches!(r.kind, LvalueKind::Var(0)));
    assert!(r.ty.is_identical(&vector(0, 8)));
    assert_eq!(width(&r.ty), 8);
    assert_eq!(r.ty.sign(), Sign::Unsigned);
    assert_eq!(r.origin, 1);
    assert!(s.diagnostics.is_empty());
}

#[test]
fn bit_select_rebased_on_zero() {
    let ty = vector(0, 8);
    let mut sel = info(HirNode::Expr(ExprKind::Index {
        target: 1,
        mode: IndexMode::One(IndexBase::Const(3)),
    }));
    sel.cast = plain(&bit());
    let c = cx(vec![info(HirNode::VarDecl), name(0, &ty), sel]);
    let mut s = Session::new();
    let r = mir_lvalue(&c, &mut s, 2).unwrap();
    match &r.kind {
        LvalueKind::Index { value, base, length } => {
            assert_eq!(*base, Rvalue::Const(3));
            assert_eq!(*length, 1);
            assert!(matches!(value.kind, LvalueKind::Var(0)));
        },
        k => panic!("unexpected {:?}", k),
    }
    assert_eq!(width(&r.ty), 1);
}

#[test]
fn part_select_rebased_on_low_bound() {
    let ty = vector(1, 4);
    let mut sel = info(HirNode::Expr(ExprKind::Index {
        target: 1,
        mode: IndexMode::Part { msb: 2, lsb: 1 },
    }));
    sel.cast = plain(&vector(0, 2));
    let c = cx(vec![info(HirNode::VarDecl), name(0, &ty), sel]);
    let mut s = Session::new();
    let r = mir_lvalue(&c, &mut s, 2).unwrap();
    match &r.kind {
        LvalueKind::Index { base, length, .. } => {
            assert_eq!(*base, Rvalue::Const(0));
            assert_eq!(*length, 2);
        },
        k => panic!("unexpected {:?}", k),
    }
}

#[test]
fn index_offset_is_element_minus_low_bound() {
    assert_eq!(adjust_indexing(IndexBase::Const(5), Dim { lo: 2, size: 8 }), Rvalue::Const(3));
    assert_eq!(adjust_indexing(IndexBase::Const(0), Dim { lo: 3, size: 2 }), Rvalue::Const(-3));
    assert_eq!(adjust_indexing(IndexBase::Dynamic(7), Dim { lo: 0, size: 4 }), Rvalue::Value(7));
    assert_eq!(
        adjust_indexing(IndexBase::Dynamic(7), Dim { lo: 1, size: 4 }),
        Rvalue::Offset { value: 7, by: 1 }
    );
}

#[test]
fn part_select_normalizes_either_order() {
    assert_eq!(
        compute_indexing(IndexMode::Part { msb: 1, lsb: 4 }),
        Some((IndexBase::Const(1), 4))
    );
    assert_eq!(compute_indexing(IndexMode::Part { msb: i64::MAX, lsb: i64::MIN }), None);
    assert_eq!(
        compute_indexing(IndexMode::One(IndexBase::Dynamic(3))),
        Some((IndexBase::Dynamic(3), 1))
    );
}

fn concat_design(repeat: Option<usize>) -> Context {
    let a = vector(0, 4);
    let b = vector(0, 2);
    let mut cat = info(HirNode::Expr(ExprKind::Concat { repeat, exprs: vec![2, 3] }));
    let whole = if repeat.is_some() { vector(0, 12) } else { vector(0, 6) };
    cat.self_ty = Some(Rc::clone(&whole));
    cat.cast = plain(&whole);
    let mut count = info(HirNode::Expr(ExprKind::Other));
    count.constant = Some(2);
    cx(vec![info(HirNode::VarDecl), info(HirNode::VarDecl), name(0, &a), name(1, &b), cat, count])
}

#[test]
fn concatenation_first_operand_most_significant() {
    let c = concat_design(None);
    let mut s = Session::new();
    let r = mir_lvalue(&c, &mut s, 4).unwrap();
    let v = items(&r);
    assert_eq!(v.len(), 2);
    assert!(matches!(v[0].kind, LvalueKind::Var(0)));
    assert!(matches!(v[1].kind, LvalueKind::Var(1)));
    assert_eq!(width(&v[0].ty), 4);
    assert_eq!(width(&v[1].ty), 2);
    assert_eq!(width(&r.ty), 6);
}

#[test]
fn replicated_concatenation() {
    let c = concat_design(Some(5));
    let mut s = Session::new();
    let r = mir_lvalue(&c, &mut s, 4).unwrap();
    match &r.kind {
        LvalueKind::Repeat(n, inner) => {
            assert_eq!(*n, 2);
            assert_eq!(items(inner).len(), 2);
            assert_eq!(width(&inner.ty), 6);
        },
        k => panic!("unexpected {:?}", k),
    }
    assert_eq!(width(&r.ty), 12);
}

fn two_field_struct() -> Rc<Ty> {
    Rc::new(Ty::Struct { members: vec![vector(0, 4), vector(0, 2)] })
}

#[test]
fn packed_struct_first_member_most_significant() {
    let st = two_field_struct();
    let mut n = name(0, &st);
    n.cast = Some(CastType {
        init: Rc::clone(&st),
        ty: vector(0, 6),
        casts: vec![(CastOp::PackSBVT, vector(0, 6))],
    });
    let c = cx(vec![info(HirNode::VarDecl), n]);
    let mut s = Session::new();
    let r = mir_lvalue(&c, &mut s, 1).unwrap();
    assert_eq!(width(&r.ty), 6);
    let v = items(&r);
    assert_eq!(v.len(), 2);
    for (i, item) in v.iter().enumerate() {
        match &item.kind {
            LvalueKind::Transmute(inner) => match &inner.kind {
                LvalueKind::Member { value, field } => {
                    assert_eq!(*field, i);
                    assert!(matches!(value.kind, LvalueKind::Var(0)));
                },
                k => panic!("unexpected {:?}", k),
            },
            k => panic!("unexpected {:?}", k),
        }
    }
    assert_eq!(width(&v[0].ty), 4);
    assert_eq!(width(&v[1].ty), 2);
}

#[test]
fn function_call_cannot_be_assigned() {
    let mut call = info(HirNode::Expr(ExprKind::Call));
    call.cast = plain(&bit());
    let c = cx(vec![call]);
    let mut s = Session::new();
    let r = mir_lvalue(&c, &mut s, 0).unwrap();
    assert!(r.is_error());
    assert!(r.ty.is_error());
    assert_eq!(s.diagnostics.len(), 1);
    assert_eq!(s.diagnostics[0].kind, DiagKind::NotAssignable);
    assert_eq!(s.diagnostics[0].node, 0);
    assert_eq!(
        s.diagnostics[0].message("function call `f()`"),
        "function call `f()` cannot be assigned to"
    );
}

fn var_value(ty: Rc<Ty>) -> Lvalue {
    let b = Builder { span: Span { begin: 0, end: 0 }, expr: 9, env: ParamEnv(0) };
    let mut s = Session::new();
    b.build(&mut s, ty, LvalueKind::Var(0))
}

#[test]
fn array_element_zero_least_significant() {
    let arr = Rc::new(Ty::Array { dim: Dim { lo: 0, size: 3 }, packed: true, elem: vector(0, 2) });
    let b = Builder { span: Span { begin: 0, end: 0 }, expr: 9, env: ParamEnv(0) };
    let mut s = Session::new();
    let r = pack_simple_bit_vector(&b, &mut s, Rc::new(var_value(arr)));
    assert_eq!(width(&r.ty), 6);
    let v = items(&r);
    assert_eq!(v.len(), 3);
    for (j, item) in v.iter().enumerate() {
        match &item.kind {
            LvalueKind::Transmute(inner) => match &inner.kind {
                LvalueKind::Index { base, length, .. } => {
                    assert_eq!(*base, Rvalue::Const(2 - j as i128));
                    assert_eq!(*length, 1);
                },
                k => panic!("unexpected {:?}", k),
            },
            k => panic!("unexpected {:?}", k),
        }
    }
}

#[test]
fn array_of_bits_packs_in_place() {
    let arr = Rc::new(Ty::Array { dim: Dim { lo: 0, size: 5 }, packed: false, elem: bit() });
    let b = Builder { span: Span { begin: 0, end: 0 }, expr: 9, env: ParamEnv(0) };
    let mut s = Session::new();
    let r = pack_simple_bit_vector(&b, &mut s, Rc::new(var_value(arr)));
    assert!(matches!(r.kind, LvalueKind::Transmute(_)));
    assert!(r.ty.is_identical(&vector(0, 5)));
}

#[test]
fn nested_struct_width_is_total() {
    let inner = two_field_struct();
    let outer = Rc::new(Ty::Struct { members: vec![bit(), inner] });
    assert_eq!(width(&outer), 7);
    let b = Builder { span: Span { begin: 0, end: 0 }, expr: 9, env: ParamEnv(0) };
    let mut s = Session::new();
    let r = pack_simple_bit_vector(&b, &mut s, Rc::new(var_value(outer)));
    assert_eq!(width(&r.ty), 7);
    let v = items(&r);
    assert_eq!(v.len(), 2);
    assert_eq!(items(&v[1]).len(), 2);
}

#[test]
fn error_operand_absorbs_without_extra_diagnostic() {
    let ty = vector(0, 8);
    let mut bad = name(0, &ty);
    bad.binding = Some(0);
    let mut sel = info(HirNode::Expr(ExprKind::Index {
        target: 1,
        mode: IndexMode::One(IndexBase::Const(3)),
    }));
    sel.cast = plain(&bit());
    let mut field = info(HirNode::Expr(ExprKind::Field { target: 2 }));
    field.cast = plain(&bit());
    field.field = Some(0);
    let c = cx(vec![info(HirNode::Other), bad, sel, field]);
    let mut s = Session::new();
    let r = mir_lvalue(&c, &mut s, 3).unwrap();
    assert!(r.is_error());
    assert_eq!(s.diagnostics.len(), 1);
    assert_eq!(s.diagnostics[0].kind, DiagKind::NotATarget);
    assert_eq!(s.diagnostics[0].node, 1);
    assert_eq!(
        s.diagnostics[0].message("module `m`"),
        "module `m` cannot be used as the target of an assignment"
    );
}

#[test]
fn unresolved_name_is_error_without_diagnostic() {
    let ty = vector(0, 8);
    let mut n = name(0, &ty);
    n.binding = None;
    let c = cx(vec![info(HirNode::VarDecl), n]);
    let mut s = Session::new();
    let r = mir_lvalue(&c, &mut s, 1).unwrap();
    assert!(r.is_error());
    assert!(s.diagnostics.is_empty());
}

#[test]
fn same_name_twice_same_kind_and_type() {
    let ty = vector(0, 8);
    let c = cx(vec![info(HirNode::VarDecl), name(0, &ty)]);
    let mut s = Session::new();
    let a = mir_lvalue(&c, &mut s, 1).unwrap();
    let b = mir_lvalue(&c, &mut s, 1).unwrap();
    assert_ne!(a.id, b.id);
    assert!(matches!((&a.kind, &b.kind), (LvalueKind::Var(0), LvalueKind::Var(0))));
    assert!(a.ty.is_identical(&b.ty));
}

#[test]
fn result_type_is_final_cast_type() {
    let st = two_field_struct();
    let mut n = name(0, &st);
    n.cast = Some(CastType {
        init: Rc::clone(&st),
        ty: vector(0, 6),
        casts: vec![(CastOp::PackSBVT, vector(0, 6))],
    });
    let c = cx(vec![info(HirNode::VarDecl), n]);
    let mut s = Session::new();
    let r = mir_lvalue(&c, &mut s, 1).unwrap();
    assert!(r.ty.is_identical(&vector(0, 6)));
}

#[test]
fn interface_port_modport_and_signal() {
    let intf = Rc::new(Ty::Intf { intf: 7, modport: None });
    let port = name(0, &intf);
    let mut port_self = port;
    port_self.self_ty = Some(Rc::clone(&intf));
    let mut mp = info(HirNode::Expr(ExprKind::Field { target: 1 }));
    let restricted = Rc::new(Ty::Intf { intf: 7, modport: Some(3) });
    mp.cast = plain(&restricted);
    mp.member = Some(IntfMember::Modport);
    let mut sig = info(HirNode::Expr(ExprKind::Field { target: 1 }));
    sig.cast = plain(&bit());
    sig.member = Some(IntfMember::Signal(11));
    let c = cx(vec![info(HirNode::IntPort), port_self, mp, sig]);
    let mut s = Session::new();
    let p = mir_lvalue(&c, &mut s, 1).unwrap();
    assert!(matches!(p.kind, LvalueKind::Intf(0)));
    let m = mir_lvalue(&c, &mut s, 2).unwrap();
    assert!(matches!(m.kind, LvalueKind::Intf(0)));
    assert!(m.ty.is_identical(&restricted));
    let g = mir_lvalue(&c, &mut s, 3).unwrap();
    assert!(matches!(g.kind, LvalueKind::IntfSignal(_, 11)));
}

#[test]
fn ordinary_port_and_genvar() {
    let ty = vector(0, 4);
    let c = cx(vec![info(HirNode::IntPort), info(HirNode::GenvarDecl), name(0, &ty), name(1, &ty)]);
    let mut s = Session::new();
    assert!(matches!(mir_lvalue(&c, &mut s, 2).unwrap().kind, LvalueKind::Port(0)));
    assert!(matches!(mir_lvalue(&c, &mut s, 3).unwrap().kind, LvalueKind::Genvar(1)));
}

#[test]
fn pick_modport_keeps_kind() {
    let intf = Rc::new(Ty::Intf { intf: 7, modport: None });
    let restricted = Rc::new(Ty::Intf { intf: 7, modport: Some(2) });
    let mut n = name(0, &intf);
    n.cast = Some(CastType {
        init: Rc::clone(&intf),
        ty: Rc::clone(&restricted),
        casts: vec![(CastOp::PickModport, Rc::clone(&restricted))],
    });
    let c = cx(vec![info(HirNode::Inst), n]);
    let mut s = Session::new();
    let r = mir_lvalue(&c, &mut s, 1).unwrap();
    assert!(matches!(r.kind, LvalueKind::Intf(0)));
    assert!(r.ty.is_identical(&restricted));
}

#[test]
fn consistency_faults() {
    let ty = vector(0, 8);
    let mut unsupported = name(0, &ty);
    unsupported.cast = Some(CastType {
        init: Rc::clone(&ty),
        ty: bit(),
        casts: vec![(CastOp::Bool, bit())],
    });
    let mut uncast = name(0, &ty);
    uncast.cast = None;
    let mut cyclic = info(HirNode::Expr(ExprKind::Index {
        target: 3,
        mode: IndexMode::One(IndexBase::Const(0)),
    }));
    cyclic.cast = plain(&bit());
    let mut wrong = name(0, &ty);
    wrong.cast = Some(CastType {
        init: Rc::clone(&ty),
        ty: vector(0, 9),
        casts: vec![(CastOp::PackSBVT, vector(0, 9))],
    });
    let c = cx(vec![info(HirNode::VarDecl), unsupported, uncast, cyclic, wrong]);
    let mut s = Session::new();
    assert_eq!(mir_lvalue(&c, &mut s, 1).unwrap_err(), Fault::UnsupportedCast(CastOp::Bool));
    assert!(mir_lvalue(&c, &mut s, 2).unwrap().is_error());
    assert_eq!(mir_lvalue(&c, &mut s, 3).unwrap_err(), Fault::Cycle(3));
    assert_eq!(mir_lvalue(&c, &mut s, 4).unwrap_err(), Fault::TypeMismatch(4));
    assert_eq!(mir_lvalue(&c, &mut s, 0).unwrap_err(), Fault::NotAnExpr(0));
}

#[test]
fn missing_node_and_failed_chain_give_error() {
    let ty = vector(0, 8);
    let mut n = name(0, &ty);
    n.cast = Some(CastType { init: Rc::clone(&ty), ty: Rc::new(Ty::Error), casts: vec![] });
    let c = cx(vec![info(HirNode::VarDecl), n]);
    let mut s = Session::new();
    assert!(mir_lvalue(&c, &mut s, 1).unwrap().is_error());
    assert!(mir_lvalue(&c, &mut s, 40).unwrap().is_error());
    assert!(s.diagnostics.is_empty());
}

#[test]
fn builder_for_another_node() {
    let c = cx(vec![info(HirNode::VarDecl), {
        let mut n = info(HirNode::VarDecl);
        n.span = Span { begin: 4, end: 9 };
        n
    }]);
    let b = Builder { span: Span { begin: 0, end: 1 }, expr: 0, env: ParamEnv(5) };
    let w = b.with(&c, 1);
    assert_eq!(w.expr, 1);
    assert_eq!(w.span, Span { begin: 4, end: 9 });
    assert_eq!(w.env, ParamEnv(5));
    let mut s = Session::new();
    let e = w.error(&mut s);
    assert!(e.is_error());
    assert!(e.ty.is_error());
    assert_eq!(e.origin, 1);
}

#[test]
fn call_with_failed_final_type_still_reports() {
    let mut call = info(HirNode::Expr(ExprKind::Call));
    call.cast = Some(CastType { init: bit(), ty: Rc::new(Ty::Error), casts: vec![] });
    let c = cx(vec![call]);
    let mut s = Session::new();
    assert!(mir_lvalue(&c, &mut s, 0).unwrap().is_error());
    assert_eq!(s.diagnostics.len(), 1);
    assert_eq!(s.diagnostics[0].kind, DiagKind::NotAssignable);
}

#[test]
fn modport_of_port_keeps_port_kind_and_span() {
    let intf = Rc::new(Ty::Intf { intf: 7, modport: None });
    let mut port = name(0, &intf);
    port.self_ty = Some(Rc::clone(&intf));
    let mut mp = info(HirNode::Expr(ExprKind::Field { target: 1 }));
    mp.span = Span { begin: 3, end: 8 };
    mp.cast = plain(&intf);
    mp.member = Some(IntfMember::Modport);
    let c = cx(vec![info(HirNode::IntPort), port, mp]);
    let mut s = Session::new();
    let r = mir_lvalue(&c, &mut s, 2).unwrap();
    assert!(matches!(r.kind, LvalueKind::Intf(0)));
    assert_eq!(r.span, Span { begin: 3, end: 8 });
}

#[test]
fn failing_concat_operand_reports_once() {
    let a = vector(0, 4);
    let mut call = info(HirNode::Expr(ExprKind::Call));
    call.cast = plain(&vector(0, 2));
    let mut cat = info(HirNode::Expr(ExprKind::Concat { repeat: None, exprs: vec![1, 2] }));
    cat.self_ty = Some(vector(0, 6));
    cat.cast = plain(&vector(0, 6));
    let c = cx(vec![info(HirNode::VarDecl), name(0, &a), call, cat]);
    let mut s = Session::new();
    let r = mir_lvalue(&c, &mut s, 3).unwrap();
    assert!(r.is_error());
    assert_eq!(s.diagnostics.len(), 1);
    assert_eq!(s.diagnostics[0].node, 2);
    assert_eq!(s.diagnostics[0].kind, DiagKind::NotAssignable);
}
