//! Reinterpretation of a value as its simple bit vector.
use crate::mir::{Builder, Lvalue, LvalueKind, Rvalue, Session};
use crate::ty::{
    bit_width, coalesces, elem_of, lemma_sbv_width, layout, lemma_elem_width, lemma_member_layout, packable,
    sbv_of, Ty,
};
use std::rc::Rc;
use vstd::prelude::*;

verus! {

/// A type whose bits already lie in one run: a flat vector, or an array of
/// single bits.
pub open spec fn contiguous(t: Ty) -> bool {
    coalesces(t) || (t is Array && elem_of(t) is Bit)
}

/// `r` is the simple bit vector form of `v`.
///
/// A contiguous value is reinterpreted in place. An array becomes the
/// concatenation of its packed elements, the highest index first, so that
/// element 0 ends up least significant. A struct becomes the concatenation of
/// its packed members in declaration order, the first member most significant.
pub open spec fn packs(v: Lvalue, r: Lvalue) -> bool
    decreases r,
{
    &&& *r.ty == sbv_of(*v.ty)
    &&& if contiguous(*v.ty) {
        r.kind == LvalueKind::Transmute(Rc::new(v))
    } else {
        match *v.ty {
            Ty::Array { dim, elem, .. } => match r.kind {
                LvalueKind::Concat(items) => items@.len() == dim.size && packs_elems(
                    v,
                    items@,
                    dim.size as int,
                    items@.len() as int,
                ),
                _ => false,
            },
            Ty::Struct { members } => match r.kind {
                LvalueKind::Concat(items) => items@.len() == members@.len() && packs_members(
                    v,
                    items@,
                    items@.len() as int,
                ),
                _ => false,
            },
            _ => false,
        }
    }
}

/// The element of array `v` at index `k`.
pub open spec fn is_element(v: Lvalue, k: int, e: Lvalue) -> bool {
    &&& e.ty == v.ty->Array_elem
    &&& e.kind == (LvalueKind::Index {
        value: Rc::new(v),
        base: Rvalue::Const(k as i128),
        length: 1,
    })
}

/// The member of struct `v` with ordinal `i`.
pub open spec fn is_member(v: Lvalue, i: int, e: Lvalue) -> bool {
    &&& e.ty == v.ty->Struct_members@[i]
    &&& e.kind == (LvalueKind::Member { value: Rc::new(v), field: i as usize })
}

/// The value that a packed node was built from: the value reinterpreted in
/// place, or the aggregate whose parts a concatenation gathers.
pub open spec fn source_of(r: Lvalue) -> Lvalue
    decreases r,
{
    match r.kind {
        LvalueKind::Transmute(x) => *x,
        LvalueKind::Concat(items) => if items@.len() > 0 {
            parent_of(source_of(*items@[0]))
        } else {
            r
        },
        _ => r,
    }
}

/// The aggregate that an element or member access reads from.
pub open spec fn parent_of(e: Lvalue) -> Lvalue {
    match e.kind {
        LvalueKind::Index { value, .. } => *value,
        LvalueKind::Member { value, .. } => *value,
        _ => e,
    }
}

/// The first `n` items pack the elements of `v`, which has `size` of them,
/// from the highest index down.
pub open spec fn packs_elems(v: Lvalue, items: Seq<Rc<Lvalue>>, size: int, n: int) -> bool
    decreases items, n,
{
    if n <= 0 || n > items.len() {
        true
    } else {
        &&& packs_elems(v, items, size, n - 1)
        &&& is_element(v, size - n, source_of(*items[n - 1]))
        &&& packs(source_of(*items[n - 1]), *items[n - 1])
    }
}

/// The first `n` items pack the first `n` members of `v`, in order.
pub open spec fn packs_members(v: Lvalue, items: Seq<Rc<Lvalue>>, n: int) -> bool
    decreases items, n,
{
    if n <= 0 || n > items.len() {
        true
    } else {
        &&& packs_members(v, items, n - 1)
        &&& is_member(v, n - 1, source_of(*items[n - 1]))
        &&& packs(source_of(*items[n - 1]), *items[n - 1])
    }
}

proof fn lemma_packs_elems_first(v: &Lvalue, items: Seq<Rc<Lvalue>>, size: int, n: int)
    requires
        1 <= n <= items.len(),
        packs_elems(*v, items, size, n),
    ensures
        is_element(*v, size - 1, source_of(*items[0])),
    decreases n,
{
    if n > 1 {
        lemma_packs_elems_first(v, items, size, n - 1);
    }
}

proof fn lemma_packs_members_first(v: &Lvalue, items: Seq<Rc<Lvalue>>, n: int)
    requires
        1 <= n <= items.len(),
        packs_members(*v, items, n),
    ensures
        is_member(*v, 0, source_of(*items[0])),
    decreases n,
{
    if n > 1 {
        lemma_packs_members_first(v, items, n - 1);
    }
}

proof fn lemma_packs_elems_prefix(
    v: &Lvalue,
    a: Seq<Rc<Lvalue>>,
    b: Seq<Rc<Lvalue>>,
    size: int,
    n: int,
)
    requires
        0 <= n <= a.len(),
        a.len() < b.len(),
        forall|j: int| 0 <= j < a.len() ==> a[j] == b[j],
        packs_elems(*v, a, size, n),
    ensures
        packs_elems(*v, b, size, n),
    decreases n,
{
    if n > 0 {
        lemma_packs_elems_prefix(v, a, b, size, n - 1);
    }
}


/// Reinterpret `value` as the flat bit vector of the same total width.
pub fn pack_simple_bit_vector(b: &Builder, s: &mut Session, value: Rc<Lvalue>) -> (r: Lvalue)
    requires
        packable(*value.ty),
    ensures
        packs(*value, r),
        source_of(r) == *value,
        !(r.kind is Error),
        r.origin == b.expr,
        r.env == b.env,
        r.span == b.span,
        final(s).diagnostics == old(s).diagnostics,
    decreases *value.ty, 1int,
{
    let to = Rc::new(value.ty.simple_bit_vector());
    if value.ty.coalesces_to_scalar() {
        return b.build(s, to, LvalueKind::Transmute(value));
    }
    match &*value.ty {
        Ty::Array { .. } => pack_array(b, s, value, to),
        _ => pack_struct(b, s, value, to),
    }
}

/// Pack a struct as a simple bit vector.
fn pack_struct(b: &Builder, s: &mut Session, value: Rc<Lvalue>, to: Rc<Ty>) -> (r: Lvalue)
    requires
        packable(*value.ty),
        !coalesces(*value.ty),
        !(*value.ty is Array),
        *to == sbv_of(*value.ty),
    ensures
        packs(*value, r),
        source_of(r) == *value,
        !(r.kind is Error),
        r.origin == b.expr,
        r.env == b.env,
        r.span == b.span,
        final(s).diagnostics == old(s).diagnostics,
    decreases *value.ty, 0int,
{
    let ty = Rc::clone(&value.ty);
    let members = match &*ty {
        Ty::Struct { members } => members,
        _ => {
            return b.build(s, to, LvalueKind::Transmute(value));
        },
    };
    let mut packed: Vec<Rc<Lvalue>> = Vec::new();
    let mut i: usize = 0;
    while i < members.len()
        invariant
            *value.ty is Struct,
            value.ty->Struct_members == *members,
            packable(*value.ty),
            i <= members@.len(),
            packed@.len() == i,
            packs_members(*value, packed@, i as int),
            s.diagnostics == old(s).diagnostics,
        decreases members@.len() - i,
    {
        proof {
            lemma_member_layout(&value.ty, i as int);
            assert(decreases_to!(*value.ty => value.ty->Struct_members));
            assert(decreases_to!(value.ty->Struct_members => value.ty->Struct_members@));
            assert(decreases_to!(value.ty->Struct_members@ => value.ty->Struct_members@[i as int]));
        }
        let field = b.build(
            s,
            Rc::clone(&members[i]),
            LvalueKind::Member { value: Rc::clone(&value), field: i },
        );
        let ghost e = field;
        let item = pack_simple_bit_vector(b, s, Rc::new(field));
        let ghost before = packed@;
        packed.push(Rc::new(item));
        proof {
            assert(is_member(*value, i as int, e));
            assert(packs(e, *packed@[i as int]));
            lemma_packs_members_prefix(&value, before, packed@, i as int);
            assert(decreases_to!(packed@ => packed@[i as int]));
        }
        i += 1;
    }
    proof {
        lemma_packs_members_first(&value, packed@, packed@.len() as int);
    }
    b.build(s, to, LvalueKind::Concat(Rc::new(packed)))
}

proof fn lemma_packs_members_prefix(v: &Lvalue, a: Seq<Rc<Lvalue>>, b: Seq<Rc<Lvalue>>, n: int)
    requires
        0 <= n <= a.len(),
        a.len() < b.len(),
        forall|j: int| 0 <= j < a.len() ==> a[j] == b[j],
        packs_members(*v, a, n),
    ensures
        packs_members(*v, b, n),
    decreases n,
{
    if n > 0 {
        lemma_packs_members_prefix(v, a, b, n - 1);
    }
}

/// Pack an array as a simple bit vector.
fn pack_array(b: &Builder, s: &mut Session, value: Rc<Lvalue>, to: Rc<Ty>) -> (r: Lvalue)
    requires
        packable(*value.ty),
        !coalesces(*value.ty),
        *value.ty is Array,
        *to == sbv_of(*value.ty),
    ensures
        packs(*value, r),
        source_of(r) == *value,
        !(r.kind is Error),
        r.origin == b.expr,
        r.env == b.env,
        r.span == b.span,
        final(s).diagnostics == old(s).diagnostics,
    decreases *value.ty, 0int,
{
    let ty = Rc::clone(&value.ty);
    let (length, elem) = match &*ty {
        Ty::Array { dim, elem, .. } => (dim.size, elem),
        _ => {
            return b.build(s, to, LvalueKind::Transmute(value));
        },
    };
    // An array of single bits is already one contiguous run.
    if matches!(**elem, Ty::Bit { .. }) {
        return b.build(s, to, LvalueKind::Transmute(value));
    }
    proof {
        lemma_elem_width(&value.ty);
        assert(decreases_to!(*value.ty => value.ty->Array_elem));
    }
    let mut packed: Vec<Rc<Lvalue>> = Vec::new();
    let mut k: u64 = length;
    while k > 0
        invariant
            *value.ty is Array,
            value.ty->Array_elem == *elem,
            length == value.ty->Array_dim.size,
            packable(*value.ty),
            layout(**elem),
            bit_width(**elem) <= bit_width(*value.ty),
            k <= length,
            packed@.len() == length - k,
            packs_elems(*value, packed@, length as int, packed@.len() as int),
            s.diagnostics == old(s).diagnostics,
        decreases k,
    {
        k = k - 1;
        let index = b.build(
            s,
            Rc::clone(elem),
            LvalueKind::Index { value: Rc::clone(&value), base: Rvalue::Const(k as i128), length: 1 },
        );
        let ghost e = index;
        let item = pack_simple_bit_vector(b, s, Rc::new(index));
        let ghost before = packed@;
        packed.push(Rc::new(item));
        proof {
            assert(is_element(*value, k as int, e));
            assert(packs(e, *packed@[before.len() as int]));
            lemma_packs_elems_prefix(&value, before, packed@, length as int, before.len() as int);
            assert(decreases_to!(packed@ => packed@[before.len() as int]));
        }
    }
    proof {
        lemma_packs_elems_first(&value, packed@, length as int, packed@.len() as int);
    }
    b.build(s, to, LvalueKind::Concat(Rc::new(packed)))
}

/// Packing keeps the total width; element 0 of an array ends up least
/// significant (last), its highest element most significant (first), and the
/// first-declared member of a struct most significant (first).
pub proof fn lemma_pack_layout(v: Lvalue, r: Lvalue)
    requires
        packable(*v.ty),
        packs(v, r),
    ensures
        bit_width(*r.ty) == bit_width(*v.ty),
        packed_array(v) ==> r.kind is Concat && concat_items(r).len() == array_size(v)
            && is_element(v, array_size(v) - 1, source_of(*concat_items(r)[0])) && is_element(
            v,
            0,
            source_of(*concat_items(r)[concat_items(r).len() - 1]),
        ),
        packed_struct(v) ==> r.kind is Concat && concat_items(r).len()
            == v.ty->Struct_members@.len() && is_member(v, 0, source_of(*concat_items(r)[0])),
{
    lemma_sbv_width(&v.ty);
    if packed_array(v) {
        lemma_packs_elems_first(&v, concat_items(r), array_size(v), concat_items(r).len() as int);
    }
    if packed_struct(v) {
        lemma_packs_members_first(&v, concat_items(r), concat_items(r).len() as int);
    }
}

/// An array that packing splits into its elements.
pub open spec fn packed_array(v: Lvalue) -> bool {
    !contiguous(*v.ty) && *v.ty is Array
}

/// A struct that packing splits into its members.
pub open spec fn packed_struct(v: Lvalue) -> bool {
    !contiguous(*v.ty) && *v.ty is Struct
}

/// The number of elements of an array value.
pub open spec fn array_size(v: Lvalue) -> int {
    v.ty->Array_dim.size as int
}

/// The items of a concatenation.
pub open spec fn concat_items(r: Lvalue) -> Seq<Rc<Lvalue>> {
    r.kind->Concat_0@
}

} // verus!
