//! The typed value model: unpacked types, their bit widths, and their simple
//! bit vector form.
use std::rc::Rc;
use vstd::prelude::*;

verus! {

/// Whether a bit can hold only 0/1 or also X/Z.
#[derive(Clone, Copy, Debug, PartialEq, Eq, Structural)]
pub enum Domain {
    TwoValued,
    FourValued,
}

/// Signedness of a bit vector.
#[derive(Clone, Copy, Debug, PartialEq, Eq, Structural)]
pub enum Sign {
    Signed,
    Unsigned,
}

/// A declared dimension `[lo + size - 1 : lo]`.
#[derive(Clone, Copy, Debug, PartialEq, Eq, Structural)]
pub struct Dim {
    pub lo: i64,
    pub size: u64,
}

/// An unpacked type as handed out by the type checker.
#[derive(Debug)]
pub enum Ty {
    /// The type of an expression that failed to type check.
    Error,
    /// A single bit.
    Bit { domain: Domain, sign: Sign },
    /// One dimension around an element type; `packed` for packed dimensions.
    Array { dim: Dim, packed: bool, elem: Rc<Ty> },
    /// A struct; its members in declaration order.
    Struct { members: Vec<Rc<Ty>> },
    /// An interface, possibly seen through one of its modports.
    Intf { intf: usize, modport: Option<usize> },
    /// Any type that has no bit layout (a string, an event, ...).
    Other,
}

/// Structural identity of two types.
pub open spec fn identical(a: Ty, b: Ty) -> bool
    decreases a,
{
    match a {
        Ty::Error => b is Error,
        Ty::Other => b is Other,
        Ty::Bit { domain, sign } => b == (Ty::Bit { domain, sign }),
        Ty::Array { dim, packed, elem } => match b {
            Ty::Array { dim: d2, packed: p2, elem: e2 } => dim == d2 && packed == p2 && identical(
                *elem,
                *e2,
            ),
            _ => false,
        },
        Ty::Struct { members } => match b {
            Ty::Struct { members: m2 } => members@.len() == m2@.len() && members_identical(
                members@,
                m2@,
                members@.len() as int,
            ),
            _ => false,
        },
        Ty::Intf { intf, modport } => b == (Ty::Intf { intf, modport }),
    }
}

/// The first `n` members of two structs are pairwise identical.
pub open spec fn members_identical(a: Seq<Rc<Ty>>, b: Seq<Rc<Ty>>, n: int) -> bool
    decreases a, n,
{
    if n <= 0 || n > a.len() {
        true
    } else {
        members_identical(a, b, n - 1) && identical(*a[n - 1], *b[n - 1])
    }
}

/// Every type is identical to itself.
pub proof fn lemma_identical_refl(t: &Ty)
    ensures
        identical(*t, *t),
    decreases *t,
{
    match *t {
        Ty::Array { .. } => {
            assert(decreases_to!(*t => t->Array_elem));
            lemma_identical_refl(&*t->Array_elem);
        },
        Ty::Struct { .. } => {
            lemma_members_identical_refl(t, t->Struct_members@.len() as int);
        },
        _ => {},
    }
}

proof fn lemma_members_identical_refl(t: &Ty, n: int)
    requires
        *t is Struct,
        n <= t->Struct_members@.len(),
    ensures
        members_identical(t->Struct_members@, t->Struct_members@, n),
    decreases *t, n,
{
    if n > 0 {
        lemma_members_identical_refl(t, n - 1);
        assert(decreases_to!(*t => t->Struct_members));
        assert(decreases_to!(t->Struct_members => t->Struct_members@));
        assert(decreases_to!(t->Struct_members@ => t->Struct_members@[n - 1]));
        lemma_identical_refl(&*t->Struct_members@[n - 1]);
    }
}

/// Total number of bits of a type; zero for types without a bit layout.
pub open spec fn bit_width(t: Ty) -> nat
    decreases t,
{
    match t {
        Ty::Bit { .. } => 1,
        Ty::Array { dim, elem, .. } => (dim.size * bit_width(*elem)) as nat,
        Ty::Struct { members } => members_width(members@, members@.len() as int),
        _ => 0,
    }
}

/// Sum of the widths of the first `n` members.
pub open spec fn members_width(m: Seq<Rc<Ty>>, n: int) -> nat
    decreases m, n,
{
    if n <= 0 || n > m.len() {
        0
    } else {
        members_width(m, n - 1) + bit_width(*m[n - 1])
    }
}

/// Four-valued as soon as any bit is.
pub open spec fn domain_of(t: Ty) -> Domain
    decreases t,
{
    match t {
        Ty::Bit { domain, .. } => domain,
        Ty::Array { elem, .. } => domain_of(*elem),
        Ty::Struct { members } => members_domain(members@, members@.len() as int),
        _ => Domain::TwoValued,
    }
}

/// The domain of the first `n` members taken together.
pub open spec fn members_domain(m: Seq<Rc<Ty>>, n: int) -> Domain
    decreases m, n,
{
    if n <= 0 || n > m.len() {
        Domain::TwoValued
    } else if members_domain(m, n - 1) == Domain::FourValued || domain_of(*m[n - 1])
        == Domain::FourValued {
        Domain::FourValued
    } else {
        Domain::TwoValued
    }
}

/// The sign of a bit or of an array's bits; structs are unsigned.
pub open spec fn sign_of(t: Ty) -> Sign
    decreases t,
{
    match t {
        Ty::Bit { sign, .. } => sign,
        Ty::Array { elem, .. } => sign_of(*elem),
        _ => Sign::Unsigned,
    }
}

/// A type that occupies one contiguous run of bits with no nesting.
pub open spec fn coalesces(t: Ty) -> bool {
    match t {
        Ty::Bit { .. } => true,
        Ty::Array { packed, elem, .. } => packed && *elem is Bit,
        _ => false,
    }
}

/// The flat vector `[width - 1 : 0]`.
pub open spec fn sbv(domain: Domain, sign: Sign, width: nat) -> Ty {
    Ty::Array {
        dim: Dim { lo: 0, size: width as u64 },
        packed: true,
        elem: Rc::new(Ty::Bit { domain, sign }),
    }
}

/// The simple bit vector form of a type has as many bits as the type.
pub proof fn lemma_sbv_width(t: &Ty)
    requires
        bit_width(*t) <= u64::MAX,
    ensures
        bit_width(sbv_of(*t)) == bit_width(*t),
{
    let ghost b = Ty::Bit { domain: domain_of(*t), sign: sign_of(*t) };
    assert(bit_width(b) == 1);
    assert(bit_width(sbv_of(*t)) == (bit_width(*t) as u64) * bit_width(b));
}

/// The simple bit vector with the same width, domain and sign as `t`.
pub open spec fn sbv_of(t: Ty) -> Ty {
    sbv(domain_of(t), sign_of(t), bit_width(t))
}

/// A type that can be reinterpreted as a simple bit vector: bits, arrays and
/// structs of them, with at least one bit, and a width that fits a `u64`.
pub open spec fn packable(t: Ty) -> bool {
    layout(t) && bit_width(t) <= u64::MAX
}

/// Bits, and non-empty arrays and structs of them.
pub open spec fn layout(t: Ty) -> bool
    decreases t,
{
    match t {
        Ty::Bit { .. } => true,
        Ty::Array { dim, elem, .. } => dim.size >= 1 && layout(*elem),
        Ty::Struct { members } => members@.len() >= 1 && members_layout(
            members@,
            members@.len() as int,
        ),
        _ => false,
    }
}

/// The first `n` members all have a bit layout.
pub open spec fn members_layout(m: Seq<Rc<Ty>>, n: int) -> bool
    decreases m, n,
{
    if n <= 0 || n > m.len() {
        true
    } else {
        members_layout(m, n - 1) && layout(*m[n - 1])
    }
}

proof fn lemma_members_layout(m: Seq<Rc<Ty>>, i: int, n: int)
    requires
        0 <= i < n <= m.len(),
        members_layout(m, n),
    ensures
        layout(*m[i]),
    decreases n,
{
    if i < n - 1 {
        lemma_members_layout(m, i, n - 1);
    }
}

/// Every member of a struct with a bit layout has one, and is no wider.
pub proof fn lemma_member_layout(t: &Ty, i: int)
    requires
        layout(*t),
        *t is Struct,
        0 <= i < t->Struct_members@.len(),
    ensures
        layout(*t->Struct_members@[i]),
        bit_width(*t->Struct_members@[i]) <= bit_width(*t),
{
    let ghost m = t->Struct_members@;
    lemma_members_layout(m, i, m.len() as int);
    lemma_members_width_mono(m, i, m.len() as int);
}

proof fn lemma_members_width_mono(m: Seq<Rc<Ty>>, i: int, n: int)
    requires
        0 <= i < n <= m.len(),
    ensures
        members_width(m, i) + bit_width(*m[i]) <= members_width(m, n),
    decreases n,
{
    if i < n - 1 {
        lemma_members_width_mono(m, i, n - 1);
    }
}

/// The element type of an array; `Error` for any other type.
pub open spec fn elem_of(t: Ty) -> Ty {
    match t {
        Ty::Array { elem, .. } => *elem,
        _ => Ty::Error,
    }
}

/// An element of an array with at least one element is no wider than the array.
pub proof fn lemma_elem_width(t: &Ty)
    requires
        *t is Array,
        t->Array_dim.size >= 1,
    ensures
        bit_width(elem_of(*t)) <= bit_width(*t),
        bit_width(*t) == t->Array_dim.size * bit_width(elem_of(*t)),
{
    let ghost s = t->Array_dim.size as int;
    let ghost w = bit_width(elem_of(*t)) as int;
    assert(bit_width(*t) == s * w);
    assert(w <= s * w) by (nonlinear_arith)
        requires
            s >= 1,
            w >= 0,
    ;
}

impl Ty {
    pub fn is_error(&self) -> (r: bool)
        ensures
            r == (*self is Error),
    {
        matches!(self, Ty::Error)
    }

    /// Structural identity, the way types are compared after interning.
    pub fn is_identical(&self, other: &Ty) -> (r: bool)
        ensures
            r == identical(*self, *other),
        decreases self,
    {
        match self {
            Ty::Error => other.is_error(),
            Ty::Other => matches!(other, Ty::Other),
            Ty::Bit { domain: d1, sign: s1 } => match other {
                Ty::Bit { domain: d2, sign: s2 } => *d1 == *d2 && *s1 == *s2,
                _ => false,
            },
            Ty::Array { dim: m1, packed: p1, elem: e1 } => match other {
                Ty::Array { dim: m2, packed: p2, elem: e2 } => *m1 == *m2 && *p1 == *p2
                    && (**e1).is_identical(&**e2),
                _ => false,
            },
            Ty::Struct { members: v1 } => match other {
                Ty::Struct { members: v2 } => {
                    if v1.len() != v2.len() {
                        return false;
                    }
                    let mut ok = true;
                    let mut i: usize = 0;
                    while i < v1.len()
                        invariant
                            *self is Struct,
                            self->Struct_members == *v1,
                            v1.len() == v2.len(),
                            i <= v1.len(),
                            ok == members_identical(v1@, v2@, i as int),
                        decreases v1.len() - i,
                    {
                        proof {
                            assert(decreases_to!(*self => self->Struct_members));
                            assert(decreases_to!(self->Struct_members => self->Struct_members@));
                            assert(decreases_to!(self->Struct_members@ => self->Struct_members@[i as int]));
                        }
                        if ok {
                            ok = v1[i].is_identical(&v2[i]);
                        }
                        i += 1;
                    }
                    ok
                },
                _ => false,
            },
            Ty::Intf { intf: i1, modport: m1 } => match other {
                Ty::Intf { intf: i2, modport: m2 } => *i1 == *i2 && match (m1, m2) {
                    (None, None) => true,
                    (Some(a), Some(b)) => *a == *b,
                    _ => false,
                },
                _ => false,
            },
        }
    }

    /// The outermost dimension, if any.
    pub fn outermost_dim(&self) -> (r: Option<Dim>)
        ensures
            r == (match *self {
                Ty::Array { dim, .. } => Some(dim),
                _ => None,
            }),
    {
        match self {
            Ty::Array { dim, .. } => Some(*dim),
            _ => None,
        }
    }

    pub fn coalesces_to_scalar(&self) -> (r: bool)
        ensures
            r == coalesces(*self),
    {
        match self {
            Ty::Bit { .. } => true,
            Ty::Array { packed, elem, .. } => *packed && matches!(**elem, Ty::Bit { .. }),
            _ => false,
        }
    }

    /// Total number of bits.
    pub fn bit_size(&self) -> (r: u64)
        requires
            layout(*self),
            bit_width(*self) <= u64::MAX,
        ensures
            r == bit_width(*self),
        decreases self,
    {
        match self {
            Ty::Bit { .. } => 1,
            Ty::Array { dim, elem, .. } => {
                if dim.size == 0 {
                    return 0;
                }
                proof {
                    lemma_elem_width(self);
                }
                let w = (**elem).bit_size();
                dim.size * w
            },
            Ty::Struct { members } => {
                let ghost m = members@;
                let mut sum: u64 = 0;
                let mut i: usize = 0;
                while i < members.len()
                    invariant
                        m == members@,
                        *self is Struct,
                        m == self->Struct_members@,
                        layout(*self),
                        bit_width(*self) <= u64::MAX,
                        i <= m.len(),
                        sum == members_width(m, i as int),
                    decreases m.len() - i,
                {
                    proof {
                        lemma_members_width_mono(m, i as int, m.len() as int);
                        lemma_member_layout(self, i as int);
                        assert(decreases_to!(*self => self->Struct_members));
                        assert(decreases_to!(self->Struct_members => self->Struct_members@));
                        assert(decreases_to!(self->Struct_members@ => self->Struct_members@[i as int]));
                    }
                    let w = members[i].bit_size();
                    sum = sum + w;
                    i += 1;
                }
                sum
            },
            _ => 0,
        }
    }

    pub fn domain(&self) -> (r: Domain)
        ensures
            r == domain_of(*self),
        decreases self,
    {
        match self {
            Ty::Bit { domain, .. } => *domain,
            Ty::Array { elem, .. } => (**elem).domain(),
            Ty::Struct { members } => {
                let mut acc = Domain::TwoValued;
                let mut i: usize = 0;
                while i < members.len()
                    invariant
                        *self is Struct,
                        self->Struct_members == *members,
                        i <= members@.len(),
                        acc == members_domain(members@, i as int),
                    decreases members@.len() - i,
                {
                    proof {
                        assert(decreases_to!(*self => self->Struct_members));
                        assert(decreases_to!(self->Struct_members => self->Struct_members@));
                        assert(decreases_to!(self->Struct_members@ => self->Struct_members@[i as int]));
                    }
                    if members[i].domain() == Domain::FourValued {
                        acc = Domain::FourValued;
                    }
                    i += 1;
                }
                acc
            },
            _ => Domain::TwoValued,
        }
    }

    pub fn sign(&self) -> (r: Sign)
        ensures
            r == sign_of(*self),
        decreases self,
    {
        match self {
            Ty::Bit { sign, .. } => *sign,
            Ty::Array { elem, .. } => (**elem).sign(),
            _ => Sign::Unsigned,
        }
    }

    /// The simple bit vector of the given shape.
    pub fn make_sbv(domain: Domain, sign: Sign, width: u64) -> (r: Ty)
        ensures
            r == sbv(domain, sign, width as nat),
    {
        Ty::Array {
            dim: Dim { lo: 0, size: width },
            packed: true,
            elem: Rc::new(Ty::Bit { domain, sign }),
        }
    }

    /// This type reinterpreted as a simple bit vector.
    pub fn simple_bit_vector(&self) -> (r: Ty)
        requires
            packable(*self),
        ensures
            r == sbv_of(*self),
    {
        Ty::make_sbv(self.domain(), self.sign(), self.bit_size())
    }
}

impl Ty {
    /// The width of this type if it is packable.
    pub fn packed_width(&self) -> (r: Option<u64>)
        ensures
            r is Some <==> packable(*self),
            r is Some ==> r->0 == bit_width(*self),
        decreases self,
    {
        match self {
            Ty::Bit { .. } => Some(1),
            Ty::Array { dim, elem, .. } => {
                if dim.size == 0 {
                    return None;
                }
                proof {
                    lemma_elem_width(self);
                    assert(decreases_to!(*self => self->Array_elem));
                }
                match (**elem).packed_width() {
                    Some(w) => dim.size.checked_mul(w),
                    None => {
                        proof {
                            if layout(elem_of(*self)) {
                                assert(bit_width(elem_of(*self)) > u64::MAX);
                            }
                        }
                        None
                    },
                }
            },
            Ty::Struct { members } => {
                if members.len() == 0 {
                    return None;
                }
                let ghost m = members@;
                let mut sum: u64 = 0;
                let mut i: usize = 0;
                while i < members.len()
                    invariant
                        m == members@,
                        *self is Struct,
                        m == self->Struct_members@,
                        m.len() >= 1,
                        i <= m.len(),
                        sum == members_width(m, i as int),
                        members_layout(m, i as int),
                    decreases m.len() - i,
                {
                    proof {
                        lemma_members_width_mono(m, i as int, m.len() as int);
                        assert(decreases_to!(*self => self->Struct_members));
                        assert(decreases_to!(self->Struct_members => self->Struct_members@));
                        assert(decreases_to!(self->Struct_members@ => self->Struct_members@[i as int]));
                    }
                    match members[i].packed_width() {
                        Some(w) => match sum.checked_add(w) {
                            Some(t) => {
                                sum = t;
                            },
                            None => {
                                proof {
                                    lemma_members_width_mono(m, i as int, m.len() as int);
                                    lemma_members_width_prefix(m, i as int + 1, m.len() as int);
                                }
                                return None;
                            },
                        },
                        None => {
                            proof {
                                if members_layout(m, m.len() as int) {
                                    lemma_members_layout(m, i as int, m.len() as int);
                                    lemma_members_width_mono(m, i as int, m.len() as int);
                                }
                            }
                            return None;
                        },
                    }
                    i += 1;
                }
                Some(sum)
            },
            _ => None,
        }
    }
}

proof fn lemma_members_width_prefix(m: Seq<Rc<Ty>>, i: int, n: int)
    requires
        0 <= i <= n <= m.len(),
    ensures
        members_width(m, i) <= members_width(m, n),
    decreases n,
{
    if i < n {
        lemma_members_width_prefix(m, i, n - 1);
    }
}

} // verus!
