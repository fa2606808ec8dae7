//! Equality of type shapes.

use crate::arena::Handle;
use crate::valid::ir::{ArraySize, StructMember, TypeInner};
use vstd::prelude::*;
use vstd::std_specs::cmp::PartialEqSpecImpl;

verus! {

/// Two optional names are equal: both absent, or both present with the same text.
pub open spec fn same_name(a: Option<String>, b: Option<String>) -> bool {
    match (a, b) {
        (None, None) => true,
        (Some(x), Some(y)) => x@ == y@,
        _ => false,
    }
}

/// Two structure members are equal.
pub open spec fn same_member(a: StructMember, b: StructMember) -> bool {
    same_name(a.name, b.name) && a.ty == b.ty
}

/// Two array lengths are equal.
pub open spec fn same_array_size(a: ArraySize, b: ArraySize) -> bool {
    match (a, b) {
        (ArraySize::Constant(x), ArraySize::Constant(y)) => x == y,
        (ArraySize::Dynamic, ArraySize::Dynamic) => true,
        _ => false,
    }
}

/// Two type shapes are equal, field by field; names are compared by their text.
pub open spec fn same_type_inner(a: TypeInner, b: TypeInner) -> bool {
    match (a, b) {
        (
            TypeInner::Scalar { kind: k1, width: w1 },
            TypeInner::Scalar { kind: k2, width: w2 },
        ) => k1 == k2 && w1 == w2,
        (
            TypeInner::Vector { size: s1, kind: k1, width: w1 },
            TypeInner::Vector { size: s2, kind: k2, width: w2 },
        ) => s1 == s2 && k1 == k2 && w1 == w2,
        (
            TypeInner::Matrix { columns: c1, rows: r1, width: w1 },
            TypeInner::Matrix { columns: c2, rows: r2, width: w2 },
        ) => c1 == c2 && r1 == r2 && w1 == w2,
        (
            TypeInner::Pointer { base: b1, class: c1 },
            TypeInner::Pointer { base: b2, class: c2 },
        ) => b1 == b2 && c1 == c2,
        (
            TypeInner::ValuePointer { size: s1, kind: k1, width: w1, class: c1 },
            TypeInner::ValuePointer { size: s2, kind: k2, width: w2, class: c2 },
        ) => s1 == s2 && k1 == k2 && w1 == w2 && c1 == c2,
        (
            TypeInner::Array { base: b1, size: s1, stride: t1 },
            TypeInner::Array { base: b2, size: s2, stride: t2 },
        ) => b1 == b2 && same_array_size(s1, s2) && t1 == t2,
        (
            TypeInner::Struct { block: b1, members: m1 },
            TypeInner::Struct { block: b2, members: m2 },
        ) => {
            &&& b1 == b2
            &&& m1@.len() == m2@.len()
            &&& forall|i: int| 0 <= i < m1@.len() ==> same_member(#[trigger] m1@[i], m2@[i])
        },
        (
            TypeInner::Image { dim: d1, arrayed: a1, class: c1 },
            TypeInner::Image { dim: d2, arrayed: a2, class: c2 },
        ) => d1 == d2 && a1 == a2 && c1 == c2,
        (TypeInner::Sampler { comparison: c1 }, TypeInner::Sampler { comparison: c2 }) => c1
            == c2,
        _ => false,
    }
}

fn names_equal(a: &Option<String>, b: &Option<String>) -> (r: bool)
    ensures
        r == same_name(*a, *b),
{
    match (a, b) {
        (None, None) => true,
        (Some(x), Some(y)) => String::eq(x, y),
        _ => false,
    }
}

fn handles_equal<T>(a: Handle<T>, b: Handle<T>) -> (r: bool)
    ensures
        r == (a == b),
{
    a.index == b.index
}

fn members_equal(a: &Vec<StructMember>, b: &Vec<StructMember>) -> (r: bool)
    ensures
        r == (a@.len() == b@.len() && forall|i: int|
            0 <= i < a@.len() ==> same_member(#[trigger] a@[i], b@[i])),
{
    if a.len() != b.len() {
        return false;
    }
    let mut i: usize = 0;
    while i < a.len()
        invariant
            a@.len() == b@.len(),
            i <= a@.len(),
            forall|j: int| 0 <= j < i ==> same_member(#[trigger] a@[j], b@[j]),
        decreases a@.len() - i,
    {
        if !names_equal(&a[i].name, &b[i].name) || !handles_equal(a[i].ty, b[i].ty) {
            return false;
        }
        i = i + 1;
    }
    true
}

fn array_sizes_equal(a: &ArraySize, b: &ArraySize) -> (r: bool)
    ensures
        r == same_array_size(*a, *b),
{
    match (a, b) {
        (ArraySize::Constant(x), ArraySize::Constant(y)) => handles_equal(*x, *y),
        (ArraySize::Dynamic, ArraySize::Dynamic) => true,
        _ => false,
    }
}

impl PartialEq for TypeInner {
    fn eq(&self, other: &TypeInner) -> (r: bool) {
        match (self, other) {
            (
                TypeInner::Scalar { kind: k1, width: w1 },
                TypeInner::Scalar { kind: k2, width: w2 },
            ) => *k1 == *k2 && *w1 == *w2,
            (
                TypeInner::Vector { size: s1, kind: k1, width: w1 },
                TypeInner::Vector { size: s2, kind: k2, width: w2 },
            ) => *s1 == *s2 && *k1 == *k2 && *w1 == *w2,
            (
                TypeInner::Matrix { columns: c1, rows: r1, width: w1 },
                TypeInner::Matrix { columns: c2, rows: r2, width: w2 },
            ) => *c1 == *c2 && *r1 == *r2 && *w1 == *w2,
            (
                TypeInner::Pointer { base: b1, class: c1 },
                TypeInner::Pointer { base: b2, class: c2 },
            ) => handles_equal(*b1, *b2) && *c1 == *c2,
            (
                TypeInner::ValuePointer { size: s1, kind: k1, width: w1, class: c1 },
                TypeInner::ValuePointer { size: s2, kind: k2, width: w2, class: c2 },
            ) => {
                let sizes = match (s1, s2) {
                    (None, None) => true,
                    (Some(x), Some(y)) => *x == *y,
                    _ => false,
                };
                sizes && *k1 == *k2 && *w1 == *w2 && *c1 == *c2
            },
            (
                TypeInner::Array { base: b1, size: s1, stride: t1 },
                TypeInner::Array { base: b2, size: s2, stride: t2 },
            ) => handles_equal(*b1, *b2) && array_sizes_equal(s1, s2) && *t1 == *t2,
            (
                TypeInner::Struct { block: b1, members: m1 },
                TypeInner::Struct { block: b2, members: m2 },
            ) => *b1 == *b2 && members_equal(m1, m2),
            (
                TypeInner::Image { dim: d1, arrayed: a1, class: c1 },
                TypeInner::Image { dim: d2, arrayed: a2, class: c2 },
            ) => *d1 == *d2 && *a1 == *a2 && *c1 == *c2,
            (
                TypeInner::Sampler { comparison: c1 },
                TypeInner::Sampler { comparison: c2 },
            ) => *c1 == *c2,
            _ => false,
        }
    }
}

impl PartialEqSpecImpl for TypeInner {
    open spec fn obeys_eq_spec() -> bool {
        true
    }

    open spec fn eq_spec(&self, other: &TypeInner) -> bool {
        same_type_inner(*self, *other)
    }
}

/// Equality of type shapes, which `==` on [`TypeInner`] decides, is an
/// equivalence: every shape equals itself, equality is symmetric, and two
/// shapes equal to a third are equal.
pub proof fn lemma_same_type_inner_is_equivalence(a: TypeInner, b: TypeInner, c: TypeInner)
    ensures
        same_type_inner(a, a),
        same_type_inner(a, b) == same_type_inner(b, a),
        same_type_inner(a, b) && same_type_inner(b, c) ==> same_type_inner(a, c),
{
    match (a, b, c) {
        (
            TypeInner::Struct { members: ma, .. },
            TypeInner::Struct { members: mb, .. },
            TypeInner::Struct { members: mc, .. },
        ) => {
            assert(forall|i: int| 0 <= i < ma@.len() ==> same_member(#[trigger] ma@[i], ma@[i]));
            if same_type_inner(a, b) {
                assert(forall|i: int|
                    0 <= i < mb@.len() ==> same_member(#[trigger] mb@[i], ma@[i]));
            }
            if same_type_inner(b, a) {
                assert(forall|i: int|
                    0 <= i < ma@.len() ==> same_member(#[trigger] ma@[i], mb@[i]));
            }
            if same_type_inner(a, b) && same_type_inner(b, c) {
                assert(forall|i: int|
                    0 <= i < ma@.len() ==> same_member(#[trigger] ma@[i], mc@[i])) by {
                    assert forall|i: int| 0 <= i < ma@.len() implies same_member(
                        #[trigger] ma@[i],
                        mc@[i],
                    ) by {
                        assert(same_member(ma@[i], mb@[i]));
                        assert(same_member(mb@[i], mc@[i]));
                    }
                }
            }
        },
        (TypeInner::Struct { members: ma, .. }, TypeInner::Struct { members: mb, .. }, _) => {
            assert(forall|i: int| 0 <= i < ma@.len() ==> same_member(#[trigger] ma@[i], ma@[i]));
            if same_type_inner(a, b) {
                assert(forall|i: int|
                    0 <= i < mb@.len() ==> same_member(#[trigger] mb@[i], ma@[i]));
            }
            if same_type_inner(b, a) {
                assert(forall|i: int|
                    0 <= i < ma@.len() ==> same_member(#[trigger] ma@[i], mb@[i]));
            }
        },
        (TypeInner::Struct { members: ma, .. }, _, _) => {
            assert(forall|i: int| 0 <= i < ma@.len() ==> same_member(#[trigger] ma@[i], ma@[i]));
        },
        _ => {},
    }
}

/// For every shape but structures, whose member names are text, two shapes
/// are equal exactly when they are the same value: every field counts.
pub proof fn lemma_shape_equality_is_equality(a: TypeInner, b: TypeInner)
    requires
        !(a is Struct),
    ensures
        same_type_inner(a, b) <==> a == b,
{
    match (a, b) {
        (TypeInner::Array { size: s1, .. }, TypeInner::Array { size: s2, .. }) => {
            assert(same_array_size(s1, s2) <==> s1 == s2);
        },
        _ => {},
    }
}

} // verus!
