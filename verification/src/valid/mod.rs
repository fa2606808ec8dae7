//! Validation of shader modules.

pub mod expression;
pub mod ir;
pub mod type_eq;

use crate::arena::Arena;
use crate::valid::ir::{ArraySize, ScalarKind, Type, TypeInner};
use vstd::prelude::*;

verus! {

/// A set of shader stages, one bit per stage.
#[derive(Clone, Copy, Debug, PartialEq, Eq, Structural)]
pub struct ShaderStages {
    pub bits: u8,
}

/// The bit of the vertex stage.
pub const STAGE_VERTEX: u8 = 1u8;

/// The bit of the fragment stage.
pub const STAGE_FRAGMENT: u8 = 2u8;

/// The bit of the compute stage.
pub const STAGE_COMPUTE: u8 = 4u8;

impl ShaderStages {
    /// The set of every stage.
    pub open spec fn spec_all() -> ShaderStages {
        ShaderStages { bits: 7 }
    }

    /// Every stage: vertex, fragment and compute.
    pub fn all() -> (s: Self)
        ensures
            s == Self::spec_all(),
    {
        ShaderStages { bits: 7 }
    }

    /// No stage.
    pub fn empty() -> (s: Self)
        ensures
            s.bits == 0,
    {
        ShaderStages { bits: 0 }
    }

    /// The vertex stage alone.
    pub fn vertex() -> (s: Self)
        ensures
            s.bits == STAGE_VERTEX,
    {
        ShaderStages { bits: STAGE_VERTEX }
    }

    /// The fragment stage alone.
    pub fn fragment() -> (s: Self)
        ensures
            s.bits == STAGE_FRAGMENT,
    {
        ShaderStages { bits: STAGE_FRAGMENT }
    }

    /// The compute stage alone.
    pub fn compute() -> (s: Self)
        ensures
            s.bits == STAGE_COMPUTE,
    {
        ShaderStages { bits: STAGE_COMPUTE }
    }

    /// Every stage of `other` is in `self`.
    pub open spec fn spec_contains(self, other: ShaderStages) -> bool {
        self.bits & other.bits == other.bits
    }

    /// Whether every stage of `other` is in `self`.
    pub fn contains(&self, other: ShaderStages) -> (r: bool)
        ensures
            r == self.spec_contains(other),
    {
        self.bits & other.bits == other.bits
    }
}

/// Properties of a type found by validation, one bit per property.
#[derive(Clone, Copy, Debug, PartialEq, Eq, Structural)]
pub struct TypeFlags {
    pub bits: u8,
}

/// The type can hold data.
pub const TYPE_DATA: u8 = 1u8;

/// The type has a size known when the shader is compiled.
pub const TYPE_SIZED: u8 = 2u8;

impl TypeFlags {
    /// Every flag of `other` is set in `self`.
    pub open spec fn spec_contains(self, other: TypeFlags) -> bool {
        self.bits & other.bits == other.bits
    }

    /// Whether every flag of `other` is set in `self`.
    pub fn contains(&self, other: TypeFlags) -> (r: bool)
        ensures
            r == self.spec_contains(other),
    {
        self.bits & other.bits == other.bits
    }
}

/// What validation found out about a type of the module.
pub struct TypeInfo {
    pub flags: TypeFlags,
}

/// The type of an expression: a type of the module, or a shape of its own.
pub enum TypeResolution {
    Handle(crate::arena::Handle<Type>),
    Value(TypeInner),
}

/// The shape that a resolution stands for, when its handle is in range.
pub open spec fn resolution_inner(r: TypeResolution, types: Seq<Type>) -> Option<TypeInner> {
    match r {
        TypeResolution::Handle(h) => if h.index < types.len() {
            Some(types[h.index as int].inner)
        } else {
            None
        },
        TypeResolution::Value(inner) => Some(inner),
    }
}

impl TypeResolution {
    /// The shape of the resolved type.
    pub fn inner_with<'a>(&'a self, types: &'a Arena<Type>) -> (r: &'a TypeInner)
        requires
            resolution_inner(*self, types@) is Some,
        ensures
            Some(*r) == resolution_inner(*self, types@),
    {
        match self {
            TypeResolution::Handle(h) => &types.get(*h).inner,
            TypeResolution::Value(inner) => inner,
        }
    }
}

/// What validation found out about an expression.
pub struct ExpressionInfo {
    pub ty: TypeResolution,
}

/// What validation found out about a function.
pub struct FunctionInfo {
    /// The stages from which the function may be called.
    pub available_stages: ShaderStages,
    /// One entry per expression of the function, in arena order.
    pub expressions: Vec<ExpressionInfo>,
}

/// The validator, with what it learnt of the module's types.
pub struct Validator {
    /// One entry per type of the module, in arena order.
    pub types: Vec<TypeInfo>,
}

/// The scalar kind of a scalar, vector or matrix type.
pub open spec fn scalar_kind_of(inner: TypeInner) -> Option<ScalarKind> {
    match inner {
        TypeInner::Scalar { kind, .. } => Some(kind),
        TypeInner::Vector { kind, .. } => Some(kind),
        TypeInner::Matrix { .. } => Some(ScalarKind::Float),
        _ => None,
    }
}

/// Whether a value of the type has a size known when the shader is compiled.
pub open spec fn is_sized_type(inner: TypeInner) -> bool {
    match inner {
        TypeInner::Array { size: ArraySize::Dynamic, .. } => false,
        TypeInner::Image { .. } => false,
        TypeInner::Sampler { .. } => false,
        _ => true,
    }
}

impl TypeInner {
    /// The scalar kind of a scalar, vector or matrix type; matrices hold floats.
    pub fn scalar_kind(&self) -> (r: Option<ScalarKind>)
        ensures
            r == scalar_kind_of(*self),
    {
        match self {
            TypeInner::Scalar { kind, .. } => Some(*kind),
            TypeInner::Vector { kind, .. } => Some(*kind),
            TypeInner::Matrix { .. } => Some(ScalarKind::Float),
            _ => None,
        }
    }

    /// Whether the type is sized: all but run-time sized arrays, images and samplers.
    pub fn is_sized(&self) -> (r: bool)
        ensures
            r == is_sized_type(*self),
    {
        match self {
            TypeInner::Array { size: ArraySize::Dynamic, .. } => false,
            TypeInner::Image { .. } => false,
            TypeInner::Sampler { .. } => false,
            _ => true,
        }
    }
}


/// The set of every stage contains each of the vertex, fragment and compute
/// stages, and only those.
pub proof fn lemma_all_stages_contain_each_stage(other: ShaderStages)
    ensures
        ShaderStages::spec_all().spec_contains(ShaderStages { bits: STAGE_VERTEX }),
        ShaderStages::spec_all().spec_contains(ShaderStages { bits: STAGE_FRAGMENT }),
        ShaderStages::spec_all().spec_contains(ShaderStages { bits: STAGE_COMPUTE }),
        ShaderStages::spec_all().spec_contains(other) <==> other.bits < 8,
{
    let b = other.bits;
    assert(7u8 & 1u8 == 1u8) by (bit_vector);
    assert(7u8 & 2u8 == 2u8) by (bit_vector);
    assert(7u8 & 4u8 == 4u8) by (bit_vector);
    assert((7u8 & b == b) <==> b < 8) by (bit_vector);
}

} // verus!
