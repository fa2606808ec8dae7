//! The shader module representation that validation reads.
//!
//! Each type keeps the parts of a module that expression validation looks
//! at: expressions, their operands, the types they produce and the constants
//! that give array lengths.

use crate::arena::{Arena, Handle};
pub use crate::ir::{
    Bytes, DerivativeAxis, ImageDimension, ScalarKind, UnaryOperator, VectorSize, vector_size_value,
};
use vstd::prelude::*;

verus! {

/// Where a value lives.
#[derive(Clone, Copy, Debug, PartialEq, Eq, Structural)]
pub enum StorageClass {
    Function,
    Input,
    Output,
    Private,
    Storage,
    Uniform,
    WorkGroup,
    Handle,
    PushConstant,
}

/// Texel format of a storage image.
#[derive(Clone, Copy, Debug, PartialEq, Eq, Structural)]
pub enum StorageFormat {
    R8Unorm,
    R8Snorm,
    R8Uint,
    R8Sint,
    R16Uint,
    R16Sint,
    R16Float,
    Rg8Unorm,
    Rg8Snorm,
    Rg8Uint,
    Rg8Sint,
    R32Uint,
    R32Sint,
    R32Float,
    Rg16Uint,
    Rg16Sint,
    Rg16Float,
    Rgba8Unorm,
    Rgba8Snorm,
    Rgba8Uint,
    Rgba8Sint,
    Rgb10a2Unorm,
    Rg11b10Float,
    Rg32Uint,
    Rg32Sint,
    Rg32Float,
    Rgba16Uint,
    Rgba16Sint,
    Rgba16Float,
    Rgba32Uint,
    Rgba32Sint,
    Rgba32Float,
}

/// How an image is accessed.
#[derive(Clone, Copy, Debug, PartialEq, Eq, Structural)]
pub enum ImageClass {
    Sampled { kind: ScalarKind, multi: bool },
    Depth,
    Storage(StorageFormat),
}

/// Length of an array type.
#[derive(Debug)]
pub enum ArraySize {
    /// Given by a constant of the module.
    Constant(Handle<Constant>),
    /// Known only at run time.
    Dynamic,
}

/// A member of a structure type.
#[derive(Debug)]
pub struct StructMember {
    pub name: Option<String>,
    pub ty: Handle<Type>,
}

/// The shape of a type.
#[derive(Debug)]
#[allow(inconsistent_fields)]
pub enum TypeInner {
    Scalar { kind: ScalarKind, width: Bytes },
    Vector { size: VectorSize, kind: ScalarKind, width: Bytes },
    Matrix { columns: VectorSize, rows: VectorSize, width: Bytes },
    Pointer { base: Handle<Type>, class: StorageClass },
    ValuePointer { size: Option<VectorSize>, kind: ScalarKind, width: Bytes, class: StorageClass },
    Array { base: Handle<Type>, size: ArraySize, stride: u32 },
    Struct { block: bool, members: Vec<StructMember> },
    Image { dim: ImageDimension, arrayed: bool, class: ImageClass },
    Sampler { comparison: bool },
}

/// A type of the module.
#[derive(Debug)]
pub struct Type {
    pub name: Option<String>,
    pub inner: TypeInner,
}

/// A scalar constant value. Floating-point values are kept as their bit pattern.
#[derive(Clone, Copy, Debug, PartialEq, Eq, Structural)]
pub enum ScalarValue {
    Sint(i64),
    Uint(u64),
    Float(u64),
    Bool(bool),
}

/// The value of a constant.
#[derive(Debug)]
pub enum ConstantInner {
    Scalar { width: Bytes, value: ScalarValue },
    Composite { ty: Handle<Type>, components: Vec<Handle<Constant>> },
}

/// A constant of the module.
#[derive(Debug)]
pub struct Constant {
    pub name: Option<String>,
    pub inner: ConstantInner,
}

/// The array length that a constant stands for: a scalar integer value that
/// fits in `u32`.
pub open spec fn constant_array_length(c: Constant) -> Option<u32> {
    match c.inner {
        ConstantInner::Scalar { value: ScalarValue::Uint(v), .. } => if v <= u32::MAX {
            Some(v as u32)
        } else {
            None
        },
        ConstantInner::Scalar { value: ScalarValue::Sint(v), .. } => if 0 <= v <= u32::MAX {
            Some(v as u32)
        } else {
            None
        },
        _ => None,
    }
}

impl Constant {
    /// The array length given by this constant, if it is a scalar integer in
    /// the range of `u32`.
    pub fn to_array_length(&self) -> (r: Option<u32>)
        ensures
            r == constant_array_length(*self),
    {
        match &self.inner {
            ConstantInner::Scalar { value: ScalarValue::Uint(v), .. } => {
                if *v <= 0xffff_ffffu64 {
                    Some(*v as u32)
                } else {
                    None
                }
            },
            ConstantInner::Scalar { value: ScalarValue::Sint(v), .. } => {
                if 0 <= *v && *v <= 0xffff_ffffi64 {
                    Some(*v as u32)
                } else {
                    None
                }
            },
            _ => None,
        }
    }
}

/// A global variable of the module.
#[derive(Debug)]
pub struct GlobalVariable {
    pub name: Option<String>,
    pub class: StorageClass,
    pub ty: Handle<Type>,
}

/// A local variable of a function.
#[derive(Debug)]
pub struct LocalVariable {
    pub name: Option<String>,
    pub ty: Handle<Type>,
}

/// A function argument.
#[derive(Debug)]
pub struct FunctionArgument {
    pub name: Option<String>,
    pub ty: Handle<Type>,
}

/// Operation of a binary expression.
#[derive(Clone, Copy, Debug, PartialEq, Eq, Structural)]
pub enum BinaryOperator {
    Add,
    Subtract,
    Multiply,
    Divide,
    Modulo,
    Equal,
    NotEqual,
    Less,
    LessEqual,
    Greater,
    GreaterEqual,
    And,
    ExclusiveOr,
    InclusiveOr,
    LogicalAnd,
    LogicalOr,
    ShiftLeft,
    ShiftRight,
}

/// A test on a boolean vector or on a floating-point value.
#[derive(Clone, Copy, Debug, PartialEq, Eq, Structural)]
pub enum RelationalFunction {
    All,
    Any,
    IsNan,
    IsInf,
    IsFinite,
    IsNormal,
}

/// What an image query asks for.
#[derive(Debug)]
pub enum ImageQuery {
    Size { level: Option<Handle<Expression>> },
    NumLevels,
    NumLayers,
    NumSamples,
}

/// An expression of a function body. Operands are handles into the
/// function's expression arena.
#[derive(Debug)]
#[allow(inconsistent_fields)]
pub enum Expression {
    Access { base: Handle<Expression>, index: Handle<Expression> },
    AccessIndex { base: Handle<Expression>, index: u32 },
    Constant(Handle<Constant>),
    Compose { ty: Handle<Type>, components: Vec<Handle<Expression>> },
    FunctionArgument(u32),
    GlobalVariable(Handle<GlobalVariable>),
    LocalVariable(Handle<LocalVariable>),
    Load { pointer: Handle<Expression> },
    ImageSample {
        image: Handle<Expression>,
        sampler: Handle<Expression>,
        coordinate: Handle<Expression>,
        array_index: Option<Handle<Expression>>,
        depth_ref: Option<Handle<Expression>>,
    },
    ImageLoad {
        image: Handle<Expression>,
        coordinate: Handle<Expression>,
        array_index: Option<Handle<Expression>>,
        index: Option<Handle<Expression>>,
    },
    ImageQuery { image: Handle<Expression>, query: ImageQuery },
    Unary { op: UnaryOperator, expr: Handle<Expression> },
    Binary { op: BinaryOperator, left: Handle<Expression>, right: Handle<Expression> },
    Select { condition: Handle<Expression>, accept: Handle<Expression>, reject: Handle<Expression> },
    Derivative { axis: DerivativeAxis, expr: Handle<Expression> },
    Relational { fun: RelationalFunction, argument: Handle<Expression> },
    Math {
        arg: Handle<Expression>,
        arg1: Option<Handle<Expression>>,
        arg2: Option<Handle<Expression>>,
    },
    As { expr: Handle<Expression>, kind: ScalarKind, convert: bool },
    Call(Handle<Function>),
    ArrayLength(Handle<Expression>),
}

/// A function of the module.
#[derive(Debug)]
pub struct Function {
    pub name: Option<String>,
    pub arguments: Vec<FunctionArgument>,
    pub local_variables: Arena<LocalVariable>,
    pub expressions: Arena<Expression>,
}

/// A shader module.
#[derive(Debug)]
pub struct Module {
    pub types: Arena<Type>,
    pub constants: Arena<Constant>,
    pub global_variables: Arena<GlobalVariable>,
    pub functions: Arena<Function>,
}

} // verus!
