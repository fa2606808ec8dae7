//! The shader module representation that the GLSL backend reads.

use crate::arena::{Arena, Handle};
pub use crate::ir::{
    Bytes, DerivativeAxis, ImageDimension, ScalarKind, UnaryOperator, VectorSize, vector_size_value,
};
use vstd::prelude::*;

verus! {

/// Where a value lives.
#[derive(Clone, Copy, Debug, PartialEq, Eq, Structural)]
pub enum StorageClass {
    Constant,
    Function,
    Input,
    Output,
    Private,
    StorageBuffer,
    Uniform,
    WorkGroup,
}

/// Length of an array type.
#[derive(Clone, Copy, Debug, PartialEq, Eq, Structural)]
pub enum ArraySize {
    /// A length fixed in the shader.
    Static(u32),
    /// A length known only at run time.
    Dynamic,
}

/// Properties of an image type, one bit per property.
#[derive(Clone, Copy, Debug, PartialEq, Eq, Structural)]
pub struct ImageFlags {
    pub bits: u32,
}

/// The image is an array of layers.
pub const IMAGE_ARRAYED: u32 = 0x1u32;

/// The image has several samples per texel.
pub const IMAGE_MULTISAMPLED: u32 = 0x2u32;

/// The image can be sampled.
pub const IMAGE_SAMPLED: u32 = 0x4u32;

/// The image can be loaded from.
pub const IMAGE_CAN_LOAD: u32 = 0x10u32;

/// The image can be stored to.
pub const IMAGE_CAN_STORE: u32 = 0x20u32;

impl ImageFlags {
    /// Every flag of `other` is set in `self`.
    pub open spec fn spec_contains(self, other: ImageFlags) -> bool {
        self.bits & other.bits == other.bits
    }

    /// Whether every flag of `other` is set in `self`.
    pub fn contains(&self, other: ImageFlags) -> (r: bool)
        ensures
            r == self.spec_contains(other),
    {
        self.bits & other.bits == other.bits
    }
}

/// A member of a structure type.
#[derive(Debug)]
pub struct StructMember {
    pub name: Option<String>,
    pub ty: Handle<Type>,
}

/// The shape of a type.
#[derive(Debug)]
#[allow(inconsistent_fields)]
pub enum TypeInner {
    Scalar { kind: ScalarKind, width: Bytes },
    Vector { size: VectorSize, kind: ScalarKind, width: Bytes },
    Matrix { columns: VectorSize, rows: VectorSize, kind: ScalarKind, width: Bytes },
    Pointer { base: Handle<Type>, class: StorageClass },
    Array { base: Handle<Type>, size: ArraySize, stride: Option<u32> },
    Struct { members: Vec<StructMember> },
    Image { base: Handle<Type>, dim: ImageDimension, flags: ImageFlags },
    DepthImage { dim: ImageDimension, arrayed: bool },
    Sampler { comparison: bool },
}

/// A type of the module.
#[derive(Debug)]
pub struct Type {
    pub name: Option<String>,
    pub inner: TypeInner,
}

/// The value of a constant.
#[derive(Debug)]
pub enum ConstantInner {
    Sint(i64),
    Uint(u64),
    /// A floating-point value, held as the text that displaying it gives.
    Float(String),
    Bool(bool),
    Composite(Vec<Handle<Constant>>),
}

/// A constant of the module.
#[derive(Debug)]
pub struct Constant {
    pub name: Option<String>,
    pub specialization: Option<u32>,
    pub inner: ConstantInner,
    pub ty: Handle<Type>,
}

/// Operation of a binary expression.
#[derive(Clone, Copy, Debug, PartialEq, Eq, Structural)]
pub enum BinaryOperator {
    Add,
    Subtract,
    Multiply,
    Divide,
    Modulo,
    Equal,
    NotEqual,
    Less,
    LessEqual,
    Greater,
    GreaterEqual,
    And,
    ExclusiveOr,
    InclusiveOr,
    LogicalAnd,
    LogicalOr,
    ShiftLeftLogical,
    ShiftRightLogical,
    ShiftRightArithmetic,
}

/// A built-in test function.
#[derive(Clone, Copy, Debug, PartialEq, Eq, Structural)]
pub enum IntrinsicFunction {
    Any,
    All,
    IsNan,
    IsInf,
    IsFinite,
    IsNormal,
}

/// A global variable of the module.
#[derive(Debug)]
pub struct GlobalVariable {
    pub name: Option<String>,
    pub class: StorageClass,
    pub ty: Handle<Type>,
}

/// A local variable of a function.
#[derive(Debug)]
pub struct LocalVariable {
    pub name: Option<String>,
    pub ty: Handle<Type>,
}

/// A function of the module.
#[derive(Debug)]
pub struct Function {
    pub name: Option<String>,
    pub local_variables: Arena<LocalVariable>,
    pub expressions: Arena<Expression>,
}

/// The function that a call reaches.
#[derive(Debug)]
pub enum FunctionOrigin {
    /// A function outside the module, by name.
    External(String),
    /// A function of the module.
    Local(Handle<Function>),
}

/// An expression of a function body. Operands are handles into the
/// function's expression arena.
#[derive(Debug)]
#[allow(inconsistent_fields)]
pub enum Expression {
    Access { base: Handle<Expression>, index: Handle<Expression> },
    AccessIndex { base: Handle<Expression>, index: u32 },
    Constant(Handle<Constant>),
    Compose { ty: Handle<Type>, components: Vec<Handle<Expression>> },
    FunctionParameter(u32),
    GlobalVariable(Handle<GlobalVariable>),
    LocalVariable(Handle<LocalVariable>),
    Load { pointer: Handle<Expression> },
    ImageSample {
        image: Handle<Expression>,
        sampler: Handle<Expression>,
        coordinate: Handle<Expression>,
        depth_ref: Option<Handle<Expression>>,
    },
    Unary { op: UnaryOperator, expr: Handle<Expression> },
    Binary { op: BinaryOperator, left: Handle<Expression>, right: Handle<Expression> },
    Intrinsic { fun: IntrinsicFunction, argument: Handle<Expression> },
    DotProduct(Handle<Expression>, Handle<Expression>),
    CrossProduct(Handle<Expression>, Handle<Expression>),
    Derivative { axis: DerivativeAxis, expr: Handle<Expression> },
    Call { origin: FunctionOrigin, arguments: Vec<Handle<Expression>> },
}

/// Marks a switch case that falls through to the next one.
#[derive(Clone, Copy, Debug, PartialEq, Eq, Structural)]
pub struct FallThrough {
}

/// A sequence of statements.
pub type Block = Vec<Statement>;

/// A case of a switch statement: its label, its body and whether it falls through.
/// The labels of one switch differ from each other; writing a switch asks for it.
#[derive(Debug)]
pub struct SwitchCase {
    pub label: i32,
    pub body: Block,
    pub fall_through: Option<FallThrough>,
}

/// A statement of a function body.
#[derive(Debug)]
#[allow(inconsistent_fields)]
pub enum Statement {
    Empty,
    Block(Block),
    If { condition: Handle<Expression>, accept: Block, reject: Block },
    Switch { selector: Handle<Expression>, cases: Vec<SwitchCase>, default: Block },
    Loop { body: Block, continuing: Block },
    Break,
    Continue,
    Return { value: Option<Handle<Expression>> },
    Kill,
    Store { pointer: Handle<Expression>, value: Handle<Expression> },
}

/// A shader module, with the parts that the backend reads.
#[derive(Debug)]
pub struct Module {
    pub types: Arena<Type>,
    pub constants: Arena<Constant>,
    pub global_variables: Arena<GlobalVariable>,
    pub functions: Arena<Function>,
}

} // verus!
