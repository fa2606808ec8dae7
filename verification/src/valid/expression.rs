//! Validation of a single expression of a function.

use crate::arena::{Arena, Handle};
use crate::proc::ResolveError;
use crate::valid::ir::{
    ArraySize, BinaryOperator, Constant, ConstantInner, Expression, ScalarValue, Function, GlobalVariable,
    ImageClass, ImageQuery, LocalVariable, Module, RelationalFunction, ScalarKind, Type, TypeInner,
    UnaryOperator, VectorSize, constant_array_length, vector_size_value,
};
use crate::valid::type_eq::same_type_inner;
use crate::valid::{
    FunctionInfo, ShaderStages, TypeFlags, Validator, TYPE_DATA, TYPE_SIZED, is_sized_type,
    resolution_inner, scalar_kind_of,
};
use vstd::prelude::*;

verus! {

/// Why an expression is not valid.
#[derive(Clone, Debug, PartialEq, Eq)]
pub enum ExpressionError {
    DoesntExist,
    NotInScope,
    ForwardDependency(Handle<Expression>),
    InvalidBaseType(Handle<Expression>),
    InvalidIndexType(Handle<Expression>),
    IndexOutOfBounds(Handle<Expression>, u32),
    FunctionArgumentDoesntExist(u32),
    ConstantDoesntExist(Handle<Constant>),
    GlobalVarDoesntExist(Handle<GlobalVariable>),
    LocalVarDoesntExist(Handle<LocalVariable>),
    InvalidPointerType(Handle<Expression>),
    InvalidArrayType(Handle<Expression>),
    ComposeTypeDoesntExist(Handle<Type>),
    InvalidComposeType(Handle<Type>),
    InvalidComposeCount { given: u32, expected: u32 },
    InvalidComponentType(u32, Handle<Expression>),
    InvalidUnaryOperandType(UnaryOperator, Handle<Expression>),
    InvalidBinaryOperandTypes(BinaryOperator, Handle<Expression>, Handle<Expression>),
    InvalidSelectTypes,
    InvalidBooleanVector(Handle<Expression>),
    InvalidFloatArgument(Handle<Expression>),
    Type(ResolveError),
    ExpectedGlobalVariable,
    CallToUndeclaredFunction(Handle<Function>),
    ExpectedImageType(Handle<Type>),
    ExpectedSamplerType(Handle<Type>),
    InvalidImageClass(ImageClass),
}

impl From<ResolveError> for ExpressionError {
    fn from(error: ResolveError) -> (e: Self) {
        ExpressionError::Type(error)
    }
}

impl vstd::std_specs::convert::FromSpecImpl<ResolveError> for ExpressionError {
    open spec fn obeys_from_spec() -> bool {
        true
    }

    open spec fn from_spec(error: ResolveError) -> ExpressionError {
        ExpressionError::Type(error)
    }
}

/// The outcome of validating an expression: `None` where validation would
/// look up a handle that is out of range, take the length of an array whose
/// constant gives none, or overflow a component count; these inputs are not
/// accepted.
pub type Outcome<T> = Option<Result<T, ExpressionError>>;

/// The type of operand `handle` of the expression at `root`: operands must
/// come before the expression in the arena, and their types are those that
/// `info` recorded.
pub open spec fn resolved_type(
    root: Handle<Expression>,
    types: Seq<Type>,
    info: FunctionInfo,
    handle: Handle<Expression>,
) -> Outcome<TypeInner> {
    if handle.index < root.index {
        if handle.index < info.expressions@.len() {
            match resolution_inner(info.expressions@[handle.index as int].ty, types) {
                Some(inner) => Some(Ok(inner)),
                None => None,
            }
        } else {
            None
        }
    } else {
        Some(Err(ExpressionError::ForwardDependency(handle)))
    }
}

/// Looks up the types of the operands of the expression at `root`.
pub struct ExpressionTypeResolver<'a> {
    pub root: Handle<Expression>,
    pub types: &'a Arena<Type>,
    pub info: &'a FunctionInfo,
}

impl<'a> ExpressionTypeResolver<'a> {
    /// The type of the operand `handle`; operands that do not come before the
    /// root expression are forward dependencies.
    pub fn resolve(&self, handle: Handle<Expression>) -> (r: Result<&'a TypeInner, ExpressionError>)
        requires
            resolved_type(self.root, self.types@, *self.info, handle) is Some,
        ensures
            match r {
                Ok(inner) => resolved_type(self.root, self.types@, *self.info, handle) == Some(
                    Ok::<TypeInner, ExpressionError>(*inner),
                ),
                Err(e) => resolved_type(self.root, self.types@, *self.info, handle) == Some(
                    Err::<TypeInner, ExpressionError>(e),
                ),
            },
    {
        if handle.index < self.root.index {
            Ok(self.info.expressions[handle.index].ty.inner_with(self.types))
        } else {
            Err(ExpressionError::ForwardDependency(handle))
        }
    }
}

/// The set of every shader stage, the stages of most valid expressions.
pub open spec fn every_stage() -> ShaderStages {
    ShaderStages::spec_all()
}

/// A type that can be indexed by a run-time value.
pub open spec fn is_indexable(inner: TypeInner) -> bool {
    match inner {
        TypeInner::Vector { .. } => true,
        TypeInner::Matrix { .. } => true,
        TypeInner::Array { .. } => true,
        TypeInner::Pointer { .. } => true,
        _ => false,
    }
}

/// A signed or unsigned integer scalar, the types that can index.
pub open spec fn is_integer_scalar(inner: TypeInner) -> bool {
    match inner {
        TypeInner::Scalar { kind: ScalarKind::Sint, .. } => true,
        TypeInner::Scalar { kind: ScalarKind::Uint, .. } => true,
        _ => false,
    }
}

/// Outcome of `base[index]`.
pub open spec fn access_outcome(
    root: Handle<Expression>,
    types: Seq<Type>,
    info: FunctionInfo,
    base: Handle<Expression>,
    index: Handle<Expression>,
) -> Outcome<ShaderStages> {
    match resolved_type(root, types, info, base) {
        None => None,
        Some(Err(e)) => Some(Err(e)),
        Some(Ok(base_inner)) => if !is_indexable(base_inner) {
            Some(Err(ExpressionError::InvalidBaseType(base)))
        } else {
            match resolved_type(root, types, info, index) {
                None => None,
                Some(Err(e)) => Some(Err(e)),
                Some(Ok(index_inner)) => if is_integer_scalar(index_inner) {
                    Some(Ok(every_stage()))
                } else {
                    Some(Err(ExpressionError::InvalidIndexType(index)))
                },
            }
        },
    }
}

/// The number of elements that a constant index may reach in a value of the
/// type: `Some(Ok(n))` for `n` elements, `Some(Err(()))` where the type
/// cannot be indexed.
pub open spec fn index_limit(inner: TypeInner, constants: Seq<Constant>) -> Option<Result<u32, ()>> {
    match inner {
        TypeInner::Vector { size, .. } => Some(Ok(vector_size_value(size))),
        TypeInner::Matrix { columns, .. } => Some(Ok(vector_size_value(columns))),
        TypeInner::Array { size: ArraySize::Constant(handle), .. } => if handle.index
            < constants.len() {
            match constant_array_length(constants[handle.index as int]) {
                Some(n) => Some(Ok(n)),
                None => None,
            }
        } else {
            None
        },
        TypeInner::Array { .. } => Some(Ok(u32::MAX)),
        TypeInner::Pointer { .. } => Some(Ok(u32::MAX)),
        TypeInner::Struct { members, .. } => Some(Ok(members@.len() as u32)),
        _ => Some(Err(())),
    }
}

/// Outcome of `base.index` with a constant index.
pub open spec fn access_index_outcome(
    root: Handle<Expression>,
    types: Seq<Type>,
    constants: Seq<Constant>,
    info: FunctionInfo,
    base: Handle<Expression>,
    index: u32,
) -> Outcome<ShaderStages> {
    match resolved_type(root, types, info, base) {
        None => None,
        Some(Err(e)) => Some(Err(e)),
        Some(Ok(base_inner)) => match index_limit(base_inner, constants) {
            None => None,
            Some(Err(())) => Some(Err(ExpressionError::InvalidBaseType(base))),
            Some(Ok(limit)) => if index >= limit {
                Some(Err(ExpressionError::IndexOutOfBounds(base, index)))
            } else {
                Some(Ok(every_stage()))
            },
        },
    }
}

/// How many components a component of a vector of scalars of `kind` and
/// `width` contributes: 1 for such a scalar, the size for such a vector.
pub open spec fn vector_component_count(inner: TypeInner, kind: ScalarKind, width: u8) -> Option<u32> {
    match inner {
        TypeInner::Scalar { kind: k, width: w } => if k == kind && w == width {
            Some(1u32)
        } else {
            None
        },
        TypeInner::Vector { size, kind: k, width: w } => if k == kind && w == width {
            Some(vector_size_value(size))
        } else {
            None
        },
        _ => None,
    }
}

/// Outcome of composing a vector of `size` from the components from `i` on,
/// the earlier ones having contributed `total` components.
pub open spec fn vector_compose_rest(
    root: Handle<Expression>,
    types: Seq<Type>,
    info: FunctionInfo,
    components: Seq<Handle<Expression>>,
    size: VectorSize,
    kind: ScalarKind,
    width: u8,
    i: int,
    total: u32,
) -> Outcome<ShaderStages>
    decreases components.len() - i,
{
    if i < 0 || i >= components.len() {
        if vector_size_value(size) != total {
            Some(
                Err(
                    ExpressionError::InvalidComposeCount {
                        expected: vector_size_value(size),
                        given: total,
                    },
                ),
            )
        } else {
            Some(Ok(every_stage()))
        }
    } else {
        match resolved_type(root, types, info, components[i]) {
            None => None,
            Some(Err(e)) => Some(Err(e)),
            Some(Ok(inner)) => match vector_component_count(inner, kind, width) {
                None => Some(Err(ExpressionError::InvalidComponentType(i as u32, components[i]))),
                Some(count) => if total + count > u32::MAX {
                    None
                } else {
                    vector_compose_rest(
                        root,
                        types,
                        info,
                        components,
                        size,
                        kind,
                        width,
                        i + 1,
                        (total + count) as u32,
                    )
                },
            },
        }
    }
}

/// Outcome of checking that the components from `i` on all have the type `expected`.
pub open spec fn components_of_type_rest(
    root: Handle<Expression>,
    types: Seq<Type>,
    info: FunctionInfo,
    components: Seq<Handle<Expression>>,
    expected: TypeInner,
    i: int,
) -> Outcome<()>
    decreases components.len() - i,
{
    if i < 0 || i >= components.len() {
        Some(Ok(()))
    } else {
        match resolved_type(root, types, info, components[i]) {
            None => None,
            Some(Err(e)) => Some(Err(e)),
            Some(Ok(inner)) => if !same_type_inner(inner, expected) {
                Some(Err(ExpressionError::InvalidComponentType(i as u32, components[i])))
            } else {
                components_of_type_rest(root, types, info, components, expected, i + 1)
            },
        }
    }
}

/// Outcome of checking the components of a structure from `i` on against its
/// members, pairwise, and then their numbers.
pub open spec fn struct_compose_rest(
    root: Handle<Expression>,
    types: Seq<Type>,
    info: FunctionInfo,
    components: Seq<Handle<Expression>>,
    members: Seq<crate::valid::ir::StructMember>,
    i: int,
) -> Outcome<ShaderStages>
    decreases components.len() - i,
{
    if i < 0 || i >= components.len() || i >= members.len() {
        if members.len() != components.len() {
            Some(
                Err(
                    ExpressionError::InvalidComposeCount {
                        given: components.len() as u32,
                        expected: members.len() as u32,
                    },
                ),
            )
        } else {
            Some(Ok(every_stage()))
        }
    } else {
        match resolved_type(root, types, info, components[i]) {
            None => None,
            Some(Err(e)) => Some(Err(e)),
            Some(Ok(inner)) => if members[i].ty.index >= types.len() {
                None
            } else if !same_type_inner(inner, types[members[i].ty.index as int].inner) {
                Some(Err(ExpressionError::InvalidComponentType(i as u32, components[i])))
            } else {
                struct_compose_rest(root, types, info, components, members, i + 1)
            },
        }
    }
}

/// Stages of a check that passed, or its error.
pub open spec fn then_every_stage(r: Outcome<()>) -> Outcome<ShaderStages> {
    match r {
        None => None,
        Some(Err(e)) => Some(Err(e)),
        Some(Ok(())) => Some(Ok(every_stage())),
    }
}

/// Outcome of composing a value of type `ty` from `components`.
pub open spec fn compose_outcome(
    root: Handle<Expression>,
    types: Seq<Type>,
    constants: Seq<Constant>,
    info: FunctionInfo,
    ty: Handle<Type>,
    components: Seq<Handle<Expression>>,
) -> Outcome<ShaderStages> {
    if ty.index >= types.len() {
        Some(Err(ExpressionError::ComposeTypeDoesntExist(ty)))
    } else {
        match types[ty.index as int].inner {
            TypeInner::Vector { size, kind, width } => vector_compose_rest(
                root,
                types,
                info,
                components,
                size,
                kind,
                width,
                0,
                0,
            ),
            TypeInner::Matrix { columns, rows, width } => if vector_size_value(columns)
                != components.len() {
                Some(
                    Err(
                        ExpressionError::InvalidComposeCount {
                            expected: vector_size_value(columns),
                            given: components.len() as u32,
                        },
                    ),
                )
            } else {
                then_every_stage(
                    components_of_type_rest(
                        root,
                        types,
                        info,
                        components,
                        TypeInner::Vector { size: rows, kind: ScalarKind::Float, width },
                        0,
                    ),
                )
            },
            TypeInner::Array { base, size: ArraySize::Constant(handle), .. } => {
                if handle.index >= constants.len() {
                    None
                } else {
                    match constant_array_length(constants[handle.index as int]) {
                        None => None,
                        Some(count) => if count != components.len() {
                            Some(
                                Err(
                                    ExpressionError::InvalidComposeCount {
                                        expected: count,
                                        given: components.len() as u32,
                                    },
                                ),
                            )
                        } else if base.index >= types.len() {
                            None
                        } else {
                            then_every_stage(
                                components_of_type_rest(
                                    root,
                                    types,
                                    info,
                                    components,
                                    types[base.index as int].inner,
                                    0,
                                ),
                            )
                        },
                    }
                }
            },
            TypeInner::Struct { members, .. } => struct_compose_rest(
                root,
                types,
                info,
                components,
                members@,
                0,
            ),
            _ => Some(Err(ExpressionError::InvalidComposeType(ty))),
        }
    }
}

/// The flags of a type whose values can be loaded through a pointer.
pub open spec fn loadable_flags() -> TypeFlags {
    TypeFlags { bits: TYPE_SIZED | TYPE_DATA }
}

/// Outcome of loading through `pointer`.
pub open spec fn load_outcome(
    validator: Validator,
    root: Handle<Expression>,
    types: Seq<Type>,
    info: FunctionInfo,
    pointer: Handle<Expression>,
) -> Outcome<ShaderStages> {
    match resolved_type(root, types, info, pointer) {
        None => None,
        Some(Err(e)) => Some(Err(e)),
        Some(Ok(TypeInner::Pointer { base, .. })) => if base.index >= validator.types@.len() {
            None
        } else if validator.types@[base.index as int].flags.spec_contains(loadable_flags()) {
            Some(Ok(every_stage()))
        } else {
            Some(Err(ExpressionError::InvalidPointerType(pointer)))
        },
        Some(Ok(TypeInner::ValuePointer { .. })) => Some(Ok(every_stage())),
        Some(Ok(_)) => Some(Err(ExpressionError::InvalidPointerType(pointer))),
    }
}

/// Whether images of this class have mipmap levels that can be queried.
pub open spec fn image_class_has_levels(class: ImageClass) -> bool {
    match class {
        ImageClass::Sampled { multi, .. } => !multi,
        ImageClass::Storage(_) => false,
        ImageClass::Depth => true,
    }
}

/// Whether the query makes sense for an image of the class, arrayed or not.
pub open spec fn image_query_fits(query: ImageQuery, class: ImageClass, arrayed: bool) -> bool {
    match query {
        ImageQuery::NumLayers => arrayed,
        ImageQuery::Size { level: Some(_) } => image_class_has_levels(class),
        ImageQuery::NumLevels => image_class_has_levels(class),
        ImageQuery::Size { level: None } => !image_class_has_levels(class),
        ImageQuery::NumSamples => !image_class_has_levels(class),
    }
}

/// Outcome of querying the image given by expression `image`, which must be a
/// global variable of image type.
pub open spec fn image_query_outcome(
    function: Function,
    module: Module,
    image: Handle<Expression>,
    query: ImageQuery,
) -> Outcome<ShaderStages> {
    if image.index >= function.expressions@.len() {
        None
    } else {
        match function.expressions@[image.index as int] {
            Expression::GlobalVariable(var_handle) => if var_handle.index
                >= module.global_variables@.len() {
                None
            } else {
                let var = module.global_variables@[var_handle.index as int];
                if var.ty.index >= module.types@.len() {
                    None
                } else {
                    match module.types@[var.ty.index as int].inner {
                        TypeInner::Image { class, arrayed, .. } => if image_query_fits(
                            query,
                            class,
                            arrayed,
                        ) {
                            Some(Ok(every_stage()))
                        } else {
                            Some(Err(ExpressionError::InvalidImageClass(class)))
                        },
                        _ => Some(Err(ExpressionError::ExpectedImageType(var.ty))),
                    }
                }
            },
            _ => Some(Err(ExpressionError::ExpectedGlobalVariable)),
        }
    }
}

/// Whether the unary operation applies to values of the scalar kind:
/// negation to signed integers, floats and booleans, complement to integers
/// and booleans.
pub open spec fn unary_operand_valid(op: UnaryOperator, kind: Option<ScalarKind>) -> bool {
    match kind {
        Some(ScalarKind::Sint) => true,
        Some(ScalarKind::Bool) => true,
        Some(ScalarKind::Float) => op == UnaryOperator::Negate,
        Some(ScalarKind::Uint) => op == UnaryOperator::Not,
        None => false,
    }
}

/// The scalar kind of a scalar or vector type.
pub open spec fn scalar_or_vector_kind(inner: TypeInner) -> Option<ScalarKind> {
    match inner {
        TypeInner::Scalar { kind, .. } => Some(kind),
        TypeInner::Vector { kind, .. } => Some(kind),
        _ => None,
    }
}

/// The byte width of a scalar, vector or matrix type, 0 for other types.
pub open spec fn numeric_width(inner: TypeInner) -> u8 {
    match inner {
        TypeInner::Scalar { width, .. } => width,
        TypeInner::Vector { width, .. } => width,
        TypeInner::Matrix { width, .. } => width,
        _ => 0,
    }
}

/// Whether two shapes can be multiplied: scalars and vectors of one kind with
/// each other, float scalars with matrices, vectors of the same size, and
/// matrices with vectors and matrices whose dimensions agree.
pub open spec fn multiply_shapes_match(left: TypeInner, right: TypeInner) -> bool {
    match (left, right) {
        (TypeInner::Scalar { kind: k1, .. }, TypeInner::Scalar { kind: k2, .. }) => k1 == k2,
        (TypeInner::Vector { kind: k1, .. }, TypeInner::Scalar { kind: k2, .. }) => k1 == k2,
        (TypeInner::Scalar { kind: k1, .. }, TypeInner::Vector { kind: k2, .. }) => k1 == k2,
        (TypeInner::Scalar { kind: k1, .. }, TypeInner::Matrix { .. }) => k1 == ScalarKind::Float,
        (TypeInner::Matrix { .. }, TypeInner::Scalar { kind: k2, .. }) => k2 == ScalarKind::Float,
        (
            TypeInner::Vector { kind: k1, size: s1, .. },
            TypeInner::Vector { kind: k2, size: s2, .. },
        ) => k1 == k2 && s1 == s2,
        (TypeInner::Matrix { columns, .. }, TypeInner::Vector { kind: k2, size, .. }) => k2
            == ScalarKind::Float && columns == size,
        (TypeInner::Vector { kind: k1, size, .. }, TypeInner::Matrix { rows, .. }) => k1
            == ScalarKind::Float && size == rows,
        (TypeInner::Matrix { columns, .. }, TypeInner::Matrix { rows, .. }) => columns == rows,
        _ => false,
    }
}

/// Whether a shift applies: an integer scalar shifted by an unsigned scalar,
/// or an integer vector shifted by an unsigned vector of the same size.
pub open spec fn shift_operands_valid(left: TypeInner, right: TypeInner) -> bool {
    match left {
        TypeInner::Scalar { kind, .. } => (kind == ScalarKind::Sint || kind == ScalarKind::Uint)
            && right matches TypeInner::Scalar { kind: ScalarKind::Uint, .. },
        TypeInner::Vector { size, kind, .. } => (kind == ScalarKind::Sint || kind
            == ScalarKind::Uint) && (match right {
            TypeInner::Vector { size: s2, kind: ScalarKind::Uint, .. } => s2 == size,
            _ => false,
        }),
        _ => false,
    }
}

/// Whether the binary operation applies to the two operand types.
pub open spec fn binary_operands_valid(
    op: BinaryOperator,
    left: TypeInner,
    right: TypeInner,
) -> bool {
    match op {
        BinaryOperator::Add | BinaryOperator::Subtract | BinaryOperator::Divide
        | BinaryOperator::Modulo | BinaryOperator::Less | BinaryOperator::LessEqual
        | BinaryOperator::Greater | BinaryOperator::GreaterEqual => match scalar_or_vector_kind(
            left,
        ) {
            Some(kind) => kind != ScalarKind::Bool && same_type_inner(left, right),
            None => false,
        },
        BinaryOperator::Multiply => {
            &&& (match scalar_kind_of(left) {
                Some(kind) => kind != ScalarKind::Bool,
                None => false,
            })
            &&& multiply_shapes_match(left, right)
            &&& numeric_width(left) == numeric_width(right)
        },
        BinaryOperator::Equal | BinaryOperator::NotEqual => is_sized_type(left) && same_type_inner(
            left,
            right,
        ),
        BinaryOperator::LogicalAnd | BinaryOperator::LogicalOr => scalar_or_vector_kind(left)
            == Some(ScalarKind::Bool) && same_type_inner(left, right),
        BinaryOperator::And | BinaryOperator::ExclusiveOr | BinaryOperator::InclusiveOr => {
            match scalar_or_vector_kind(left) {
                Some(kind) => (kind == ScalarKind::Sint || kind == ScalarKind::Uint)
                    && same_type_inner(left, right),
                None => false,
            }
        },
        BinaryOperator::ShiftLeft | BinaryOperator::ShiftRight => shift_operands_valid(
            left,
            right,
        ),
    }
}

/// Whether a selection by `condition` between `accept` and `reject` is well
/// typed: a boolean scalar selects between sized values, a boolean vector
/// between vectors of its size, and both alternatives have one type.
pub open spec fn select_types_valid(
    condition: TypeInner,
    accept: TypeInner,
    reject: TypeInner,
) -> bool {
    let condition_good = match condition {
        TypeInner::Scalar { kind: ScalarKind::Bool, .. } => is_sized_type(accept),
        TypeInner::Vector { size, kind: ScalarKind::Bool, .. } => match accept {
            TypeInner::Vector { size: other_size, .. } => size == other_size,
            _ => false,
        },
        _ => false,
    };
    condition_good && same_type_inner(accept, reject)
}

/// Whether a relational function applies: `all` and `any` to boolean vectors,
/// the floating-point tests to float scalars and vectors.
pub open spec fn relational_argument_valid(fun: RelationalFunction, argument: TypeInner) -> bool {
    match fun {
        RelationalFunction::All | RelationalFunction::Any => argument matches TypeInner::Vector {
            kind: ScalarKind::Bool,
            ..
        },
        _ => scalar_or_vector_kind(argument) == Some(ScalarKind::Float),
    }
}

/// Outcome of a check on the types of one operand: `error` when `valid` fails.
pub open spec fn check_one(
    resolved: Outcome<TypeInner>,
    valid: spec_fn(TypeInner) -> bool,
    error: ExpressionError,
) -> Outcome<ShaderStages> {
    match resolved {
        None => None,
        Some(Err(e)) => Some(Err(e)),
        Some(Ok(inner)) => if valid(inner) {
            Some(Ok(every_stage()))
        } else {
            Some(Err(error))
        },
    }
}

/// Outcome of a check on the types of two operands, resolved left first.
pub open spec fn check_two(
    first: Outcome<TypeInner>,
    second: Outcome<TypeInner>,
    valid: spec_fn(TypeInner, TypeInner) -> bool,
    error: ExpressionError,
) -> Outcome<ShaderStages> {
    match first {
        None => None,
        Some(Err(e)) => Some(Err(e)),
        Some(Ok(a)) => match second {
            None => None,
            Some(Err(e)) => Some(Err(e)),
            Some(Ok(b)) => if valid(a, b) {
                Some(Ok(every_stage()))
            } else {
                Some(Err(error))
            },
        },
    }
}

/// Outcome of a selection, whose alternatives are resolved before the condition.
pub open spec fn select_outcome(
    root: Handle<Expression>,
    types: Seq<Type>,
    info: FunctionInfo,
    condition: Handle<Expression>,
    accept: Handle<Expression>,
    reject: Handle<Expression>,
) -> Outcome<ShaderStages> {
    match resolved_type(root, types, info, accept) {
        None => None,
        Some(Err(e)) => Some(Err(e)),
        Some(Ok(a)) => match resolved_type(root, types, info, reject) {
            None => None,
            Some(Err(e)) => Some(Err(e)),
            Some(Ok(r)) => match resolved_type(root, types, info, condition) {
                None => None,
                Some(Err(e)) => Some(Err(e)),
                Some(Ok(c)) => if select_types_valid(c, a, r) {
                    Some(Ok(every_stage()))
                } else {
                    Some(Err(ExpressionError::InvalidSelectTypes))
                },
            },
        },
    }
}

/// The outcome of validating `expression`, the expression at `root` in
/// `function` of `module`, given what validation recorded of the function's
/// earlier expressions (`info`) and of the module's functions (`other_infos`).
/// A valid expression yields the stages in which it may run.
pub open spec fn expression_outcome(
    validator: Validator,
    root: Handle<Expression>,
    expression: Expression,
    function: Function,
    module: Module,
    info: FunctionInfo,
    other_infos: Seq<FunctionInfo>,
) -> Outcome<ShaderStages> {
    let types = module.types@;
    match expression {
        Expression::Access { base, index } => access_outcome(root, types, info, base, index),
        Expression::AccessIndex { base, index } => access_index_outcome(
            root,
            types,
            module.constants@,
            info,
            base,
            index,
        ),
        Expression::Constant(handle) => if handle.index < module.constants@.len() {
            Some(Ok(every_stage()))
        } else {
            Some(Err(ExpressionError::ConstantDoesntExist(handle)))
        },
        Expression::Compose { ty, components } => compose_outcome(
            root,
            types,
            module.constants@,
            info,
            ty,
            components@,
        ),
        Expression::FunctionArgument(index) => if index >= function.arguments@.len() as u32 {
            Some(Err(ExpressionError::FunctionArgumentDoesntExist(index)))
        } else {
            Some(Ok(every_stage()))
        },
        Expression::GlobalVariable(handle) => if handle.index < module.global_variables@.len() {
            Some(Ok(every_stage()))
        } else {
            Some(Err(ExpressionError::GlobalVarDoesntExist(handle)))
        },
        Expression::LocalVariable(handle) => if handle.index
            < function.local_variables@.len() {
            Some(Ok(every_stage()))
        } else {
            Some(Err(ExpressionError::LocalVarDoesntExist(handle)))
        },
        Expression::Load { pointer } => load_outcome(validator, root, types, info, pointer),
        Expression::ImageSample { .. } => Some(Ok(every_stage())),
        Expression::ImageLoad { .. } => Some(Ok(every_stage())),
        Expression::ImageQuery { image, query } => image_query_outcome(
            function,
            module,
            image,
            query,
        ),
        Expression::Unary { op, expr } => check_one(
            resolved_type(root, types, info, expr),
            |inner: TypeInner| unary_operand_valid(op, scalar_kind_of(inner)),
            ExpressionError::InvalidUnaryOperandType(op, expr),
        ),
        Expression::Binary { op, left, right } => check_two(
            resolved_type(root, types, info, left),
            resolved_type(root, types, info, right),
            |l: TypeInner, r: TypeInner| binary_operands_valid(op, l, r),
            ExpressionError::InvalidBinaryOperandTypes(op, left, right),
        ),
        Expression::Select { condition, accept, reject } => select_outcome(
            root,
            types,
            info,
            condition,
            accept,
            reject,
        ),
        Expression::Derivative { .. } => Some(Ok(ShaderStages { bits: crate::valid::STAGE_FRAGMENT })),
        Expression::Relational { fun, argument } => check_one(
            resolved_type(root, types, info, argument),
            |inner: TypeInner| relational_argument_valid(fun, inner),
            match fun {
                RelationalFunction::All | RelationalFunction::Any => ExpressionError::InvalidBooleanVector(argument),
                _ => ExpressionError::InvalidFloatArgument(argument),
            },
        ),
        Expression::Math { .. } => Some(Ok(every_stage())),
        Expression::As { .. } => Some(Ok(every_stage())),
        Expression::Call(f) => if f.index < other_infos.len() {
            Some(Ok(other_infos[f.index as int].available_stages))
        } else {
            None
        },
        Expression::ArrayLength(expr) => check_one(
            resolved_type(root, types, info, expr),
            |inner: TypeInner| inner matches TypeInner::Array { .. },
            ExpressionError::InvalidArrayType(expr),
        ),
    }
}


fn indexable(inner: &TypeInner) -> (r: bool)
    ensures
        r == is_indexable(*inner),
{
    match inner {
        TypeInner::Vector { .. } | TypeInner::Matrix { .. } | TypeInner::Array { .. }
        | TypeInner::Pointer { .. } => true,
        _ => false,
    }
}

fn integer_scalar(inner: &TypeInner) -> (r: bool)
    ensures
        r == is_integer_scalar(*inner),
{
    match inner {
        TypeInner::Scalar { kind: ScalarKind::Sint, .. }
        | TypeInner::Scalar { kind: ScalarKind::Uint, .. } => true,
        _ => false,
    }
}

fn validate_access<'a>(
    resolver: &ExpressionTypeResolver<'a>,
    base: Handle<Expression>,
    index: Handle<Expression>,
) -> (r: Result<ShaderStages, ExpressionError>)
    requires
        access_outcome(resolver.root, resolver.types@, *resolver.info, base, index) is Some,
    ensures
        Some(r) == access_outcome(resolver.root, resolver.types@, *resolver.info, base, index),
{
    let base_inner = match resolver.resolve(base) {
        Ok(inner) => inner,
        Err(e) => return Err(e),
    };
    if !indexable(base_inner) {
        return Err(ExpressionError::InvalidBaseType(base));
    }
    let index_inner = match resolver.resolve(index) {
        Ok(inner) => inner,
        Err(e) => return Err(e),
    };
    if !integer_scalar(index_inner) {
        return Err(ExpressionError::InvalidIndexType(index));
    }
    Ok(ShaderStages::all())
}

fn validate_access_index<'a>(
    resolver: &ExpressionTypeResolver<'a>,
    constants: &Arena<Constant>,
    base: Handle<Expression>,
    index: u32,
) -> (r: Result<ShaderStages, ExpressionError>)
    requires
        access_index_outcome(
            resolver.root,
            resolver.types@,
            constants@,
            *resolver.info,
            base,
            index,
        ) is Some,
    ensures
        Some(r) == access_index_outcome(
            resolver.root,
            resolver.types@,
            constants@,
            *resolver.info,
            base,
            index,
        ),
{
    let base_inner = match resolver.resolve(base) {
        Ok(inner) => inner,
        Err(e) => return Err(e),
    };
    let limit: u32 = match base_inner {
        TypeInner::Vector { size, .. } => size.value(),
        TypeInner::Matrix { columns, .. } => columns.value(),
        TypeInner::Array { size: ArraySize::Constant(handle), .. } => {
            constants.get(*handle).to_array_length().unwrap()
        },
        TypeInner::Array { .. } => u32::MAX,
        TypeInner::Pointer { .. } => u32::MAX,
        TypeInner::Struct { members, .. } => members.len() as u32,
        _ => return Err(ExpressionError::InvalidBaseType(base)),
    };
    if index >= limit {
        return Err(ExpressionError::IndexOutOfBounds(base, index));
    }
    Ok(ShaderStages::all())
}

fn validate_vector_compose<'a>(
    resolver: &ExpressionTypeResolver<'a>,
    components: &Vec<Handle<Expression>>,
    size: VectorSize,
    kind: ScalarKind,
    width: u8,
) -> (r: Result<ShaderStages, ExpressionError>)
    requires
        vector_compose_rest(
            resolver.root,
            resolver.types@,
            *resolver.info,
            components@,
            size,
            kind,
            width,
            0,
            0,
        ) is Some,
    ensures
        Some(r) == vector_compose_rest(
            resolver.root,
            resolver.types@,
            *resolver.info,
            components@,
            size,
            kind,
            width,
            0,
            0,
        ),
{
    let ghost whole = vector_compose_rest(
        resolver.root,
        resolver.types@,
        *resolver.info,
        components@,
        size,
        kind,
        width,
        0,
        0,
    );
    let mut total: u32 = 0;
    let mut i: usize = 0;
    while i < components.len()
        invariant
            i <= components@.len(),
            whole is Some,
            whole == vector_compose_rest(
                resolver.root,
                resolver.types@,
                *resolver.info,
                components@,
                size,
                kind,
                width,
                0,
                0,
            ),
            whole == vector_compose_rest(
                resolver.root,
                resolver.types@,
                *resolver.info,
                components@,
                size,
                kind,
                width,
                i as int,
                total,
            ),
        decreases components@.len() - i,
    {
        let comp = components[i];
        let inner = match resolver.resolve(comp) {
            Ok(inner) => inner,
            Err(e) => return Err(e),
        };
        let count: u32 = match inner {
            TypeInner::Scalar { kind: comp_kind, width: comp_width } if *comp_kind == kind
                && *comp_width == width => 1,
            TypeInner::Vector { size: comp_size, kind: comp_kind, width: comp_width } if *comp_kind
                == kind && *comp_width == width => comp_size.value(),
            _ => return Err(ExpressionError::InvalidComponentType(i as u32, comp)),
        };
        total = total + count;
        i = i + 1;
    }
    if size.value() != total {
        return Err(ExpressionError::InvalidComposeCount { expected: size.value(), given: total });
    }
    Ok(ShaderStages::all())
}

fn check_components_of_type<'a>(
    resolver: &ExpressionTypeResolver<'a>,
    components: &Vec<Handle<Expression>>,
    expected: &TypeInner,
) -> (r: Result<(), ExpressionError>)
    requires
        components_of_type_rest(
            resolver.root,
            resolver.types@,
            *resolver.info,
            components@,
            *expected,
            0,
        ) is Some,
    ensures
        Some(r) == components_of_type_rest(
            resolver.root,
            resolver.types@,
            *resolver.info,
            components@,
            *expected,
            0,
        ),
{
    let ghost whole = components_of_type_rest(
        resolver.root,
        resolver.types@,
        *resolver.info,
        components@,
        *expected,
        0,
    );
    let mut i: usize = 0;
    while i < components.len()
        invariant
            i <= components@.len(),
            whole is Some,
            whole == components_of_type_rest(
                resolver.root,
                resolver.types@,
                *resolver.info,
                components@,
                *expected,
                0,
            ),
            whole == components_of_type_rest(
                resolver.root,
                resolver.types@,
                *resolver.info,
                components@,
                *expected,
                i as int,
            ),
        decreases components@.len() - i,
    {
        let comp = components[i];
        let tin = match resolver.resolve(comp) {
            Ok(inner) => inner,
            Err(e) => return Err(e),
        };
        if !tin.eq(expected) {
            return Err(ExpressionError::InvalidComponentType(i as u32, comp));
        }
        i = i + 1;
    }
    Ok(())
}

fn validate_struct_compose<'a>(
    resolver: &ExpressionTypeResolver<'a>,
    components: &Vec<Handle<Expression>>,
    members: &Vec<crate::valid::ir::StructMember>,
) -> (r: Result<ShaderStages, ExpressionError>)
    requires
        struct_compose_rest(
            resolver.root,
            resolver.types@,
            *resolver.info,
            components@,
            members@,
            0,
        ) is Some,
    ensures
        Some(r) == struct_compose_rest(
            resolver.root,
            resolver.types@,
            *resolver.info,
            components@,
            members@,
            0,
        ),
{
    let ghost whole = struct_compose_rest(
        resolver.root,
        resolver.types@,
        *resolver.info,
        components@,
        members@,
        0,
    );
    let mut i: usize = 0;
    while i < members.len() && i < components.len()
        invariant
            i <= components@.len(),
            i <= members@.len(),
            whole is Some,
            whole == struct_compose_rest(
                resolver.root,
                resolver.types@,
                *resolver.info,
                components@,
                members@,
                0,
            ),
            whole == struct_compose_rest(
                resolver.root,
                resolver.types@,
                *resolver.info,
                components@,
                members@,
                i as int,
            ),
        decreases components@.len() - i,
    {
        let comp = components[i];
        let tin = match resolver.resolve(comp) {
            Ok(inner) => inner,
            Err(e) => return Err(e),
        };
        let member_inner = &resolver.types.get(members[i].ty).inner;
        if !tin.eq(member_inner) {
            return Err(ExpressionError::InvalidComponentType(i as u32, comp));
        }
        i = i + 1;
    }
    if members.len() != components.len() {
        return Err(
            ExpressionError::InvalidComposeCount {
                given: components.len() as u32,
                expected: members.len() as u32,
            },
        );
    }
    Ok(ShaderStages::all())
}

fn validate_compose<'a>(
    resolver: &ExpressionTypeResolver<'a>,
    constants: &Arena<Constant>,
    ty: Handle<Type>,
    components: &Vec<Handle<Expression>>,
) -> (r: Result<ShaderStages, ExpressionError>)
    requires
        compose_outcome(
            resolver.root,
            resolver.types@,
            constants@,
            *resolver.info,
            ty,
            components@,
        ) is Some,
    ensures
        Some(r) == compose_outcome(
            resolver.root,
            resolver.types@,
            constants@,
            *resolver.info,
            ty,
            components@,
        ),
{
    let compose_type = match resolver.types.try_get(ty) {
        Some(t) => t,
        None => return Err(ExpressionError::ComposeTypeDoesntExist(ty)),
    };
    match &compose_type.inner {
        TypeInner::Vector { size, kind, width } => {
            validate_vector_compose(resolver, components, *size, *kind, *width)
        },
        TypeInner::Matrix { columns, rows, width } => {
            if columns.value() as usize != components.len() {
                return Err(
                    ExpressionError::InvalidComposeCount {
                        expected: columns.value(),
                        given: components.len() as u32,
                    },
                );
            }
            let inner = TypeInner::Vector { size: *rows, kind: ScalarKind::Float, width: *width };
            match check_components_of_type(resolver, components, &inner) {
                Ok(()) => Ok(ShaderStages::all()),
                Err(e) => Err(e),
            }
        },
        TypeInner::Array { base, size: ArraySize::Constant(handle), .. } => {
            let count = constants.get(*handle).to_array_length().unwrap();
            if count as usize != components.len() {
                return Err(
                    ExpressionError::InvalidComposeCount {
                        expected: count,
                        given: components.len() as u32,
                    },
                );
            }
            let base_inner = &resolver.types.get(*base).inner;
            match check_components_of_type(resolver, components, base_inner) {
                Ok(()) => Ok(ShaderStages::all()),
                Err(e) => Err(e),
            }
        },
        TypeInner::Struct { members, .. } => validate_struct_compose(resolver, components, members),
        _ => Err(ExpressionError::InvalidComposeType(ty)),
    }
}


fn binary_operands_good(op: BinaryOperator, left: &TypeInner, right: &TypeInner) -> (good: bool)
    ensures
        good == binary_operands_valid(op, *left, *right),
{
    match op {
        BinaryOperator::Add | BinaryOperator::Subtract | BinaryOperator::Divide
        | BinaryOperator::Modulo | BinaryOperator::Less | BinaryOperator::LessEqual
        | BinaryOperator::Greater | BinaryOperator::GreaterEqual => match left {
            TypeInner::Scalar { kind, .. } | TypeInner::Vector { kind, .. } => match kind {
                ScalarKind::Uint | ScalarKind::Sint | ScalarKind::Float => left.eq(right),
                ScalarKind::Bool => false,
            },
            _ => false,
        },
        BinaryOperator::Multiply => {
            let kind_match = match left.scalar_kind() {
                Some(ScalarKind::Uint) | Some(ScalarKind::Sint) | Some(ScalarKind::Float) => true,
                Some(ScalarKind::Bool) | None => false,
            };
            let types_match = match (left, right) {
                (TypeInner::Scalar { kind: kind1, .. }, TypeInner::Scalar { kind: kind2, .. })
                | (TypeInner::Vector { kind: kind1, .. }, TypeInner::Scalar { kind: kind2, .. })
                | (
                    TypeInner::Scalar { kind: kind1, .. },
                    TypeInner::Vector { kind: kind2, .. },
                ) => *kind1 == *kind2,
                (TypeInner::Scalar { kind: ScalarKind::Float, .. }, TypeInner::Matrix { .. })
                | (TypeInner::Matrix { .. }, TypeInner::Scalar { kind: ScalarKind::Float, .. }) => {
                    true
                },
                (
                    TypeInner::Vector { kind: kind1, size: size1, .. },
                    TypeInner::Vector { kind: kind2, size: size2, .. },
                ) => *kind1 == *kind2 && *size1 == *size2,
                (
                    TypeInner::Matrix { columns, .. },
                    TypeInner::Vector { kind: ScalarKind::Float, size, .. },
                ) => *columns == *size,
                (
                    TypeInner::Vector { kind: ScalarKind::Float, size, .. },
                    TypeInner::Matrix { rows, .. },
                ) => *size == *rows,
                (TypeInner::Matrix { columns, .. }, TypeInner::Matrix { rows, .. }) => {
                    *columns == *rows
                },
                _ => false,
            };
            let left_width: u8 = match left {
                TypeInner::Scalar { width, .. } | TypeInner::Vector { width, .. }
                | TypeInner::Matrix { width, .. } => *width,
                _ => 0,
            };
            let right_width: u8 = match right {
                TypeInner::Scalar { width, .. } | TypeInner::Vector { width, .. }
                | TypeInner::Matrix { width, .. } => *width,
                _ => 0,
            };
            kind_match && types_match && left_width == right_width
        },
        BinaryOperator::Equal | BinaryOperator::NotEqual => left.is_sized() && left.eq(right),
        BinaryOperator::LogicalAnd | BinaryOperator::LogicalOr => match left {
            TypeInner::Scalar { kind: ScalarKind::Bool, .. }
            | TypeInner::Vector { kind: ScalarKind::Bool, .. } => left.eq(right),
            _ => false,
        },
        BinaryOperator::And | BinaryOperator::ExclusiveOr | BinaryOperator::InclusiveOr => {
            match left {
                TypeInner::Scalar { kind, .. } | TypeInner::Vector { kind, .. } => match kind {
                    ScalarKind::Sint | ScalarKind::Uint => left.eq(right),
                    ScalarKind::Bool | ScalarKind::Float => false,
                },
                _ => false,
            }
        },
        BinaryOperator::ShiftLeft | BinaryOperator::ShiftRight => {
            let integer_base = match left {
                TypeInner::Scalar { kind, .. } | TypeInner::Vector { kind, .. } => match kind {
                    ScalarKind::Sint | ScalarKind::Uint => true,
                    ScalarKind::Float | ScalarKind::Bool => false,
                },
                _ => false,
            };
            let sizes_agree = match (left, right) {
                (TypeInner::Scalar { .. }, TypeInner::Scalar { kind: ScalarKind::Uint, .. }) => true,
                (
                    TypeInner::Vector { size: base_size, .. },
                    TypeInner::Vector { size: shift_size, kind: ScalarKind::Uint, .. },
                ) => *base_size == *shift_size,
                _ => false,
            };
            integer_base && sizes_agree
        },
    }
}

fn select_types_good(condition: &TypeInner, accept: &TypeInner, reject: &TypeInner) -> (good: bool)
    ensures
        good == select_types_valid(*condition, *accept, *reject),
{
    let condition_good = match condition {
        TypeInner::Scalar { kind: ScalarKind::Bool, .. } => accept.is_sized(),
        TypeInner::Vector { size, kind: ScalarKind::Bool, .. } => match accept {
            TypeInner::Vector { size: other_size, .. } => *size == *other_size,
            _ => false,
        },
        _ => false,
    };
    condition_good && accept.eq(reject)
}

fn validate_load<'a>(
    validator: &Validator,
    resolver: &ExpressionTypeResolver<'a>,
    pointer: Handle<Expression>,
) -> (r: Result<ShaderStages, ExpressionError>)
    requires
        load_outcome(*validator, resolver.root, resolver.types@, *resolver.info, pointer) is Some,
    ensures
        Some(r) == load_outcome(*validator, resolver.root, resolver.types@, *resolver.info, pointer),
{
    let inner = match resolver.resolve(pointer) {
        Ok(inner) => inner,
        Err(e) => return Err(e),
    };
    match inner {
        TypeInner::Pointer { base, .. } => {
            let flags = validator.types[base.index()].flags;
            if flags.contains(TypeFlags { bits: TYPE_SIZED | TYPE_DATA }) {
                Ok(ShaderStages::all())
            } else {
                Err(ExpressionError::InvalidPointerType(pointer))
            }
        },
        TypeInner::ValuePointer { .. } => Ok(ShaderStages::all()),
        _ => Err(ExpressionError::InvalidPointerType(pointer)),
    }
}

fn validate_image_query(
    function: &Function,
    module: &Module,
    image: Handle<Expression>,
    query: &ImageQuery,
) -> (r: Result<ShaderStages, ExpressionError>)
    requires
        image_query_outcome(*function, *module, image, *query) is Some,
    ensures
        Some(r) == image_query_outcome(*function, *module, image, *query),
{
    match function.expressions.get(image) {
        Expression::GlobalVariable(var_handle) => {
            let var = module.global_variables.get(*var_handle);
            match &module.types.get(var.ty).inner {
                TypeInner::Image { class, arrayed, .. } => {
                    let can_level = match class {
                        ImageClass::Sampled { multi, .. } => !*multi,
                        ImageClass::Storage(_) => false,
                        ImageClass::Depth => true,
                    };
                    let good = match query {
                        ImageQuery::NumLayers => *arrayed,
                        ImageQuery::Size { level: Some(_) } | ImageQuery::NumLevels => can_level,
                        ImageQuery::Size { level: None } | ImageQuery::NumSamples => !can_level,
                    };
                    if !good {
                        return Err(ExpressionError::InvalidImageClass(*class));
                    }
                    Ok(ShaderStages::all())
                },
                _ => Err(ExpressionError::ExpectedImageType(var.ty)),
            }
        },
        _ => Err(ExpressionError::ExpectedGlobalVariable),
    }
}

impl Validator {
    /// Validates `expression`, the expression at `root` in `function` of
    /// `module`. Operands must come before it in the function's arena; their
    /// types are those recorded in `info`, and `other_infos` holds what was
    /// found of each function of the module. A valid expression yields the
    /// shader stages in which it may run: all of them, but the fragment stage
    /// alone for derivatives and the callee's stages for calls.
    pub fn validate_expression(
        &self,
        root: Handle<Expression>,
        expression: &Expression,
        function: &Function,
        module: &Module,
        info: &FunctionInfo,
        other_infos: &[FunctionInfo],
    ) -> (r: Result<ShaderStages, ExpressionError>)
        requires
            expression_outcome(
                *self,
                root,
                *expression,
                *function,
                *module,
                *info,
                other_infos@,
            ) is Some,
        ensures
            Some(r) == expression_outcome(
                *self,
                root,
                *expression,
                *function,
                *module,
                *info,
                other_infos@,
            ),
    {
        let resolver = ExpressionTypeResolver { root, types: &module.types, info };
        match expression {
            Expression::Access { base, index } => validate_access(&resolver, *base, *index),
            Expression::AccessIndex { base, index } => validate_access_index(
                &resolver,
                &module.constants,
                *base,
                *index,
            ),
            Expression::Constant(handle) => match module.constants.try_get(*handle) {
                Some(_) => Ok(ShaderStages::all()),
                None => Err(ExpressionError::ConstantDoesntExist(*handle)),
            },
            Expression::Compose { ty, components } => validate_compose(
                &resolver,
                &module.constants,
                *ty,
                components,
            ),
            Expression::FunctionArgument(index) => {
                if *index >= function.arguments.len() as u32 {
                    Err(ExpressionError::FunctionArgumentDoesntExist(*index))
                } else {
                    Ok(ShaderStages::all())
                }
            },
            Expression::GlobalVariable(handle) => match module.global_variables.try_get(*handle) {
                Some(_) => Ok(ShaderStages::all()),
                None => Err(ExpressionError::GlobalVarDoesntExist(*handle)),
            },
            Expression::LocalVariable(handle) => match function.local_variables.try_get(*handle) {
                Some(_) => Ok(ShaderStages::all()),
                None => Err(ExpressionError::LocalVarDoesntExist(*handle)),
            },
            Expression::Load { pointer } => validate_load(self, &resolver, *pointer),
            Expression::ImageSample { .. } => Ok(ShaderStages::all()),
            Expression::ImageLoad { .. } => Ok(ShaderStages::all()),
            Expression::ImageQuery { image, query } => validate_image_query(
                function,
                module,
                *image,
                query,
            ),
            Expression::Unary { op, expr } => {
                let inner = match resolver.resolve(*expr) {
                    Ok(inner) => inner,
                    Err(e) => return Err(e),
                };
                let good = match (*op, inner.scalar_kind()) {
                    (_, Some(ScalarKind::Sint))
                    | (_, Some(ScalarKind::Bool))
                    | (UnaryOperator::Negate, Some(ScalarKind::Float))
                    | (UnaryOperator::Not, Some(ScalarKind::Uint)) => true,
                    _ => false,
                };
                if !good {
                    return Err(ExpressionError::InvalidUnaryOperandType(*op, *expr));
                }
                Ok(ShaderStages::all())
            },
            Expression::Binary { op, left, right } => {
                let left_inner = match resolver.resolve(*left) {
                    Ok(inner) => inner,
                    Err(e) => return Err(e),
                };
                let right_inner = match resolver.resolve(*right) {
                    Ok(inner) => inner,
                    Err(e) => return Err(e),
                };
                if !binary_operands_good(*op, left_inner, right_inner) {
                    return Err(ExpressionError::InvalidBinaryOperandTypes(*op, *left, *right));
                }
                Ok(ShaderStages::all())
            },
            Expression::Select { condition, accept, reject } => {
                let accept_inner = match resolver.resolve(*accept) {
                    Ok(inner) => inner,
                    Err(e) => return Err(e),
                };
                let reject_inner = match resolver.resolve(*reject) {
                    Ok(inner) => inner,
                    Err(e) => return Err(e),
                };
                let condition_inner = match resolver.resolve(*condition) {
                    Ok(inner) => inner,
                    Err(e) => return Err(e),
                };
                if !select_types_good(condition_inner, accept_inner, reject_inner) {
                    return Err(ExpressionError::InvalidSelectTypes);
                }
                Ok(ShaderStages::all())
            },
            Expression::Derivative { .. } => Ok(ShaderStages::fragment()),
            Expression::Relational { fun, argument } => {
                let argument_inner = match resolver.resolve(*argument) {
                    Ok(inner) => inner,
                    Err(e) => return Err(e),
                };
                match fun {
                    RelationalFunction::All | RelationalFunction::Any => match argument_inner {
                        TypeInner::Vector { kind: ScalarKind::Bool, .. } => {},
                        _ => return Err(ExpressionError::InvalidBooleanVector(*argument)),
                    },
                    RelationalFunction::IsNan | RelationalFunction::IsInf
                    | RelationalFunction::IsFinite | RelationalFunction::IsNormal => {
                        match argument_inner {
                            TypeInner::Scalar { kind: ScalarKind::Float, .. }
                            | TypeInner::Vector { kind: ScalarKind::Float, .. } => {},
                            _ => return Err(ExpressionError::InvalidFloatArgument(*argument)),
                        }
                    },
                }
                Ok(ShaderStages::all())
            },
            Expression::Math { .. } => Ok(ShaderStages::all()),
            Expression::As { .. } => Ok(ShaderStages::all()),
            Expression::Call(f) => Ok(other_infos[f.index()].available_stages),
            Expression::ArrayLength(expr) => {
                let inner = match resolver.resolve(*expr) {
                    Ok(inner) => inner,
                    Err(e) => return Err(e),
                };
                match inner {
                    TypeInner::Array { .. } => Ok(ShaderStages::all()),
                    _ => Err(ExpressionError::InvalidArrayType(*expr)),
                }
            },
        }
    }
}


/// Whether the operands of the operation can be given in either order.
pub open spec fn is_symmetric_operator(op: BinaryOperator) -> bool {
    match op {
        BinaryOperator::Add | BinaryOperator::Subtract | BinaryOperator::Divide
        | BinaryOperator::Modulo | BinaryOperator::Less | BinaryOperator::LessEqual
        | BinaryOperator::Greater | BinaryOperator::GreaterEqual | BinaryOperator::Equal
        | BinaryOperator::NotEqual | BinaryOperator::LogicalAnd | BinaryOperator::LogicalOr
        | BinaryOperator::And | BinaryOperator::ExclusiveOr | BinaryOperator::InclusiveOr => true,
        _ => false,
    }
}

/// The operations that ask both operands to have one type (arithmetic other
/// than multiplication, comparisons, logical and bitwise operations) accept
/// a pair of operand types exactly when they accept it swapped.
pub proof fn lemma_symmetric_operands_swap(op: BinaryOperator, left: TypeInner, right: TypeInner)
    requires
        is_symmetric_operator(op),
    ensures
        binary_operands_valid(op, left, right) == binary_operands_valid(op, right, left),
{
    crate::valid::type_eq::lemma_same_type_inner_is_equivalence(left, right, left);
    crate::valid::type_eq::lemma_same_type_inner_is_equivalence(right, left, right);
}

proof fn lemma_vector_compose_stages(
    root: Handle<Expression>,
    types: Seq<Type>,
    info: FunctionInfo,
    components: Seq<Handle<Expression>>,
    size: VectorSize,
    kind: ScalarKind,
    width: u8,
    i: int,
    total: u32,
)
    ensures
        vector_compose_rest(root, types, info, components, size, kind, width, i, total) matches Some(
            Ok(stages),
        ) ==> stages == every_stage(),
    decreases components.len() - i,
{
    if !(i < 0 || i >= components.len()) {
        match resolved_type(root, types, info, components[i]) {
            Some(Ok(inner)) => match vector_component_count(inner, kind, width) {
                Some(count) => if total + count <= u32::MAX {
                    lemma_vector_compose_stages(
                        root,
                        types,
                        info,
                        components,
                        size,
                        kind,
                        width,
                        i + 1,
                        (total + count) as u32,
                    );
                },
                None => {},
            },
            _ => {},
        }
    }
}

proof fn lemma_struct_compose_stages(
    root: Handle<Expression>,
    types: Seq<Type>,
    info: FunctionInfo,
    components: Seq<Handle<Expression>>,
    members: Seq<crate::valid::ir::StructMember>,
    i: int,
)
    ensures
        struct_compose_rest(root, types, info, components, members, i) matches Some(Ok(stages))
            ==> stages == every_stage(),
    decreases components.len() - i,
{
    if !(i < 0 || i >= components.len() || i >= members.len()) {
        lemma_struct_compose_stages(root, types, info, components, members, i + 1);
    }
}

/// A valid expression may run in every shader stage, but for a derivative,
/// which runs in the fragment stage alone, and a call, which runs in the
/// stages of its callee.
pub proof fn lemma_valid_expression_stages(
    validator: Validator,
    root: Handle<Expression>,
    expression: Expression,
    function: Function,
    module: Module,
    info: FunctionInfo,
    other_infos: Seq<FunctionInfo>,
    stages: ShaderStages,
)
    requires
        expression_outcome(validator, root, expression, function, module, info, other_infos)
            == Some(Ok::<ShaderStages, ExpressionError>(stages)),
    ensures
        match expression {
            Expression::Derivative { .. } => stages == (ShaderStages {
                bits: crate::valid::STAGE_FRAGMENT,
            }),
            Expression::Call(f) => stages == other_infos[f.index as int].available_stages,
            _ => stages == ShaderStages::spec_all(),
        },
{
    match expression {
        Expression::Compose { ty, components } => {
            if ty.index < module.types@.len() {
                match module.types@[ty.index as int].inner {
                    TypeInner::Vector { size, kind, width } => lemma_vector_compose_stages(
                        root,
                        module.types@,
                        info,
                        components@,
                        size,
                        kind,
                        width,
                        0,
                        0,
                    ),
                    TypeInner::Struct { members, .. } => lemma_struct_compose_stages(
                        root,
                        module.types@,
                        info,
                        components@,
                        members@,
                        0,
                    ),
                    _ => {},
                }
            }
        },
        _ => {},
    }
}

/// The operand whose type validation looks up first, for expressions that
/// look one up before anything else.
pub open spec fn first_resolved_operand(expression: Expression) -> Option<Handle<Expression>> {
    match expression {
        Expression::Access { base, .. } => Some(base),
        Expression::AccessIndex { base, .. } => Some(base),
        Expression::Load { pointer } => Some(pointer),
        Expression::Unary { expr, .. } => Some(expr),
        Expression::Binary { left, .. } => Some(left),
        Expression::Select { accept, .. } => Some(accept),
        Expression::Relational { argument, .. } => Some(argument),
        Expression::ArrayLength(expr) => Some(expr),
        _ => None,
    }
}

/// An expression whose first operand does not come before it in the arena is
/// rejected as a forward dependency on that operand.
pub proof fn lemma_forward_operand_rejected(
    validator: Validator,
    root: Handle<Expression>,
    expression: Expression,
    function: Function,
    module: Module,
    info: FunctionInfo,
    other_infos: Seq<FunctionInfo>,
    operand: Handle<Expression>,
)
    requires
        first_resolved_operand(expression) == Some(operand),
        operand.index >= root.index,
    ensures
        expression_outcome(validator, root, expression, function, module, info, other_infos)
            == Some(Err::<ShaderStages, ExpressionError>(ExpressionError::ForwardDependency(operand))),
{
}


/// A scalar or vector of signed integers, unsigned integers or floats.
pub open spec fn is_numeric_scalar_or_vector(t: TypeInner) -> bool {
    match t {
        TypeInner::Scalar { kind, .. } | TypeInner::Vector { kind, .. } => kind == ScalarKind::Sint
            || kind == ScalarKind::Uint || kind == ScalarKind::Float,
        _ => false,
    }
}

/// Addition, subtraction, division, remainder and the four ordering
/// comparisons accept two operands of one scalar or vector type of signed
/// integers, unsigned integers or floats, integers exactly like floats; and
/// equality and inequality accept them too.
pub proof fn lemma_numeric_operands_accepted(
    validator: Validator,
    root: Handle<Expression>,
    function: Function,
    module: Module,
    info: FunctionInfo,
    other_infos: Seq<FunctionInfo>,
    op: BinaryOperator,
    left: Handle<Expression>,
    right: Handle<Expression>,
    t: TypeInner,
)
    requires
        match op {
            BinaryOperator::Add | BinaryOperator::Subtract | BinaryOperator::Divide
            | BinaryOperator::Modulo | BinaryOperator::Less | BinaryOperator::LessEqual
            | BinaryOperator::Greater | BinaryOperator::GreaterEqual | BinaryOperator::Equal
            | BinaryOperator::NotEqual => true,
            _ => false,
        },
        is_numeric_scalar_or_vector(t),
        resolved_type(root, module.types@, info, left) == Some(Ok::<TypeInner, ExpressionError>(t)),
        resolved_type(root, module.types@, info, right) == Some(Ok::<TypeInner, ExpressionError>(t)),
    ensures
        expression_outcome(
            validator,
            root,
            Expression::Binary { op, left, right },
            function,
            module,
            info,
            other_infos,
        ) == Some(Ok::<ShaderStages, ExpressionError>(ShaderStages { bits: 7 })),
{
    crate::valid::type_eq::lemma_same_type_inner_is_equivalence(t, t, t);
}

/// The bitwise operations accept two operands of one scalar or vector type of
/// signed or unsigned integers.
pub proof fn lemma_integer_bitwise_accepted(
    validator: Validator,
    root: Handle<Expression>,
    function: Function,
    module: Module,
    info: FunctionInfo,
    other_infos: Seq<FunctionInfo>,
    op: BinaryOperator,
    left: Handle<Expression>,
    right: Handle<Expression>,
    t: TypeInner,
)
    requires
        op == BinaryOperator::And || op == BinaryOperator::ExclusiveOr || op
            == BinaryOperator::InclusiveOr,
        match t {
            TypeInner::Scalar { kind, .. } | TypeInner::Vector { kind, .. } => kind
                == ScalarKind::Sint || kind == ScalarKind::Uint,
            _ => false,
        },
        resolved_type(root, module.types@, info, left) == Some(Ok::<TypeInner, ExpressionError>(t)),
        resolved_type(root, module.types@, info, right) == Some(Ok::<TypeInner, ExpressionError>(t)),
    ensures
        expression_outcome(
            validator,
            root,
            Expression::Binary { op, left, right },
            function,
            module,
            info,
            other_infos,
        ) == Some(Ok::<ShaderStages, ExpressionError>(ShaderStages { bits: 7 })),
{
    crate::valid::type_eq::lemma_same_type_inner_is_equivalence(t, t, t);
}

proof fn lemma_components_all_of_type(
    root: Handle<Expression>,
    types: Seq<Type>,
    info: FunctionInfo,
    components: Seq<Handle<Expression>>,
    expected: TypeInner,
    i: int,
)
    requires
        0 <= i,
        same_type_inner(expected, expected),
        forall|j: int|
            0 <= j < components.len() ==> resolved_type(root, types, info, #[trigger] components[j])
                == Some(Ok::<TypeInner, ExpressionError>(expected)),
    ensures
        components_of_type_rest(root, types, info, components, expected, i) == Some(
            Ok::<(), ExpressionError>(()),
        ),
    decreases components.len() - i,
{
    if i < components.len() {
        assert(resolved_type(root, types, info, components[i]) == Some(
            Ok::<TypeInner, ExpressionError>(expected),
        ));
        lemma_components_all_of_type(root, types, info, components, expected, i + 1);
    }
}

/// A matrix of `columns` columns and `rows` rows is composed from as many
/// column vectors as it has columns, each a float vector with as many
/// components as the matrix has rows and of the matrix's width.
pub proof fn lemma_matrix_from_columns_accepted(
    validator: Validator,
    root: Handle<Expression>,
    function: Function,
    module: Module,
    info: FunctionInfo,
    other_infos: Seq<FunctionInfo>,
    ty: Handle<Type>,
    components: Vec<Handle<Expression>>,
    columns: VectorSize,
    rows: VectorSize,
    width: u8,
)
    requires
        ty.index < module.types@.len(),
        module.types@[ty.index as int].inner == (TypeInner::Matrix { columns, rows, width }),
        components@.len() == vector_size_value(columns),
        forall|j: int|
            0 <= j < components@.len() ==> resolved_type(root, module.types@, info, #[trigger] components@[j])
                == Some(
                Ok::<TypeInner, ExpressionError>(
                    TypeInner::Vector { size: rows, kind: ScalarKind::Float, width },
                ),
            ),
    ensures
        expression_outcome(
            validator,
            root,
            Expression::Compose { ty, components },
            function,
            module,
            info,
            other_infos,
        ) == Some(Ok::<ShaderStages, ExpressionError>(ShaderStages { bits: 7 })),
{
    lemma_components_all_of_type(
        root,
        module.types@,
        info,
        components@,
        TypeInner::Vector { size: rows, kind: ScalarKind::Float, width },
        0,
    );
}

/// Negation and complement both accept signed integers and booleans;
/// negation accepts floats and not unsigned integers; complement accepts
/// unsigned integers and not floats.
pub proof fn lemma_unary_operand_kinds(
    validator: Validator,
    root: Handle<Expression>,
    function: Function,
    module: Module,
    info: FunctionInfo,
    other_infos: Seq<FunctionInfo>,
    op: UnaryOperator,
    expr: Handle<Expression>,
    t: TypeInner,
)
    requires
        resolved_type(root, module.types@, info, expr) == Some(Ok::<TypeInner, ExpressionError>(t)),
    ensures
        ({
            let outcome = expression_outcome(
                validator,
                root,
                Expression::Unary { op, expr },
                function,
                module,
                info,
                other_infos,
            );
            let accepted = outcome == Some(Ok::<ShaderStages, ExpressionError>(ShaderStages { bits: 7 }));
            let rejected = outcome == Some(
                Err::<ShaderStages, ExpressionError>(ExpressionError::InvalidUnaryOperandType(op, expr)),
            );
            &&& (t matches TypeInner::Scalar { kind: ScalarKind::Sint, .. } || t matches TypeInner::Vector {
                kind: ScalarKind::Sint,
                ..
            }) ==> accepted
            &&& (t matches TypeInner::Scalar { kind: ScalarKind::Bool, .. } || t matches TypeInner::Vector {
                kind: ScalarKind::Bool,
                ..
            }) ==> accepted
            &&& (t matches TypeInner::Scalar { kind: ScalarKind::Float, .. } || t matches TypeInner::Vector {
                kind: ScalarKind::Float,
                ..
            }) ==> (if op == UnaryOperator::Negate {
                accepted
            } else {
                rejected
            })
            &&& (t matches TypeInner::Scalar { kind: ScalarKind::Uint, .. } || t matches TypeInner::Vector {
                kind: ScalarKind::Uint,
                ..
            }) ==> (if op == UnaryOperator::Not {
                accepted
            } else {
                rejected
            })
        }),
{
}


/// The outcome of validating `expression` where its operands resolve as
/// `info` records; a shorthand for the laws below.
pub open spec fn outcome_of(
    validator: Validator,
    root: Handle<Expression>,
    expression: Expression,
    function: Function,
    module: Module,
    info: FunctionInfo,
    other_infos: Seq<FunctionInfo>,
) -> Outcome<ShaderStages> {
    expression_outcome(validator, root, expression, function, module, info, other_infos)
}

/// Multiplication accepts, at one width: scalars and vectors of one numeric
/// kind with each other, float scalars with matrices either side, a matrix
/// times a float vector with as many components as it has columns, a float
/// vector with as many components as a matrix has rows times the matrix, and
/// a matrix times a matrix with as many rows as the first has columns.
pub proof fn lemma_multiply_shapes_accepted(
    validator: Validator,
    root: Handle<Expression>,
    function: Function,
    module: Module,
    info: FunctionInfo,
    other_infos: Seq<FunctionInfo>,
    left: Handle<Expression>,
    right: Handle<Expression>,
    lt: TypeInner,
    rt: TypeInner,
)
    requires
        resolved_type(root, module.types@, info, left) == Some(Ok::<TypeInner, ExpressionError>(lt)),
        resolved_type(root, module.types@, info, right) == Some(Ok::<TypeInner, ExpressionError>(rt)),
        match (lt, rt) {
            (TypeInner::Scalar { kind: k1, width: w1 }, TypeInner::Scalar { kind: k2, width: w2 })
            | (TypeInner::Vector { kind: k1, width: w1, .. }, TypeInner::Scalar { kind: k2, width: w2 })
            | (TypeInner::Scalar { kind: k1, width: w1 }, TypeInner::Vector { kind: k2, width: w2, .. }) => {
                k1 == k2 && k1 != ScalarKind::Bool && w1 == w2
            },
            (
                TypeInner::Vector { kind: k1, size: s1, width: w1 },
                TypeInner::Vector { kind: k2, size: s2, width: w2 },
            ) => k1 == k2 && k1 != ScalarKind::Bool && s1 == s2 && w1 == w2,
            (TypeInner::Scalar { kind: ScalarKind::Float, width: w1 }, TypeInner::Matrix { width: w2, .. })
            | (TypeInner::Matrix { width: w1, .. }, TypeInner::Scalar { kind: ScalarKind::Float, width: w2 }) => {
                w1 == w2
            },
            (
                TypeInner::Matrix { columns, width: w1, .. },
                TypeInner::Vector { kind: ScalarKind::Float, size, width: w2 },
            ) => columns == size && w1 == w2,
            (
                TypeInner::Vector { kind: ScalarKind::Float, size, width: w1 },
                TypeInner::Matrix { rows, width: w2, .. },
            ) => size == rows && w1 == w2,
            (TypeInner::Matrix { columns, width: w1, .. }, TypeInner::Matrix { rows, width: w2, .. }) => {
                columns == rows && w1 == w2
            },
            _ => false,
        },
    ensures
        outcome_of(
            validator,
            root,
            Expression::Binary { op: BinaryOperator::Multiply, left, right },
            function,
            module,
            info,
            other_infos,
        ) == Some(Ok::<ShaderStages, ExpressionError>(ShaderStages { bits: 7 })),
{
}

/// Shifts accept an integer scalar shifted by an unsigned scalar and an
/// integer vector shifted by an unsigned vector of its size; they refuse
/// float and boolean values to shift.
pub proof fn lemma_shift_operands(
    validator: Validator,
    root: Handle<Expression>,
    function: Function,
    module: Module,
    info: FunctionInfo,
    other_infos: Seq<FunctionInfo>,
    op: BinaryOperator,
    left: Handle<Expression>,
    right: Handle<Expression>,
    lt: TypeInner,
    rt: TypeInner,
)
    requires
        op == BinaryOperator::ShiftLeft || op == BinaryOperator::ShiftRight,
        resolved_type(root, module.types@, info, left) == Some(Ok::<TypeInner, ExpressionError>(lt)),
        resolved_type(root, module.types@, info, right) == Some(Ok::<TypeInner, ExpressionError>(rt)),
    ensures
        ({
            let outcome = outcome_of(
                validator,
                root,
                Expression::Binary { op, left, right },
                function,
                module,
                info,
                other_infos,
            );
            &&& (match (lt, rt) {
                (TypeInner::Scalar { kind: k, .. }, TypeInner::Scalar { kind: ScalarKind::Uint, .. }) => k
                    == ScalarKind::Sint || k == ScalarKind::Uint,
                (
                    TypeInner::Vector { kind: k, size: s1, .. },
                    TypeInner::Vector { kind: ScalarKind::Uint, size: s2, .. },
                ) => (k == ScalarKind::Sint || k == ScalarKind::Uint) && s1 == s2,
                _ => false,
            }) ==> outcome == Some(Ok::<ShaderStages, ExpressionError>(ShaderStages { bits: 7 }))
            &&& (lt matches TypeInner::Scalar { kind: ScalarKind::Float, .. } || lt matches TypeInner::Scalar {
                kind: ScalarKind::Bool,
                ..
            } || lt matches TypeInner::Vector { kind: ScalarKind::Float, .. }) ==> outcome == Some(
                Err::<ShaderStages, ExpressionError>(
                    ExpressionError::InvalidBinaryOperandTypes(op, left, right),
                ),
            )
        }),
{
}

/// The logical operations accept two boolean operands of one scalar or
/// vector type and refuse numeric ones.
pub proof fn lemma_logical_operands(
    validator: Validator,
    root: Handle<Expression>,
    function: Function,
    module: Module,
    info: FunctionInfo,
    other_infos: Seq<FunctionInfo>,
    op: BinaryOperator,
    left: Handle<Expression>,
    right: Handle<Expression>,
    t: TypeInner,
)
    requires
        op == BinaryOperator::LogicalAnd || op == BinaryOperator::LogicalOr,
        resolved_type(root, module.types@, info, left) == Some(Ok::<TypeInner, ExpressionError>(t)),
        resolved_type(root, module.types@, info, right) == Some(Ok::<TypeInner, ExpressionError>(t)),
    ensures
        ({
            let outcome = outcome_of(
                validator,
                root,
                Expression::Binary { op, left, right },
                function,
                module,
                info,
                other_infos,
            );
            &&& (t matches TypeInner::Scalar { kind: ScalarKind::Bool, .. } || t matches TypeInner::Vector {
                kind: ScalarKind::Bool,
                ..
            }) ==> outcome == Some(Ok::<ShaderStages, ExpressionError>(ShaderStages { bits: 7 }))
            &&& is_numeric_scalar_or_vector(t) ==> outcome == Some(
                Err::<ShaderStages, ExpressionError>(
                    ExpressionError::InvalidBinaryOperandTypes(op, left, right),
                ),
            )
        }),
{
    crate::valid::type_eq::lemma_same_type_inner_is_equivalence(t, t, t);
}

/// Arithmetic and ordering comparisons refuse boolean operands.
pub proof fn lemma_arithmetic_refuses_booleans(
    validator: Validator,
    root: Handle<Expression>,
    function: Function,
    module: Module,
    info: FunctionInfo,
    other_infos: Seq<FunctionInfo>,
    op: BinaryOperator,
    left: Handle<Expression>,
    right: Handle<Expression>,
    t: TypeInner,
)
    requires
        match op {
            BinaryOperator::Add | BinaryOperator::Subtract | BinaryOperator::Multiply
            | BinaryOperator::Divide | BinaryOperator::Modulo | BinaryOperator::Less
            | BinaryOperator::LessEqual | BinaryOperator::Greater | BinaryOperator::GreaterEqual
            | BinaryOperator::And | BinaryOperator::ExclusiveOr | BinaryOperator::InclusiveOr => true,
            _ => false,
        },
        t matches TypeInner::Scalar { kind: ScalarKind::Bool, .. } || t matches TypeInner::Vector {
            kind: ScalarKind::Bool,
            ..
        },
        resolved_type(root, module.types@, info, left) == Some(Ok::<TypeInner, ExpressionError>(t)),
        resolved_type(root, module.types@, info, right) == Some(Ok::<TypeInner, ExpressionError>(t)),
    ensures
        outcome_of(
            validator,
            root,
            Expression::Binary { op, left, right },
            function,
            module,
            info,
            other_infos,
        ) == Some(
            Err::<ShaderStages, ExpressionError>(
                ExpressionError::InvalidBinaryOperandTypes(op, left, right),
            ),
        ),
{
}

/// A vector, matrix, array or pointer indexed by a signed or unsigned integer
/// scalar is valid; a scalar cannot be indexed, and a float cannot index.
pub proof fn lemma_access_rules(
    validator: Validator,
    root: Handle<Expression>,
    function: Function,
    module: Module,
    info: FunctionInfo,
    other_infos: Seq<FunctionInfo>,
    base: Handle<Expression>,
    index: Handle<Expression>,
    bt: TypeInner,
    it: TypeInner,
)
    requires
        resolved_type(root, module.types@, info, base) == Some(Ok::<TypeInner, ExpressionError>(bt)),
        resolved_type(root, module.types@, info, index) == Some(Ok::<TypeInner, ExpressionError>(it)),
    ensures
        ({
            let outcome = outcome_of(
                validator,
                root,
                Expression::Access { base, index },
                function,
                module,
                info,
                other_infos,
            );
            let indexable = bt matches TypeInner::Vector { .. } || bt matches TypeInner::Matrix { .. }
                || bt matches TypeInner::Array { .. } || bt matches TypeInner::Pointer { .. };
            &&& (indexable && (it matches TypeInner::Scalar { kind: ScalarKind::Sint, .. } || it matches TypeInner::Scalar {
                kind: ScalarKind::Uint,
                ..
            })) ==> outcome == Some(Ok::<ShaderStages, ExpressionError>(ShaderStages { bits: 7 }))
            &&& bt matches TypeInner::Scalar { .. } ==> outcome == Some(
                Err::<ShaderStages, ExpressionError>(ExpressionError::InvalidBaseType(base)),
            )
            &&& (indexable && it matches TypeInner::Scalar { kind: ScalarKind::Float, .. }) ==> outcome
                == Some(Err::<ShaderStages, ExpressionError>(ExpressionError::InvalidIndexType(index)))
        }),
{
}

/// A constant index into a vector is valid below the vector's size (2, 3 or
/// 4) and out of bounds from it on; likewise a matrix's columns.
pub proof fn lemma_vector_index_bounds(
    validator: Validator,
    root: Handle<Expression>,
    function: Function,
    module: Module,
    info: FunctionInfo,
    other_infos: Seq<FunctionInfo>,
    base: Handle<Expression>,
    index: u32,
    bt: TypeInner,
)
    requires
        resolved_type(root, module.types@, info, base) == Some(Ok::<TypeInner, ExpressionError>(bt)),
    ensures
        ({
            let outcome = outcome_of(
                validator,
                root,
                Expression::AccessIndex { base, index },
                function,
                module,
                info,
                other_infos,
            );
            let count: int = match bt {
                TypeInner::Vector { size: VectorSize::Bi, .. } | TypeInner::Matrix {
                    columns: VectorSize::Bi,
                    ..
                } => 2,
                TypeInner::Vector { size: VectorSize::Tri, .. } | TypeInner::Matrix {
                    columns: VectorSize::Tri,
                    ..
                } => 3,
                TypeInner::Vector { size: VectorSize::Quad, .. } | TypeInner::Matrix {
                    columns: VectorSize::Quad,
                    ..
                } => 4,
                _ => 0,
            };
            count > 0 ==> (if index < count {
                outcome == Some(Ok::<ShaderStages, ExpressionError>(ShaderStages { bits: 7 }))
            } else {
                outcome == Some(
                    Err::<ShaderStages, ExpressionError>(ExpressionError::IndexOutOfBounds(base, index)),
                )
            })
        }),
{
}

/// A vector of `n` components of one kind and width composed from `n`
/// scalars of that kind and width is valid; from fewer or more it is refused
/// with the count found.
pub proof fn lemma_vector_from_scalars(
    validator: Validator,
    root: Handle<Expression>,
    function: Function,
    module: Module,
    info: FunctionInfo,
    other_infos: Seq<FunctionInfo>,
    ty: Handle<Type>,
    components: Vec<Handle<Expression>>,
    size: VectorSize,
    kind: ScalarKind,
    width: u8,
)
    requires
        ty.index < module.types@.len(),
        module.types@[ty.index as int].inner == (TypeInner::Vector { size, kind, width }),
        components@.len() <= 8,
        forall|j: int|
            0 <= j < components@.len() ==> resolved_type(root, module.types@, info, #[trigger] components@[j])
                == Some(Ok::<TypeInner, ExpressionError>(TypeInner::Scalar { kind, width })),
    ensures
        ({
            let n: int = match size {
                VectorSize::Bi => 2,
                VectorSize::Tri => 3,
                VectorSize::Quad => 4,
            };
            let outcome = outcome_of(
                validator,
                root,
                Expression::Compose { ty, components },
                function,
                module,
                info,
                other_infos,
            );
            if components@.len() == n {
                outcome == Some(Ok::<ShaderStages, ExpressionError>(ShaderStages { bits: 7 }))
            } else {
                outcome == Some(
                    Err::<ShaderStages, ExpressionError>(
                        ExpressionError::InvalidComposeCount {
                            given: components@.len() as u32,
                            expected: n as u32,
                        },
                    ),
                )
            }
        }),
{
    lemma_vector_scalars_rest(
        root,
        module.types@,
        info,
        components@,
        size,
        kind,
        width,
        0,
    );
}

proof fn lemma_vector_scalars_rest(
    root: Handle<Expression>,
    types: Seq<Type>,
    info: FunctionInfo,
    components: Seq<Handle<Expression>>,
    size: VectorSize,
    kind: ScalarKind,
    width: u8,
    i: int,
)
    requires
        0 <= i <= components.len() <= 8,
        forall|j: int|
            0 <= j < components.len() ==> resolved_type(root, types, info, #[trigger] components[j])
                == Some(Ok::<TypeInner, ExpressionError>(TypeInner::Scalar { kind, width })),
    ensures
        vector_compose_rest(root, types, info, components, size, kind, width, i, i as u32)
            == (if components.len() == vector_size_value(size) {
            Some(Ok::<ShaderStages, ExpressionError>(ShaderStages { bits: 7 }))
        } else {
            Some(
                Err::<ShaderStages, ExpressionError>(
                    ExpressionError::InvalidComposeCount {
                        expected: vector_size_value(size),
                        given: components.len() as u32,
                    },
                ),
            )
        }),
    decreases components.len() - i,
{
    if i < components.len() {
        assert(resolved_type(root, types, info, components[i]) == Some(
            Ok::<TypeInner, ExpressionError>(TypeInner::Scalar { kind, width }),
        ));
        lemma_vector_scalars_rest(root, types, info, components, size, kind, width, i + 1);
    }
}

/// A selection by a boolean scalar between two values of one sized type is
/// valid, and between values of different types it is refused.
pub proof fn lemma_select_rules(
    validator: Validator,
    root: Handle<Expression>,
    function: Function,
    module: Module,
    info: FunctionInfo,
    other_infos: Seq<FunctionInfo>,
    condition: Handle<Expression>,
    accept: Handle<Expression>,
    reject: Handle<Expression>,
    ct: TypeInner,
    at: TypeInner,
    rt: TypeInner,
)
    requires
        resolved_type(root, module.types@, info, condition) == Some(Ok::<TypeInner, ExpressionError>(ct)),
        resolved_type(root, module.types@, info, accept) == Some(Ok::<TypeInner, ExpressionError>(at)),
        resolved_type(root, module.types@, info, reject) == Some(Ok::<TypeInner, ExpressionError>(rt)),
        ct matches TypeInner::Scalar { kind: ScalarKind::Bool, .. },
    ensures
        ({
            let outcome = outcome_of(
                validator,
                root,
                Expression::Select { condition, accept, reject },
                function,
                module,
                info,
                other_infos,
            );
            &&& (at == rt && is_numeric_scalar_or_vector(at)) ==> outcome == Some(
                Ok::<ShaderStages, ExpressionError>(ShaderStages { bits: 7 }),
            )
            &&& !same_type_inner(at, rt) ==> outcome == Some(
                Err::<ShaderStages, ExpressionError>(ExpressionError::InvalidSelectTypes),
            )
        }),
{
    crate::valid::type_eq::lemma_same_type_inner_is_equivalence(at, at, at);
}

/// `all` and `any` accept boolean vectors and refuse boolean scalars; the
/// floating-point tests accept float scalars and vectors and refuse integers.
pub proof fn lemma_relational_rules(
    validator: Validator,
    root: Handle<Expression>,
    function: Function,
    module: Module,
    info: FunctionInfo,
    other_infos: Seq<FunctionInfo>,
    fun: RelationalFunction,
    argument: Handle<Expression>,
    t: TypeInner,
)
    requires
        resolved_type(root, module.types@, info, argument) == Some(Ok::<TypeInner, ExpressionError>(t)),
    ensures
        ({
            let outcome = outcome_of(
                validator,
                root,
                Expression::Relational { fun, argument },
                function,
                module,
                info,
                other_infos,
            );
            let ok = outcome == Some(Ok::<ShaderStages, ExpressionError>(ShaderStages { bits: 7 }));
            if fun == RelationalFunction::All || fun == RelationalFunction::Any {
                &&& t matches TypeInner::Vector { kind: ScalarKind::Bool, .. } ==> ok
                &&& t matches TypeInner::Scalar { .. } ==> outcome == Some(
                    Err::<ShaderStages, ExpressionError>(ExpressionError::InvalidBooleanVector(argument)),
                )
            } else {
                &&& (t matches TypeInner::Scalar { kind: ScalarKind::Float, .. } || t matches TypeInner::Vector {
                    kind: ScalarKind::Float,
                    ..
                }) ==> ok
                &&& (t matches TypeInner::Scalar { kind: ScalarKind::Sint, .. } || t matches TypeInner::Scalar {
                    kind: ScalarKind::Uint,
                    ..
                }) ==> outcome == Some(
                    Err::<ShaderStages, ExpressionError>(ExpressionError::InvalidFloatArgument(argument)),
                )
            }
        }),
{
}

/// A derivative runs in the fragment stage alone (bit 2); a function
/// argument exists exactly below the number of arguments; a constant, global
/// or local exists exactly when its handle is in range.
pub proof fn lemma_leaf_rules(
    validator: Validator,
    root: Handle<Expression>,
    function: Function,
    module: Module,
    info: FunctionInfo,
    other_infos: Seq<FunctionInfo>,
    axis: crate::valid::ir::DerivativeAxis,
    expr: Handle<Expression>,
    index: u32,
    c: Handle<Constant>,
)
    requires
        function.arguments@.len() <= u32::MAX,
    ensures
        outcome_of(validator, root, Expression::Derivative { axis, expr }, function, module, info, other_infos)
            == Some(Ok::<ShaderStages, ExpressionError>(ShaderStages { bits: 2 })),
        outcome_of(validator, root, Expression::FunctionArgument(index), function, module, info, other_infos)
            == if index < function.arguments@.len() {
            Some(Ok::<ShaderStages, ExpressionError>(ShaderStages { bits: 7 }))
        } else {
            Some(Err::<ShaderStages, ExpressionError>(ExpressionError::FunctionArgumentDoesntExist(index)))
        },
        outcome_of(validator, root, Expression::Constant(c), function, module, info, other_infos) == if c.index
            < module.constants@.len() {
            Some(Ok::<ShaderStages, ExpressionError>(ShaderStages { bits: 7 }))
        } else {
            Some(Err::<ShaderStages, ExpressionError>(ExpressionError::ConstantDoesntExist(c)))
        },
{
}

/// A matrix composed from a number of components other than its column
/// count is refused with that count expected and the number given.
pub proof fn lemma_matrix_compose_count(
    validator: Validator,
    root: Handle<Expression>,
    function: Function,
    module: Module,
    info: FunctionInfo,
    other_infos: Seq<FunctionInfo>,
    ty: Handle<Type>,
    components: Vec<Handle<Expression>>,
    columns: VectorSize,
    rows: VectorSize,
    width: u8,
)
    requires
        ty.index < module.types@.len(),
        module.types@[ty.index as int].inner == (TypeInner::Matrix { columns, rows, width }),
        components@.len() <= u32::MAX,
    ensures
        ({
            let n: u32 = match columns {
                VectorSize::Bi => 2,
                VectorSize::Tri => 3,
                VectorSize::Quad => 4,
            };
            components@.len() != n ==> outcome_of(
                validator,
                root,
                Expression::Compose { ty, components },
                function,
                module,
                info,
                other_infos,
            ) == Some(
                Err::<ShaderStages, ExpressionError>(
                    ExpressionError::InvalidComposeCount { given: components@.len() as u32, expected: n },
                ),
            )
        }),
{
}

proof fn lemma_struct_members_rest(
    root: Handle<Expression>,
    types: Seq<Type>,
    info: FunctionInfo,
    components: Seq<Handle<Expression>>,
    members: Seq<crate::valid::ir::StructMember>,
    i: int,
)
    requires
        0 <= i,
        forall|j: int|
            0 <= j < components.len() && j < members.len() ==> (#[trigger] members[j]).ty.index
                < types.len() && resolved_type(root, types, info, components[j]) == Some(
                Ok::<TypeInner, ExpressionError>(types[members[j].ty.index as int].inner),
            ),
    ensures
        struct_compose_rest(root, types, info, components, members, i) == (if members.len()
            != components.len() {
            Some(
                Err::<ShaderStages, ExpressionError>(
                    ExpressionError::InvalidComposeCount {
                        given: components.len() as u32,
                        expected: members.len() as u32,
                    },
                ),
            )
        } else {
            Some(Ok::<ShaderStages, ExpressionError>(ShaderStages { bits: 7 }))
        }),
    decreases components.len() - i,
{
    if i < components.len() && i < members.len() {
        let m = members[i];
        assert(m.ty.index < types.len());
        let t = types[m.ty.index as int].inner;
        crate::valid::type_eq::lemma_same_type_inner_is_equivalence(t, t, t);
        lemma_struct_members_rest(root, types, info, components, members, i + 1);
    }
}

/// A structure composed from components that have, one by one, the types of
/// its members is valid when there are as many components as members, and
/// is otherwise refused with the number of members expected and the number
/// of components given.
pub proof fn lemma_struct_from_members(
    validator: Validator,
    root: Handle<Expression>,
    function: Function,
    module: Module,
    info: FunctionInfo,
    other_infos: Seq<FunctionInfo>,
    ty: Handle<Type>,
    components: Vec<Handle<Expression>>,
    block: bool,
    members: Vec<crate::valid::ir::StructMember>,
)
    requires
        ty.index < module.types@.len(),
        module.types@[ty.index as int].inner == (TypeInner::Struct { block, members }),
        forall|j: int|
            0 <= j < components@.len() && j < members@.len() ==> (#[trigger] members@[j]).ty.index
                < module.types@.len() && resolved_type(root, module.types@, info, components@[j])
                == Some(
                Ok::<TypeInner, ExpressionError>(module.types@[members@[j].ty.index as int].inner),
            ),
    ensures
        outcome_of(
            validator,
            root,
            Expression::Compose { ty, components },
            function,
            module,
            info,
            other_infos,
        ) == (if members@.len() == components@.len() {
            Some(Ok::<ShaderStages, ExpressionError>(ShaderStages { bits: 7 }))
        } else {
            Some(
                Err::<ShaderStages, ExpressionError>(
                    ExpressionError::InvalidComposeCount {
                        given: components@.len() as u32,
                        expected: members@.len() as u32,
                    },
                ),
            )
        }),
{
    lemma_struct_members_rest(root, module.types@, info, components@, members@, 0);
}

/// Loading goes through a pointer to a type that validation found sized and
/// made of data (flag bits 1 and 2), or through a value pointer; loading
/// through a pointer to another type, or through a value that is no pointer,
/// is refused.
pub proof fn lemma_load_rules(
    validator: Validator,
    root: Handle<Expression>,
    function: Function,
    module: Module,
    info: FunctionInfo,
    other_infos: Seq<FunctionInfo>,
    pointer: Handle<Expression>,
    pt: TypeInner,
)
    requires
        resolved_type(root, module.types@, info, pointer) == Some(Ok::<TypeInner, ExpressionError>(pt)),
    ensures
        ({
            let outcome = outcome_of(
                validator,
                root,
                Expression::Load { pointer },
                function,
                module,
                info,
                other_infos,
            );
            let ok = Some(Ok::<ShaderStages, ExpressionError>(ShaderStages { bits: 7 }));
            let refused = Some(
                Err::<ShaderStages, ExpressionError>(ExpressionError::InvalidPointerType(pointer)),
            );
            &&& match pt {
                TypeInner::Pointer { base, .. } => base.index < validator.types@.len() ==> outcome == (
                if validator.types@[base.index as int].flags.bits & 3u8 == 3u8 {
                    ok
                } else {
                    refused
                }),
                _ => true,
            }
            &&& pt matches TypeInner::ValuePointer { .. } ==> outcome == ok
            &&& (pt matches TypeInner::Scalar { .. } || pt matches TypeInner::Vector { .. }
                || pt matches TypeInner::Matrix { .. } || pt matches TypeInner::Array { .. }
                || pt matches TypeInner::Struct { .. }) ==> outcome == refused
        }),
{
    assert(TYPE_SIZED | TYPE_DATA == 3u8) by (bit_vector);
}

/// The length of an array can be taken, and that of a scalar, vector or
/// matrix is refused.
pub proof fn lemma_array_length_rules(
    validator: Validator,
    root: Handle<Expression>,
    function: Function,
    module: Module,
    info: FunctionInfo,
    other_infos: Seq<FunctionInfo>,
    expr: Handle<Expression>,
    t: TypeInner,
)
    requires
        resolved_type(root, module.types@, info, expr) == Some(Ok::<TypeInner, ExpressionError>(t)),
    ensures
        t matches TypeInner::Array { .. } ==> outcome_of(
            validator,
            root,
            Expression::ArrayLength(expr),
            function,
            module,
            info,
            other_infos,
        ) == Some(Ok::<ShaderStages, ExpressionError>(ShaderStages { bits: 7 })),
        (t matches TypeInner::Scalar { .. } || t matches TypeInner::Vector { .. } || t matches TypeInner::Matrix {
            ..
        }) ==> outcome_of(
            validator,
            root,
            Expression::ArrayLength(expr),
            function,
            module,
            info,
            other_infos,
        ) == Some(Err::<ShaderStages, ExpressionError>(ExpressionError::InvalidArrayType(expr))),
{
}

/// Querying an image held in a global variable: the layer count exactly of
/// arrayed images; the level count, and the size at a level, exactly of
/// images with mipmap levels (depth images and single-sampled sampled
/// images); the size without level and the sample count exactly of the
/// others (storage and multisampled images). A query that does not fit is
/// refused with the image's class.
pub proof fn lemma_image_query_rules(
    validator: Validator,
    root: Handle<Expression>,
    function: Function,
    module: Module,
    info: FunctionInfo,
    other_infos: Seq<FunctionInfo>,
    image: Handle<Expression>,
    query: ImageQuery,
    var_handle: Handle<GlobalVariable>,
    dim: crate::valid::ir::ImageDimension,
    arrayed: bool,
    class: ImageClass,
)
    requires
        image.index < function.expressions@.len(),
        function.expressions@[image.index as int] == Expression::GlobalVariable(var_handle),
        var_handle.index < module.global_variables@.len(),
        module.global_variables@[var_handle.index as int].ty.index < module.types@.len(),
        module.types@[module.global_variables@[var_handle.index as int].ty.index as int].inner
            == (TypeInner::Image { dim, arrayed, class }),
    ensures
        ({
            let levels = match class {
                ImageClass::Sampled { multi, .. } => !multi,
                ImageClass::Storage(_) => false,
                ImageClass::Depth => true,
            };
            let fits = match query {
                ImageQuery::NumLayers => arrayed,
                ImageQuery::NumLevels => levels,
                ImageQuery::Size { level: Some(_) } => levels,
                ImageQuery::Size { level: None } => !levels,
                ImageQuery::NumSamples => !levels,
            };
            outcome_of(
                validator,
                root,
                Expression::ImageQuery { image, query },
                function,
                module,
                info,
                other_infos,
            ) == if fits {
                Some(Ok::<ShaderStages, ExpressionError>(ShaderStages { bits: 7 }))
            } else {
                Some(Err::<ShaderStages, ExpressionError>(ExpressionError::InvalidImageClass(class)))
            }
        }),
{
}

/// Equality and inequality accept two operands of one scalar or vector type
/// of any kind, booleans included.
pub proof fn lemma_equality_accepts_every_kind(
    validator: Validator,
    root: Handle<Expression>,
    function: Function,
    module: Module,
    info: FunctionInfo,
    other_infos: Seq<FunctionInfo>,
    op: BinaryOperator,
    left: Handle<Expression>,
    right: Handle<Expression>,
    t: TypeInner,
)
    requires
        op == BinaryOperator::Equal || op == BinaryOperator::NotEqual,
        t matches TypeInner::Scalar { .. } || t matches TypeInner::Vector { .. },
        resolved_type(root, module.types@, info, left) == Some(Ok::<TypeInner, ExpressionError>(t)),
        resolved_type(root, module.types@, info, right) == Some(Ok::<TypeInner, ExpressionError>(t)),
    ensures
        outcome_of(
            validator,
            root,
            Expression::Binary { op, left, right },
            function,
            module,
            info,
            other_infos,
        ) == Some(Ok::<ShaderStages, ExpressionError>(ShaderStages { bits: 7 })),
{
    crate::valid::type_eq::lemma_same_type_inner_is_equivalence(t, t, t);
}

/// Multiplication refuses a matrix times a vector whose size is not the
/// matrix's column count, a vector whose size is not the matrix's row count
/// times the matrix, two vectors of different sizes, and operands of
/// different widths.
pub proof fn lemma_multiply_mismatch_refused(
    validator: Validator,
    root: Handle<Expression>,
    function: Function,
    module: Module,
    info: FunctionInfo,
    other_infos: Seq<FunctionInfo>,
    left: Handle<Expression>,
    right: Handle<Expression>,
    lt: TypeInner,
    rt: TypeInner,
)
    requires
        resolved_type(root, module.types@, info, left) == Some(Ok::<TypeInner, ExpressionError>(lt)),
        resolved_type(root, module.types@, info, right) == Some(Ok::<TypeInner, ExpressionError>(rt)),
        match (lt, rt) {
            (TypeInner::Matrix { columns, .. }, TypeInner::Vector { size, .. }) => columns != size,
            (TypeInner::Vector { size, .. }, TypeInner::Matrix { rows, .. }) => size != rows,
            (TypeInner::Vector { size: s1, .. }, TypeInner::Vector { size: s2, .. }) => s1 != s2,
            (TypeInner::Scalar { width: w1, .. }, TypeInner::Scalar { width: w2, .. }) => w1 != w2,
            _ => false,
        },
    ensures
        outcome_of(
            validator,
            root,
            Expression::Binary { op: BinaryOperator::Multiply, left, right },
            function,
            module,
            info,
            other_infos,
        ) == Some(
            Err::<ShaderStages, ExpressionError>(
                ExpressionError::InvalidBinaryOperandTypes(BinaryOperator::Multiply, left, right),
            ),
        ),
{
}

/// Equality and inequality refuse values without a size known when the
/// shader is compiled: run-time sized arrays, images and samplers.
pub proof fn lemma_equality_refuses_unsized(
    validator: Validator,
    root: Handle<Expression>,
    function: Function,
    module: Module,
    info: FunctionInfo,
    other_infos: Seq<FunctionInfo>,
    op: BinaryOperator,
    left: Handle<Expression>,
    right: Handle<Expression>,
    t: TypeInner,
)
    requires
        op == BinaryOperator::Equal || op == BinaryOperator::NotEqual,
        t matches TypeInner::Array { size: ArraySize::Dynamic, .. } || t matches TypeInner::Image { .. }
            || t matches TypeInner::Sampler { .. },
        resolved_type(root, module.types@, info, left) == Some(Ok::<TypeInner, ExpressionError>(t)),
        resolved_type(root, module.types@, info, right) == Some(Ok::<TypeInner, ExpressionError>(t)),
    ensures
        outcome_of(
            validator,
            root,
            Expression::Binary { op, left, right },
            function,
            module,
            info,
            other_infos,
        ) == Some(
            Err::<ShaderStages, ExpressionError>(
                ExpressionError::InvalidBinaryOperandTypes(op, left, right),
            ),
        ),
{
}

/// How many components a scalar (one) or a vector (its size) of the kind and
/// width gives to a vector composed from it; `None` for other types.
pub open spec fn components_given(t: TypeInner, kind: ScalarKind, width: u8) -> Option<int> {
    match t {
        TypeInner::Scalar { kind: k, width: w } => if k == kind && w == width {
            Some(1)
        } else {
            None
        },
        TypeInner::Vector { size, kind: k, width: w } => if k == kind && w == width {
            Some(
                match size {
                    VectorSize::Bi => 2,
                    VectorSize::Tri => 3,
                    VectorSize::Quad => 4,
                },
            )
        } else {
            None
        },
        _ => None,
    }
}

/// A vector composed from two parts, each a scalar or a vector of the
/// vector's kind and width, is valid when the parts' components add up to
/// the vector's size, and otherwise refused with that sum; a first part of
/// another kind or width is refused as the component at position 0.
pub proof fn lemma_vector_from_two_parts(
    validator: Validator,
    root: Handle<Expression>,
    function: Function,
    module: Module,
    info: FunctionInfo,
    other_infos: Seq<FunctionInfo>,
    ty: Handle<Type>,
    components: Vec<Handle<Expression>>,
    size: VectorSize,
    kind: ScalarKind,
    width: u8,
    t0: TypeInner,
    t1: TypeInner,
)
    requires
        ty.index < module.types@.len(),
        module.types@[ty.index as int].inner == (TypeInner::Vector { size, kind, width }),
        components@.len() == 2,
        resolved_type(root, module.types@, info, components@[0]) == Some(
            Ok::<TypeInner, ExpressionError>(t0),
        ),
        resolved_type(root, module.types@, info, components@[1]) == Some(
            Ok::<TypeInner, ExpressionError>(t1),
        ),
    ensures
        ({
            let n: int = match size {
                VectorSize::Bi => 2,
                VectorSize::Tri => 3,
                VectorSize::Quad => 4,
            };
            let outcome = outcome_of(
                validator,
                root,
                Expression::Compose { ty, components },
                function,
                module,
                info,
                other_infos,
            );
            &&& (components_given(t0, kind, width) is Some && components_given(t1, kind, width) is Some)
                ==> ({
                let sum = components_given(t0, kind, width)->0 + components_given(t1, kind, width)->0;
                outcome == if sum == n {
                    Some(Ok::<ShaderStages, ExpressionError>(ShaderStages { bits: 7 }))
                } else {
                    Some(
                        Err::<ShaderStages, ExpressionError>(
                            ExpressionError::InvalidComposeCount { given: sum as u32, expected: n as u32 },
                        ),
                    )
                }
            })
            &&& ((t0 matches TypeInner::Scalar { .. } || t0 matches TypeInner::Vector { .. })
                && components_given(t0, kind, width) is None) ==> outcome == Some(
                Err::<ShaderStages, ExpressionError>(
                    ExpressionError::InvalidComponentType(0, components@[0]),
                ),
            )
        }),
{
    let c = components@;
    let types = module.types@;
    assert(outcome_of(validator, root, Expression::Compose { ty, components }, function, module, info, other_infos)
        == vector_compose_rest(root, types, info, c, size, kind, width, 0, 0));
    match vector_component_count(t0, kind, width) {
        Some(a) => {
            assert(vector_compose_rest(root, types, info, c, size, kind, width, 0, 0)
                == vector_compose_rest(root, types, info, c, size, kind, width, 1, a));
            match vector_component_count(t1, kind, width) {
                Some(b) => {
                    assert(vector_compose_rest(root, types, info, c, size, kind, width, 1, a)
                        == vector_compose_rest(root, types, info, c, size, kind, width, 2, (a + b) as u32));
                    assert(vector_compose_rest(root, module.types@, info, c, size, kind, width, 2, (a + b) as u32)
                        == if vector_size_value(size) != (a + b) as u32 {
                        Some(
                            Err::<ShaderStages, ExpressionError>(
                                ExpressionError::InvalidComposeCount {
                                    expected: vector_size_value(size),
                                    given: (a + b) as u32,
                                },
                            ),
                        )
                    } else {
                        Some(Ok::<ShaderStages, ExpressionError>(ShaderStages { bits: 7 }))
                    });
                },
                None => {},
            }
        },
        None => {},
    }
}

/// A constant index into a structure is valid below its member count and
/// out of bounds from it on; into an array whose length is an unsigned
/// constant, below that length; into an array of run-time length, always
/// (it is checked when the shader runs); a scalar cannot be indexed.
pub proof fn lemma_member_and_element_bounds(
    validator: Validator,
    root: Handle<Expression>,
    function: Function,
    module: Module,
    info: FunctionInfo,
    other_infos: Seq<FunctionInfo>,
    base: Handle<Expression>,
    index: u32,
    bt: TypeInner,
)
    requires
        resolved_type(root, module.types@, info, base) == Some(Ok::<TypeInner, ExpressionError>(bt)),
    ensures
        ({
            let outcome = outcome_of(
                validator,
                root,
                Expression::AccessIndex { base, index },
                function,
                module,
                info,
                other_infos,
            );
            let ok = Some(Ok::<ShaderStages, ExpressionError>(ShaderStages { bits: 7 }));
            let out_of_bounds = Some(
                Err::<ShaderStages, ExpressionError>(ExpressionError::IndexOutOfBounds(base, index)),
            );
            &&& match bt {
                TypeInner::Struct { members, .. } => members@.len() <= u32::MAX ==> outcome == (if index
                    < members@.len() {
                    ok
                } else {
                    out_of_bounds
                }),
                TypeInner::Array { size: ArraySize::Constant(c), .. } => c.index
                    < module.constants@.len() ==> match module.constants@[c.index as int].inner {
                    ConstantInner::Scalar { value: ScalarValue::Uint(n), .. } => n <= u32::MAX ==> outcome
                        == (if index < n {
                        ok
                    } else {
                        out_of_bounds
                    }),
                    _ => true,
                },
                TypeInner::Array { size: ArraySize::Dynamic, .. } => index < u32::MAX ==> outcome == ok,
                TypeInner::Scalar { .. } => outcome == Some(
                    Err::<ShaderStages, ExpressionError>(ExpressionError::InvalidBaseType(base)),
                ),
                _ => true,
            }
        }),
{
}

/// A selection by a boolean vector chooses between two vectors of one type
/// with as many components as the condition, and refuses vectors of another
/// size.
pub proof fn lemma_select_by_vector(
    validator: Validator,
    root: Handle<Expression>,
    function: Function,
    module: Module,
    info: FunctionInfo,
    other_infos: Seq<FunctionInfo>,
    condition: Handle<Expression>,
    accept: Handle<Expression>,
    reject: Handle<Expression>,
    size: VectorSize,
    width: u8,
    t: TypeInner,
)
    requires
        resolved_type(root, module.types@, info, condition) == Some(
            Ok::<TypeInner, ExpressionError>(TypeInner::Vector { size, kind: ScalarKind::Bool, width }),
        ),
        resolved_type(root, module.types@, info, accept) == Some(Ok::<TypeInner, ExpressionError>(t)),
        resolved_type(root, module.types@, info, reject) == Some(Ok::<TypeInner, ExpressionError>(t)),
        t matches TypeInner::Vector { .. },
    ensures
        outcome_of(
            validator,
            root,
            Expression::Select { condition, accept, reject },
            function,
            module,
            info,
            other_infos,
        ) == if t->Vector_size == size {
            Some(Ok::<ShaderStages, ExpressionError>(ShaderStages { bits: 7 }))
        } else {
            Some(Err::<ShaderStages, ExpressionError>(ExpressionError::InvalidSelectTypes))
        },
{
    crate::valid::type_eq::lemma_same_type_inner_is_equivalence(t, t, t);
}

/// Shifts refuse an unsigned vector of another size as the shift amount,
/// and signed or float shift amounts.
pub proof fn lemma_shift_refusals(
    validator: Validator,
    root: Handle<Expression>,
    function: Function,
    module: Module,
    info: FunctionInfo,
    other_infos: Seq<FunctionInfo>,
    op: BinaryOperator,
    left: Handle<Expression>,
    right: Handle<Expression>,
    lt: TypeInner,
    rt: TypeInner,
)
    requires
        op == BinaryOperator::ShiftLeft || op == BinaryOperator::ShiftRight,
        resolved_type(root, module.types@, info, left) == Some(Ok::<TypeInner, ExpressionError>(lt)),
        resolved_type(root, module.types@, info, right) == Some(Ok::<TypeInner, ExpressionError>(rt)),
        match (lt, rt) {
            (TypeInner::Vector { size: s1, .. }, TypeInner::Vector { size: s2, .. }) => s1 != s2,
            (_, TypeInner::Scalar { kind, .. }) | (_, TypeInner::Vector { kind, .. }) => kind
                == ScalarKind::Sint || kind == ScalarKind::Float,
            _ => false,
        },
    ensures
        outcome_of(
            validator,
            root,
            Expression::Binary { op, left, right },
            function,
            module,
            info,
            other_infos,
        ) == Some(
            Err::<ShaderStages, ExpressionError>(
                ExpressionError::InvalidBinaryOperandTypes(op, left, right),
            ),
        ),
{
}

/// A boolean cannot index.
pub proof fn lemma_boolean_index_refused(
    validator: Validator,
    root: Handle<Expression>,
    function: Function,
    module: Module,
    info: FunctionInfo,
    other_infos: Seq<FunctionInfo>,
    base: Handle<Expression>,
    index: Handle<Expression>,
    bt: TypeInner,
    width: u8,
)
    requires
        resolved_type(root, module.types@, info, base) == Some(Ok::<TypeInner, ExpressionError>(bt)),
        resolved_type(root, module.types@, info, index) == Some(
            Ok::<TypeInner, ExpressionError>(TypeInner::Scalar { kind: ScalarKind::Bool, width }),
        ),
        bt matches TypeInner::Vector { .. } || bt matches TypeInner::Matrix { .. } || bt matches TypeInner::Array {
            ..
        },
    ensures
        outcome_of(
            validator,
            root,
            Expression::Access { base, index },
            function,
            module,
            info,
            other_infos,
        ) == Some(Err::<ShaderStages, ExpressionError>(ExpressionError::InvalidIndexType(index))),
{
}

/// A global or local variable exists exactly when its handle is in range of
/// the module's globals or the function's locals.
pub proof fn lemma_variable_existence(
    validator: Validator,
    root: Handle<Expression>,
    function: Function,
    module: Module,
    info: FunctionInfo,
    other_infos: Seq<FunctionInfo>,
    global: Handle<GlobalVariable>,
    local: Handle<LocalVariable>,
)
    ensures
        outcome_of(validator, root, Expression::GlobalVariable(global), function, module, info, other_infos)
            == if global.index < module.global_variables@.len() {
            Some(Ok::<ShaderStages, ExpressionError>(ShaderStages { bits: 7 }))
        } else {
            Some(Err::<ShaderStages, ExpressionError>(ExpressionError::GlobalVarDoesntExist(global)))
        },
        outcome_of(validator, root, Expression::LocalVariable(local), function, module, info, other_infos)
            == if local.index < function.local_variables@.len() {
            Some(Ok::<ShaderStages, ExpressionError>(ShaderStages { bits: 7 }))
        } else {
            Some(Err::<ShaderStages, ExpressionError>(ExpressionError::LocalVarDoesntExist(local)))
        },
{
}

} // verus!
