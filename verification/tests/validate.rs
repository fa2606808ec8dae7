use naga::arena::{Arena, Handle};
use naga::proc::ResolveError;
use naga::valid::expression::{ExpressionError, ExpressionTypeResolver};
use naga::valid::ir::{
    ArraySize, BinaryOperator, Constant, ConstantInner, DerivativeAxis, Expression, Function,
    FunctionArgument, GlobalVariable, ImageClass, ImageDimension, ImageQuery, LocalVariable,
    Module, RelationalFunction, ScalarKind, ScalarValue, StorageClass, StructMember, Type,
    TypeInner, UnaryOperator, VectorSize,
};
use naga::valid::{
    ExpressionInfo, FunctionInfo, ShaderStages, TypeFlags, TypeInfo, TypeResolution, Validator,
    STAGE_FRAGMENT, STAGE_VERTEX, TYPE_DATA, TYPE_SIZED,
};

fn h<T>(i: usize) -> Handle<T> {
    Handle::new(i)
}

fn ty(inner: TypeInner) -> Type {
    Type { name: None, inner }
}

fn scalar(kind: ScalarKind) -> TypeInner {
    TypeInner::Scalar { kind, width: 4 }
}

fn vector(size: VectorSize, kind: ScalarKind) -> TypeInner {
    TypeInner::Vector { size, kind, width: 4 }
}

/// Types: 0 float, 1 int, 2 uint, 3 bool, 4 vec2, 5 vec4, 6 mat2x2, 7 float[len const 0],
/// 8 struct{float, int}, 9 pointer to float, 10 image 2D sampled arrayed, 11 vec2<bool>,
/// 12 float[] (dynamic), 13 uvec2, 14 ivec2.
fn module() -> Module {
    let types = vec![
        ty(scalar(ScalarKind::Float)),
        ty(scalar(ScalarKind::Sint)),
        ty(scalar(ScalarKind::Uint)),
        ty(scalar(ScalarKind::Bool)),
        ty(vector(VectorSize::Bi, ScalarKind::Float)),
        ty(vector(VectorSize::Quad, ScalarKind::Float)),
        ty(TypeInner::Matrix { columns: VectorSize::Bi, rows: VectorSize::Bi, width: 4 }),
        ty(TypeInner::Array { base: h(0), size: ArraySize::Constant(h(0)), stride: 4 }),
        ty(TypeInner::Struct {
            block: false,
            members: vec![
                StructMember { name: Some("a".to_string()), ty: h(0) },
                StructMember { name: Some("b".to_string()), ty: h(1) },
            ],
        }),
        ty(TypeInner::Pointer { base: h(0), class: StorageClass::Function }),
        ty(TypeInner::Image {
            dim: ImageDimension::D2,
            arrayed: false,
            class: ImageClass::Sampled { kind: ScalarKind::Float, multi: false },
        }),
        ty(vector(VectorSize::Bi, ScalarKind::Bool)),
        ty(TypeInner::Array { base: h(0), size: ArraySize::Dynamic, stride: 4 }),
        ty(vector(VectorSize::Bi, ScalarKind::Uint)),
        ty(vector(VectorSize::Bi, ScalarKind::Sint)),
    ];
    Module {
        types: Arena { data: types },
        constants: Arena {
            data: vec![Constant {
                name: None,
                inner: ConstantInner::Scalar { width: 4, value: ScalarValue::Uint(3) },
            }],
        },
        global_variables: Arena {
            data: vec![GlobalVariable { name: None, class: StorageClass::Handle, ty: h(10) }],
        },
        functions: Arena { data: vec![] },
    }
}

fn validator() -> Validator {
    let mut types = Vec::new();
    for _ in 0..15 {
        types.push(TypeInfo { flags: TypeFlags { bits: TYPE_DATA | TYPE_SIZED } });
    }
    Validator { types }
}

/// Each expression handle `i` has the type `types[i]` of the module.
fn info(types: &[usize]) -> FunctionInfo {
    FunctionInfo {
        available_stages: ShaderStages::all(),
        expressions: types
            .iter()
            .map(|&t| ExpressionInfo { ty: TypeResolution::Handle(h(t)) })
            .collect(),
    }
}

fn function(expressions: Vec<Expression>) -> Function {
    Function {
        name: None,
        arguments: vec![FunctionArgument { name: None, ty: h(0) }],
        local_variables: Arena { data: vec![LocalVariable { name: None, ty: h(0) }] },
        expressions: Arena { data: expressions },
    }
}

fn validate(
    root: usize,
    expression: Expression,
    types: &[usize],
) -> Result<ShaderStages, ExpressionError> {
    let module = module();
    let function = function(vec![Expression::GlobalVariable(h(0))]);
    let info = info(types);
    validator().validate_expression(h(root), &expression, &function, &module, &info, &[])
}

#[test]
fn resolver_rejects_forward_operands() {
    let module = module();
    let info = info(&[0, 1]);
    let resolver = ExpressionTypeResolver { root: h(1), types: &module.types, info: &info };
    assert!(matches!(resolver.resolve(h(0)), Ok(TypeInner::Scalar { kind: ScalarKind::Float, .. })));
    assert_eq!(
        resolver.resolve(h(1)).unwrap_err(),
        ExpressionError::ForwardDependency(h(1))
    );
}

#[test]
fn access_by_integer_is_valid_in_every_stage() {
    let r = validate(2, Expression::Access { base: h(0), index: h(1) }, &[5, 2]);
    assert_eq!(r, Ok(ShaderStages::all()));
    assert_eq!(ShaderStages::all().bits, 7);
}

#[test]
fn access_into_scalar_is_rejected() {
    let r = validate(2, Expression::Access { base: h(0), index: h(1) }, &[0, 2]);
    assert_eq!(r, Err(ExpressionError::InvalidBaseType(h(0))));
}

#[test]
fn access_by_float_is_rejected() {
    let r = validate(2, Expression::Access { base: h(0), index: h(1) }, &[5, 0]);
    assert_eq!(r, Err(ExpressionError::InvalidIndexType(h(1))));
}

#[test]
fn operand_after_the_expression_is_a_forward_dependency() {
    let r = validate(1, Expression::Access { base: h(0), index: h(1) }, &[5, 2]);
    assert_eq!(r, Err(ExpressionError::ForwardDependency(h(1))));
    let r = validate(0, Expression::Unary { op: UnaryOperator::Negate, expr: h(0) }, &[0]);
    assert_eq!(r, Err(ExpressionError::ForwardDependency(h(0))));
}

#[test]
fn access_index_respects_the_limit_of_the_base() {
    let r = validate(1, Expression::AccessIndex { base: h(0), index: 1 }, &[4]);
    assert_eq!(r, Ok(ShaderStages::all()));
    let r = validate(1, Expression::AccessIndex { base: h(0), index: 2 }, &[4]);
    assert_eq!(r, Err(ExpressionError::IndexOutOfBounds(h(0), 2)));
    // The array's length is the constant 3.
    let r = validate(1, Expression::AccessIndex { base: h(0), index: 2 }, &[7]);
    assert_eq!(r, Ok(ShaderStages::all()));
    let r = validate(1, Expression::AccessIndex { base: h(0), index: 3 }, &[7]);
    assert_eq!(r, Err(ExpressionError::IndexOutOfBounds(h(0), 3)));
    let r = validate(1, Expression::AccessIndex { base: h(0), index: 2 }, &[8]);
    assert_eq!(r, Err(ExpressionError::IndexOutOfBounds(h(0), 2)));
    let r = validate(1, Expression::AccessIndex { base: h(0), index: 1000 }, &[12]);
    assert_eq!(r, Ok(ShaderStages::all()));
    let r = validate(1, Expression::AccessIndex { base: h(0), index: 0 }, &[0]);
    assert_eq!(r, Err(ExpressionError::InvalidBaseType(h(0))));
}

#[test]
fn constants_globals_locals_and_arguments_must_exist() {
    assert_eq!(validate(0, Expression::Constant(h(0)), &[]), Ok(ShaderStages::all()));
    assert_eq!(
        validate(0, Expression::Constant(h(5)), &[]),
        Err(ExpressionError::ConstantDoesntExist(h(5)))
    );
    assert_eq!(
        validate(0, Expression::GlobalVariable(h(1)), &[]),
        Err(ExpressionError::GlobalVarDoesntExist(h(1)))
    );
    assert_eq!(validate(0, Expression::LocalVariable(h(0)), &[]), Ok(ShaderStages::all()));
    assert_eq!(
        validate(0, Expression::LocalVariable(h(2)), &[]),
        Err(ExpressionError::LocalVarDoesntExist(h(2)))
    );
    assert_eq!(validate(0, Expression::FunctionArgument(0), &[]), Ok(ShaderStages::all()));
    assert_eq!(
        validate(0, Expression::FunctionArgument(1), &[]),
        Err(ExpressionError::FunctionArgumentDoesntExist(1))
    );
}

#[test]
fn vector_compose_counts_components() {
    let compose = |ty: usize, n: usize| Expression::Compose {
        ty: h(ty),
        components: (0..n).map(h).collect(),
    };
    // vec4 from a vec2 and two floats.
    assert_eq!(validate(3, compose(5, 3), &[4, 0, 0]), Ok(ShaderStages::all()));
    // vec4 from three floats.
    assert_eq!(
        validate(3, compose(5, 3), &[0, 0, 0]),
        Err(ExpressionError::InvalidComposeCount { given: 3, expected: 4 })
    );
    // vec2 from a float and an int.
    assert_eq!(
        validate(2, compose(4, 2), &[0, 1]),
        Err(ExpressionError::InvalidComponentType(1, h(1)))
    );
    assert_eq!(
        validate(2, compose(40, 2), &[0, 1]),
        Err(ExpressionError::ComposeTypeDoesntExist(h(40)))
    );
    assert_eq!(
        validate(1, compose(0, 1), &[0]),
        Err(ExpressionError::InvalidComposeType(h(0)))
    );
}

#[test]
fn matrix_array_and_struct_compose() {
    let compose = |ty: usize, n: usize| Expression::Compose {
        ty: h(ty),
        components: (0..n).map(h).collect(),
    };
    assert_eq!(validate(2, compose(6, 2), &[4, 4]), Ok(ShaderStages::all()));
    assert_eq!(
        validate(1, compose(6, 1), &[4]),
        Err(ExpressionError::InvalidComposeCount { given: 1, expected: 2 })
    );
    assert_eq!(
        validate(2, compose(6, 2), &[4, 5]),
        Err(ExpressionError::InvalidComponentType(1, h(1)))
    );
    assert_eq!(validate(3, compose(7, 3), &[0, 0, 0]), Ok(ShaderStages::all()));
    assert_eq!(
        validate(2, compose(7, 2), &[0, 0]),
        Err(ExpressionError::InvalidComposeCount { given: 2, expected: 3 })
    );
    assert_eq!(validate(2, compose(8, 2), &[0, 1]), Ok(ShaderStages::all()));
    assert_eq!(
        validate(2, compose(8, 2), &[1, 1]),
        Err(ExpressionError::InvalidComponentType(0, h(0)))
    );
    assert_eq!(
        validate(1, compose(8, 1), &[0]),
        Err(ExpressionError::InvalidComposeCount { given: 1, expected: 2 })
    );
}

#[test]
fn load_needs_a_pointer_to_sized_data() {
    assert_eq!(validate(1, Expression::Load { pointer: h(0) }, &[9]), Ok(ShaderStages::all()));
    assert_eq!(
        validate(1, Expression::Load { pointer: h(0) }, &[0]),
        Err(ExpressionError::InvalidPointerType(h(0)))
    );
    let module = module();
    let function = function(vec![]);
    let info = info(&[9]);
    let mut unsized_validator = validator();
    unsized_validator.types[0].flags = TypeFlags { bits: TYPE_DATA };
    let r = unsized_validator.validate_expression(
        h(1),
        &Expression::Load { pointer: h(0) },
        &function,
        &module,
        &info,
        &[],
    );
    assert_eq!(r, Err(ExpressionError::InvalidPointerType(h(0))));
}

#[test]
fn image_queries_follow_the_image_class() {
    // Expression 0 of the function is the global image variable.
    let q = |query: ImageQuery| Expression::ImageQuery { image: h(0), query };
    assert_eq!(validate(1, q(ImageQuery::NumLevels), &[10]), Ok(ShaderStages::all()));
    assert_eq!(
        validate(1, q(ImageQuery::Size { level: Some(h(0)) }), &[10]),
        Ok(ShaderStages::all())
    );
    let sampled = ImageClass::Sampled { kind: ScalarKind::Float, multi: false };
    assert_eq!(
        validate(1, q(ImageQuery::NumLayers), &[10]),
        Err(ExpressionError::InvalidImageClass(sampled))
    );
    assert_eq!(
        validate(1, q(ImageQuery::NumSamples), &[10]),
        Err(ExpressionError::InvalidImageClass(sampled))
    );
}

#[test]
fn image_query_needs_a_global_image() {
    let module = module();
    let function = function(vec![Expression::LocalVariable(h(0))]);
    let info = info(&[0]);
    let r = validator().validate_expression(
        h(1),
        &Expression::ImageQuery { image: h(0), query: ImageQuery::NumLevels },
        &function,
        &module,
        &info,
        &[],
    );
    assert_eq!(r, Err(ExpressionError::ExpectedGlobalVariable));
}

#[test]
fn unary_operators_follow_the_scalar_kind() {
    let u = |op| Expression::Unary { op, expr: h(0) };
    assert_eq!(validate(1, u(UnaryOperator::Negate), &[0]), Ok(ShaderStages::all()));
    assert_eq!(
        validate(1, u(UnaryOperator::Not), &[0]),
        Err(ExpressionError::InvalidUnaryOperandType(UnaryOperator::Not, h(0)))
    );
    assert_eq!(validate(1, u(UnaryOperator::Not), &[2]), Ok(ShaderStages::all()));
    assert_eq!(
        validate(1, u(UnaryOperator::Negate), &[2]),
        Err(ExpressionError::InvalidUnaryOperandType(UnaryOperator::Negate, h(0)))
    );
    assert_eq!(validate(1, u(UnaryOperator::Not), &[3]), Ok(ShaderStages::all()));
    assert_eq!(validate(1, u(UnaryOperator::Not), &[6]), Err(ExpressionError::InvalidUnaryOperandType(UnaryOperator::Not, h(0))));
}

#[test]
fn binary_operators_check_their_operands() {
    let b = |op| Expression::Binary { op, left: h(0), right: h(1) };
    let bad = |op| Err(ExpressionError::InvalidBinaryOperandTypes(op, h(0), h(1)));
    assert_eq!(validate(2, b(BinaryOperator::Add), &[4, 4]), Ok(ShaderStages::all()));
    assert_eq!(validate(2, b(BinaryOperator::Add), &[4, 0]), bad(BinaryOperator::Add));
    assert_eq!(validate(2, b(BinaryOperator::Add), &[3, 3]), bad(BinaryOperator::Add));
    // Matrix times vector, vector times scalar.
    assert_eq!(validate(2, b(BinaryOperator::Multiply), &[6, 4]), Ok(ShaderStages::all()));
    assert_eq!(validate(2, b(BinaryOperator::Multiply), &[4, 0]), Ok(ShaderStages::all()));
    assert_eq!(validate(2, b(BinaryOperator::Multiply), &[6, 5]), bad(BinaryOperator::Multiply));
    assert_eq!(validate(2, b(BinaryOperator::Equal), &[5, 5]), Ok(ShaderStages::all()));
    assert_eq!(validate(2, b(BinaryOperator::Equal), &[12, 12]), bad(BinaryOperator::Equal));
    assert_eq!(validate(2, b(BinaryOperator::LogicalAnd), &[3, 3]), Ok(ShaderStages::all()));
    assert_eq!(validate(2, b(BinaryOperator::LogicalAnd), &[1, 1]), bad(BinaryOperator::LogicalAnd));
    assert_eq!(validate(2, b(BinaryOperator::And), &[1, 1]), Ok(ShaderStages::all()));
    assert_eq!(validate(2, b(BinaryOperator::And), &[0, 0]), bad(BinaryOperator::And));
    assert_eq!(validate(2, b(BinaryOperator::Less), &[0, 0]), Ok(ShaderStages::all()));
    // Shifts: integer scalar by uint scalar, ivec2 by uvec2.
    assert_eq!(validate(2, b(BinaryOperator::ShiftLeft), &[1, 2]), Ok(ShaderStages::all()));
    assert_eq!(validate(2, b(BinaryOperator::ShiftLeft), &[14, 13]), Ok(ShaderStages::all()));
    assert_eq!(validate(2, b(BinaryOperator::ShiftRight), &[1, 1]), bad(BinaryOperator::ShiftRight));
    assert_eq!(validate(2, b(BinaryOperator::ShiftRight), &[14, 2]), bad(BinaryOperator::ShiftRight));
}

#[test]
fn select_needs_a_boolean_condition_and_equal_alternatives() {
    let s = Expression::Select { condition: h(0), accept: h(1), reject: h(2) };
    assert_eq!(validate(3, s, &[3, 0, 0]), Ok(ShaderStages::all()));
    let s = Expression::Select { condition: h(0), accept: h(1), reject: h(2) };
    assert_eq!(validate(3, s, &[3, 0, 1]), Err(ExpressionError::InvalidSelectTypes));
    let s = Expression::Select { condition: h(0), accept: h(1), reject: h(2) };
    assert_eq!(validate(3, s, &[11, 4, 4]), Ok(ShaderStages::all()));
    let s = Expression::Select { condition: h(0), accept: h(1), reject: h(2) };
    assert_eq!(validate(3, s, &[11, 5, 5]), Err(ExpressionError::InvalidSelectTypes));
}

#[test]
fn derivatives_run_in_the_fragment_stage_only() {
    let r = validate(1, Expression::Derivative { axis: DerivativeAxis::X, expr: h(0) }, &[0]);
    assert_eq!(r, Ok(ShaderStages::fragment()));
    assert_eq!(ShaderStages::fragment().bits, STAGE_FRAGMENT);
    assert!(ShaderStages::all().contains(ShaderStages::fragment()));
    assert!(!ShaderStages::fragment().contains(ShaderStages::vertex()));
}

#[test]
fn relational_functions_check_their_argument() {
    let r = |fun| Expression::Relational { fun, argument: h(0) };
    assert_eq!(validate(1, r(RelationalFunction::All), &[11]), Ok(ShaderStages::all()));
    assert_eq!(
        validate(1, r(RelationalFunction::Any), &[3]),
        Err(ExpressionError::InvalidBooleanVector(h(0)))
    );
    assert_eq!(validate(1, r(RelationalFunction::IsNan), &[4]), Ok(ShaderStages::all()));
    assert_eq!(
        validate(1, r(RelationalFunction::IsInf), &[1]),
        Err(ExpressionError::InvalidFloatArgument(h(0)))
    );
}

#[test]
fn calls_take_the_stages_of_the_callee() {
    let module = module();
    let function = function(vec![]);
    let info = info(&[]);
    let callee = FunctionInfo { available_stages: ShaderStages::vertex(), expressions: vec![] };
    let r = validator().validate_expression(
        h(0),
        &Expression::Call(h(0)),
        &function,
        &module,
        &info,
        &[callee],
    );
    assert_eq!(r, Ok(ShaderStages { bits: STAGE_VERTEX }));
}

#[test]
fn array_length_needs_an_array() {
    assert_eq!(validate(1, Expression::ArrayLength(h(0)), &[12]), Ok(ShaderStages::all()));
    assert_eq!(
        validate(1, Expression::ArrayLength(h(0)), &[0]),
        Err(ExpressionError::InvalidArrayType(h(0)))
    );
}

#[test]
fn value_resolutions_are_used_as_they_are() {
    let module = module();
    let function = function(vec![]);
    let info = FunctionInfo {
        available_stages: ShaderStages::all(),
        expressions: vec![ExpressionInfo {
            ty: TypeResolution::Value(vector(VectorSize::Tri, ScalarKind::Float)),
        }],
    };
    let r = validator().validate_expression(
        h(1),
        &Expression::AccessIndex { base: h(0), index: 2 },
        &function,
        &module,
        &info,
        &[],
    );
    assert_eq!(r, Ok(ShaderStages::all()));
}

#[test]
fn resolve_errors_convert_into_expression_errors() {
    let e: ExpressionError = ResolveError { message: "no type".to_string() }.into();
    assert_eq!(e, ExpressionError::Type(ResolveError { message: "no type".to_string() }));
}

#[test]
fn constant_array_lengths() {
    let c = |value| Constant { name: None, inner: ConstantInner::Scalar { width: 4, value } };
    assert_eq!(c(ScalarValue::Uint(5)).to_array_length(), Some(5));
    assert_eq!(c(ScalarValue::Sint(5)).to_array_length(), Some(5));
    assert_eq!(c(ScalarValue::Sint(-1)).to_array_length(), None);
    assert_eq!(c(ScalarValue::Uint(1 << 40)).to_array_length(), None);
    assert_eq!(c(ScalarValue::Bool(true)).to_array_length(), None);
}

#[test]
fn type_shapes_compare_by_value() {
    let a = TypeInner::Struct {
        block: true,
        members: vec![StructMember { name: Some("x".to_string()), ty: h(0) }],
    };
    let b = TypeInner::Struct {
        block: true,
        members: vec![StructMember { name: Some("x".to_string()), ty: h(0) }],
    };
    let c = TypeInner::Struct {
        block: true,
        members: vec![StructMember { name: Some("y".to_string()), ty: h(0) }],
    };
    assert!(a == b);
    assert!(a != c);
    assert!(vector(VectorSize::Bi, ScalarKind::Float) != vector(VectorSize::Tri, ScalarKind::Float));
    assert!(scalar(ScalarKind::Float) == scalar(ScalarKind::Float));
}

#[test]
fn symmetric_operations_accept_swapped_operands() {
    for op in [BinaryOperator::Add, BinaryOperator::Equal, BinaryOperator::LogicalOr, BinaryOperator::And] {
        for (l, r) in [(4usize, 4usize), (4, 0), (3, 3), (1, 1), (12, 12), (0, 4)] {
            let forward = validate(2, Expression::Binary { op, left: h(0), right: h(1) }, &[l, r]).is_ok();
            let swapped = validate(2, Expression::Binary { op, left: h(0), right: h(1) }, &[r, l]).is_ok();
            assert_eq!(forward, swapped);
        }
    }
}
