use naga::arena::{Arena, Handle};
use naga::back::glsl_common::{Error, StatementBuilder, StructNames};
use naga::back::ir::{
    ArraySize, BinaryOperator, Constant, ConstantInner, DerivativeAxis, Expression, FallThrough,
    FunctionOrigin, ImageDimension, ImageFlags, Module, ScalarKind, Statement, StorageClass,
    SwitchCase, Type, TypeInner, UnaryOperator, VectorSize, IMAGE_ARRAYED, IMAGE_MULTISAMPLED,
};
use naga::proc::{ResolveError, Typifier};
use std::collections::HashMap;

fn h<T>(i: usize) -> Handle<T> {
    Handle::new(i)
}

fn ty(inner: TypeInner) -> Type {
    Type { name: None, inner }
}

/// Types: 0 float, 1 int, 2 vec3, 3 dmat2x3, 4 float[4], 5 struct Light, 6 iimage2DMSArray,
/// 7 bool, 8 half (width 2), 9 depth image cube arrayed, 10 sampler, 11 pointer, 12 float[],
/// 13 image of vec3, 14 image of bool.
fn types() -> Vec<Type> {
    vec![
        ty(TypeInner::Scalar { kind: ScalarKind::Float, width: 4 }),
        ty(TypeInner::Scalar { kind: ScalarKind::Sint, width: 4 }),
        ty(TypeInner::Vector { size: VectorSize::Tri, kind: ScalarKind::Float, width: 4 }),
        ty(TypeInner::Matrix {
            columns: VectorSize::Bi,
            rows: VectorSize::Tri,
            kind: ScalarKind::Float,
            width: 8,
        }),
        ty(TypeInner::Array { base: h(0), size: ArraySize::Static(4), stride: None }),
        ty(TypeInner::Struct { members: vec![] }),
        ty(TypeInner::Image {
            base: h(1),
            dim: ImageDimension::D2,
            flags: ImageFlags { bits: IMAGE_MULTISAMPLED | IMAGE_ARRAYED },
        }),
        ty(TypeInner::Scalar { kind: ScalarKind::Bool, width: 1 }),
        ty(TypeInner::Scalar { kind: ScalarKind::Float, width: 2 }),
        ty(TypeInner::DepthImage { dim: ImageDimension::Cube, arrayed: true }),
        ty(TypeInner::Sampler { comparison: false }),
        ty(TypeInner::Pointer { base: h(0), class: StorageClass::Function }),
        ty(TypeInner::Array { base: h(0), size: ArraySize::Dynamic, stride: None }),
        ty(TypeInner::Image { base: h(2), dim: ImageDimension::D1, flags: ImageFlags { bits: 0 } }),
        ty(TypeInner::Image { base: h(7), dim: ImageDimension::D3, flags: ImageFlags { bits: 0 } }),
    ]
}

fn structs() -> StructNames {
    let mut m = HashMap::new();
    m.insert(5usize, ("Light".to_string(), vec!["color".to_string(), "power".to_string()]));
    m
}

struct Names {
    functions: HashMap<usize, String>,
    globals: HashMap<usize, String>,
    locals: HashMap<usize, String>,
    structs: StructNames,
    args: HashMap<u32, String>,
}

fn names() -> Names {
    let mut functions = HashMap::new();
    functions.insert(0usize, "shade".to_string());
    let mut globals = HashMap::new();
    globals.insert(0usize, "light".to_string());
    let mut locals = HashMap::new();
    locals.insert(0usize, "x".to_string());
    locals.insert(1usize, "y".to_string());
    let mut args = HashMap::new();
    args.insert(0u32, "arg0".to_string());
    Names { functions, globals, locals, structs: structs(), args }
}

fn module() -> Module {
    Module {
        types: Arena { data: types() },
        constants: Arena {
            data: vec![
                Constant { name: None, specialization: None, inner: ConstantInner::Sint(-3), ty: h(1) },
                Constant { name: None, specialization: None, inner: ConstantInner::Uint(7), ty: h(1) },
                Constant {
                    name: None,
                    specialization: None,
                    inner: ConstantInner::Float("0.5".to_string()),
                    ty: h(0),
                },
                Constant { name: None, specialization: None, inner: ConstantInner::Bool(true), ty: h(7) },
            ],
        },
        global_variables: Arena { data: vec![] },
        functions: Arena { data: vec![] },
    }
}

/// Expressions: 0 local x, 1 local y, 2 global light, 3 argument 0, 4 constant -3,
/// then whatever the test appends.
fn base_expressions() -> Vec<Expression> {
    vec![
        Expression::LocalVariable(h(0)),
        Expression::LocalVariable(h(1)),
        Expression::GlobalVariable(h(0)),
        Expression::FunctionParameter(0),
        Expression::Constant(h(0)),
    ]
}

fn typifier(n: usize) -> Typifier {
    // Locals have type vec3, the global has the struct type, the rest float.
    let mut resolutions = vec![Ok(h(2)), Ok(h(2)), Ok(h(5))];
    while resolutions.len() < n {
        resolutions.push(Ok(h(0)));
    }
    Typifier { resolutions }
}

fn write_expression(extra: Vec<Expression>) -> Result<String, Error> {
    let module = module();
    let n = names();
    let mut expressions = base_expressions();
    expressions.extend(extra);
    let last = expressions.len() - 1;
    let expressions = Arena { data: expressions };
    let types = Arena { data: types() };
    let typifier = typifier(expressions.data.len());
    let builder = StatementBuilder {
        functions: &n.functions,
        globals: &n.globals,
        locals_lookup: &n.locals,
        structs: &n.structs,
        args: &n.args,
        expressions: &expressions,
        types: &types,
        typifier: &typifier,
    };
    expressions.data[last].write_glsl(&module, &builder)
}

fn write_statement(statement: &Statement, extra: Vec<Expression>) -> Result<String, Error> {
    let module = module();
    let n = names();
    let mut expressions = base_expressions();
    expressions.extend(extra);
    let expressions = Arena { data: expressions };
    let types = Arena { data: types() };
    let typifier = typifier(expressions.data.len());
    let builder = StatementBuilder {
        functions: &n.functions,
        globals: &n.globals,
        locals_lookup: &n.locals,
        structs: &n.structs,
        args: &n.args,
        expressions: &expressions,
        types: &types,
        typifier: &typifier,
    };
    statement.write_glsl(&module, &builder)
}

fn glsl_type(index: usize) -> Result<String, Error> {
    let types = Arena { data: types() };
    h::<Type>(index).write_glsl(&types, &structs())
}

fn custom(r: Result<String, Error>) -> String {
    match r {
        Err(Error::Custom(message)) => message,
        other => panic!("expected a custom error, got {:?}", other),
    }
}

#[test]
fn scalar_vector_and_matrix_type_names() {
    assert_eq!(glsl_type(0).unwrap(), "float");
    assert_eq!(glsl_type(1).unwrap(), "int");
    assert_eq!(glsl_type(7).unwrap(), "bool");
    assert_eq!(glsl_type(2).unwrap(), "vec3");
    assert_eq!(glsl_type(3).unwrap(), "dmat2x3");
    assert_eq!(custom(glsl_type(8)), "Cannot build float of width 2");
}

#[test]
fn array_struct_image_and_sampler_type_names() {
    assert_eq!(glsl_type(4).unwrap(), "float[4]");
    assert_eq!(glsl_type(12).unwrap(), "float[]");
    assert_eq!(glsl_type(5).unwrap(), "Light");
    assert_eq!(glsl_type(6).unwrap(), "iimage2DMSArray");
    assert_eq!(glsl_type(9).unwrap(), "imageCubeArray");
    // A sampler without comparison is written as a shadow sampler.
    assert_eq!(glsl_type(10).unwrap(), "samplerShadow");
    assert_eq!(custom(glsl_type(13)), "Cannot build image of type vec3");
    assert_eq!(custom(glsl_type(14)), "Cannot build image of booleans");
}

#[test]
fn small_writers() {
    assert_eq!(StorageClass::Uniform.write_glsl().to_string(), "uniform ");
    assert_eq!(StorageClass::Private.write_glsl().to_string(), "");
    assert_eq!(StorageClass::WorkGroup.write_glsl().to_string(), "shared ");
    assert_eq!(ArraySize::Static(16).write_glsl().to_string(), "16");
    assert_eq!(ArraySize::Dynamic.write_glsl().to_string(), "");
    assert_eq!(ImageDimension::Cube.write_glsl().to_string(), "Cube");
    assert_eq!(ImageDimension::D3.write_glsl().to_string(), "3D");
    assert_eq!(ImageFlags { bits: IMAGE_ARRAYED }.write_glsl().to_string(), "Array");
    assert_eq!(ImageFlags { bits: IMAGE_MULTISAMPLED }.write_glsl().to_string(), "MS");
    assert_eq!(ImageFlags { bits: 0 }.write_glsl().to_string(), "");
}

#[test]
fn constants_are_written_by_value() {
    let module = module();
    let texts: Vec<String> =
        module.constants.data.iter().map(|c| c.write_glsl(&module).to_string()).collect();
    assert_eq!(texts, vec!["-3", "7", "0.5", "true"]);
}

#[test]
fn variables_arguments_and_constants() {
    assert_eq!(write_expression(vec![Expression::LocalVariable(h(1))]).unwrap(), "y");
    assert_eq!(write_expression(vec![Expression::GlobalVariable(h(0))]).unwrap(), "light");
    assert_eq!(write_expression(vec![Expression::FunctionParameter(0)]).unwrap(), "arg0");
    assert_eq!(write_expression(vec![Expression::Constant(h(1))]).unwrap(), "7");
}

#[test]
fn operators_are_parenthesized() {
    let e = Expression::Binary { op: BinaryOperator::Add, left: h(0), right: h(1) };
    assert_eq!(write_expression(vec![e]).unwrap(), "(x + y)");
    let e = Expression::Binary { op: BinaryOperator::ShiftRightArithmetic, left: h(0), right: h(4) };
    assert_eq!(write_expression(vec![e]).unwrap(), "(x >> -3)");
    let e = Expression::Unary { op: UnaryOperator::Negate, expr: h(0) };
    assert_eq!(write_expression(vec![e]).unwrap(), "(- x)");
    let e = Expression::Unary { op: UnaryOperator::Not, expr: h(3) };
    assert_eq!(write_expression(vec![e]).unwrap(), "(~ arg0)");
}

#[test]
fn nested_expressions() {
    // 5: x * y, 6: -(x * y), 7: dot(x, 6)
    let extra = vec![
        Expression::Binary { op: BinaryOperator::Multiply, left: h(0), right: h(1) },
        Expression::Unary { op: UnaryOperator::Negate, expr: h(5) },
        Expression::DotProduct(h(0), h(6)),
    ];
    assert_eq!(write_expression(extra).unwrap(), "dot(x,(- (x * y)))");
}

#[test]
fn access_products_and_derivatives() {
    assert_eq!(write_expression(vec![Expression::Access { base: h(0), index: h(3) }]).unwrap(), "x[arg0]");
    assert_eq!(write_expression(vec![Expression::CrossProduct(h(0), h(1))]).unwrap(), "cross(x,y)");
    let e = Expression::Derivative { axis: DerivativeAxis::Y, expr: h(0) };
    assert_eq!(write_expression(vec![e]).unwrap(), "dFdy(x)");
}

#[test]
fn access_index_depends_on_the_base_type() {
    // A vec3 local is indexed, the struct global has its member named.
    assert_eq!(write_expression(vec![Expression::AccessIndex { base: h(0), index: 2 }]).unwrap(), "x[2]");
    assert_eq!(
        write_expression(vec![Expression::AccessIndex { base: h(2), index: 1 }]).unwrap(),
        "light.power"
    );
    // The argument's type is a float, which cannot be indexed.
    assert_eq!(
        custom(write_expression(vec![Expression::AccessIndex { base: h(3), index: 0 }])),
        "Cannot index float"
    );
}

#[test]
fn access_index_reports_resolution_failures() {
    let module = module();
    let n = names();
    let expressions = Arena {
        data: vec![Expression::LocalVariable(h(0)), Expression::AccessIndex { base: h(0), index: 0 }],
    };
    let types = Arena { data: types() };
    let typifier = Typifier {
        resolutions: vec![Err(ResolveError { message: "unknown".to_string() }), Ok(h(0))],
    };
    let builder = StatementBuilder {
        functions: &n.functions,
        globals: &n.globals,
        locals_lookup: &n.locals,
        structs: &n.structs,
        args: &n.args,
        expressions: &expressions,
        types: &types,
        typifier: &typifier,
    };
    match expressions.data[1].write_glsl(&module, &builder) {
        Err(Error::ResolveError(e)) => assert_eq!(e.message, "unknown"),
        other => panic!("expected a resolve error, got {:?}", other),
    }
}

#[test]
fn compose_uses_the_constructor_of_its_type() {
    let e = Expression::Compose { ty: h(2), components: vec![h(3), h(3), h(4)] };
    assert_eq!(write_expression(vec![e]).unwrap(), "vec3(arg0,arg0,-3)");
    let e = Expression::Compose { ty: h(5), components: vec![h(0), h(3)] };
    assert_eq!(write_expression(vec![e]).unwrap(), "Light(x,arg0)");
    let e = Expression::Compose { ty: h(4), components: vec![h(3)] };
    assert_eq!(write_expression(vec![e]).unwrap(), "float[4](arg0)");
    let e = Expression::Compose { ty: h(3), components: vec![] };
    assert_eq!(write_expression(vec![e]).unwrap(), "dmat2x3()");
    let e = Expression::Compose { ty: h(10), components: vec![h(0)] };
    assert_eq!(custom(write_expression(vec![e])), "Cannot compose type samplerShadow");
    let e = Expression::Compose { ty: h(8), components: vec![h(0)] };
    assert_eq!(custom(write_expression(vec![e])), "Cannot build float of width 2");
}

#[test]
fn calls_name_their_function() {
    let e = Expression::Call { origin: FunctionOrigin::Local(h(0)), arguments: vec![h(0), h(1)] };
    assert_eq!(write_expression(vec![e]).unwrap(), "shade(x,y)");
    let e = Expression::Call { origin: FunctionOrigin::External("max".to_string()), arguments: vec![h(3)] };
    assert_eq!(write_expression(vec![e]).unwrap(), "max(arg0)");
}

#[test]
fn first_failure_of_an_operand_is_reported() {
    // 5: cannot compose a sampler; 6: adds it to x.
    let extra = vec![
        Expression::Compose { ty: h(10), components: vec![] },
        Expression::Binary { op: BinaryOperator::Add, left: h(0), right: h(5) },
    ];
    assert_eq!(custom(write_expression(extra)), "Cannot compose type samplerShadow");
}

#[test]
fn simple_statements() {
    assert_eq!(write_statement(&Statement::Empty, vec![]).unwrap(), "");
    assert_eq!(write_statement(&Statement::Break, vec![]).unwrap(), "break;");
    assert_eq!(write_statement(&Statement::Continue, vec![]).unwrap(), "continue;");
    assert_eq!(write_statement(&Statement::Kill, vec![]).unwrap(), "discard;");
    assert_eq!(write_statement(&Statement::Return { value: None }, vec![]).unwrap(), "return  ;");
    assert_eq!(
        write_statement(&Statement::Return { value: Some(h(0)) }, vec![]).unwrap(),
        "return  x;"
    );
    assert_eq!(
        write_statement(&Statement::Store { pointer: h(0), value: h(1) }, vec![]).unwrap(),
        "x = y;"
    );
}

#[test]
fn blocks_join_their_statements_by_lines() {
    let block = Statement::Block(vec![Statement::Break, Statement::Kill]);
    assert_eq!(write_statement(&block, vec![]).unwrap(), "break;\ndiscard;");
    assert_eq!(write_statement(&Statement::Block(vec![]), vec![]).unwrap(), "");
}

#[test]
fn if_statement() {
    let s = Statement::If {
        condition: h(0),
        accept: vec![Statement::Break],
        reject: vec![Statement::Continue, Statement::Kill],
    };
    assert_eq!(
        write_statement(&s, vec![]).unwrap(),
        "if(x) {\nbreak;\n} else {\ncontinue;\ndiscard;\n}"
    );
}

#[test]
fn switch_statement() {
    let s = Statement::Switch {
        selector: h(3),
        cases: vec![
            SwitchCase { label: -1, body: vec![Statement::Kill], fall_through: None },
            SwitchCase { label: 2, body: vec![], fall_through: Some(FallThrough {}) },
        ],
        default: vec![Statement::Break],
    };
    assert_eq!(
        write_statement(&s, vec![]).unwrap(),
        "switch(arg0) {\n   case -1:\n      discard;\n   case 2:\n      break;\n   default:\n      break;\n}"
    );
}

#[test]
fn loop_statement() {
    let s = Statement::Loop { body: vec![Statement::Break], continuing: vec![Statement::Continue] };
    assert_eq!(write_statement(&s, vec![]).unwrap(), "while(true) {\n    break;\n    continue;\n}");
}

#[test]
fn statement_errors_pass_through() {
    let s = Statement::Store { pointer: h(0), value: h(5) };
    let extra = vec![Expression::Compose { ty: h(10), components: vec![] }];
    assert_eq!(custom(write_statement(&s, extra)), "Cannot compose type samplerShadow");
}

#[test]
fn error_messages() {
    assert_eq!(Error::Custom("boom".to_string()).message(), "boom");
    assert_eq!(
        Error::ResolveError(ResolveError { message: "bad".to_string() }).message(),
        "Resolve error: bad"
    );
    let e: Error = std::fmt::Error.into();
    assert!(e.message().starts_with("Formatting error "));
    let e: Error = std::io::Error::new(std::io::ErrorKind::Other, "disk").into();
    assert_eq!(e.message(), "Io error: disk");
    let e: Error = ResolveError { message: "r".to_string() }.into();
    assert!(matches!(e, Error::ResolveError(_)));
}

#[test]
fn a_writer_is_made_for_every_constant() {
    let module = module();
    let composite = Constant {
        name: None,
        specialization: None,
        inner: ConstantInner::Composite(vec![h(0), h(1)]),
        ty: h(2),
    };
    let writer = composite.write_glsl(&module);
    assert!(matches!(writer.inner.inner, ConstantInner::Composite(_)));
}

#[test]
fn failures_inside_statements_come_in_written_order() {
    // Expression 5 cannot be written; the block fails on its second statement.
    let extra = vec![Expression::Compose { ty: h(10), components: vec![] }];
    let block = Statement::Block(vec![
        Statement::Break,
        Statement::Return { value: Some(h(5)) },
        Statement::Kill,
    ]);
    assert_eq!(custom(write_statement(&block, extra)), "Cannot compose type samplerShadow");
    let extra = vec![Expression::Compose { ty: h(10), components: vec![] }];
    let looped = Statement::Loop {
        body: vec![Statement::Break],
        continuing: vec![Statement::Store { pointer: h(5), value: h(0) }],
    };
    assert_eq!(custom(write_statement(&looped, extra)), "Cannot compose type samplerShadow");
}

#[test]
fn if_without_rejected_statements_keeps_its_else() {
    let s = Statement::If { condition: h(1), accept: vec![], reject: vec![] };
    assert_eq!(write_statement(&s, vec![]).unwrap(), "if(y) {\n} else {\n}");
}

#[test]
fn call_fails_on_its_first_failing_argument() {
    let extra = vec![
        Expression::Compose { ty: h(10), components: vec![] },
        Expression::Call {
            origin: FunctionOrigin::External("f".to_string()),
            arguments: vec![h(0), h(5), h(1)],
        },
    ];
    assert_eq!(custom(write_expression(extra)), "Cannot compose type samplerShadow");
}
