use naga::arena::{Arena, Handle};
use naga::back::glsl_common::{StatementBuilder, StructNames};
use naga::back::ir::{
    Expression as GlslExpression, Module as GlslModule, ScalarKind as GlslKind,
    Statement, Type as GlslType, TypeInner as GlslInner, VectorSize as GlslSize,
};
use naga::decimal::decimal_string;
use naga::proc::Typifier;
use naga::valid::ir::{ScalarKind, StructMember, TypeInner, VectorSize};
use naga::valid::ShaderStages;
use std::collections::HashMap;

#[test]
fn type_shape_equality_is_an_equivalence() {
    let member = |name: &str| StructMember { name: Some(name.to_string()), ty: Handle::new(0) };
    let a = TypeInner::Struct { block: false, members: vec![member("m")] };
    let b = TypeInner::Struct { block: false, members: vec![member("m")] };
    let c = TypeInner::Struct { block: false, members: vec![member("m")] };
    assert!(a == a);
    assert_eq!(a == b, b == a);
    assert!(a == b && b == c && a == c);
    let v = TypeInner::Vector { size: VectorSize::Bi, kind: ScalarKind::Float, width: 4 };
    assert_eq!(a == v, v == a);
}

#[test]
fn all_stages_contain_each_stage() {
    let all = ShaderStages::all();
    assert!(all.contains(ShaderStages::vertex()));
    assert!(all.contains(ShaderStages::fragment()));
    assert!(all.contains(ShaderStages::compute()));
    assert!(!all.contains(ShaderStages { bits: 8 }));
}

#[test]
fn distinct_numbers_have_distinct_decimal_text() {
    let texts: Vec<String> = [0u64, 1, 9, 10, 11, 100, 101].iter().map(|&n| decimal_string(n)).collect();
    for i in 0..texts.len() {
        for j in 0..texts.len() {
            assert_eq!(texts[i] == texts[j], i == j);
        }
    }
}

fn shared_types() -> Vec<GlslType> {
    vec![
        GlslType { name: None, inner: GlslInner::Vector { size: GlslSize::Quad, kind: GlslKind::Uint, width: 4 } },
        GlslType { name: None, inner: GlslInner::Struct { members: vec![] } },
        GlslType { name: None, inner: GlslInner::Scalar { kind: GlslKind::Bool, width: 1 } },
    ]
}

fn with_builder<R>(f: impl FnOnce(&GlslModule, &StatementBuilder<'_>) -> R) -> R {
    let module = GlslModule {
        types: Arena { data: shared_types() },
        constants: Arena { data: vec![] },
        global_variables: Arena { data: vec![] },
        functions: Arena { data: vec![] },
    };
    let builder_types = Arena { data: shared_types() };
    let mut structs: StructNames = HashMap::new();
    structs.insert(1, ("Pair".to_string(), vec![]));
    let empty_names = HashMap::new();
    let mut args_with_one = HashMap::new();
    args_with_one.insert(0u32, "a".to_string());
    let expressions = Arena { data: vec![GlslExpression::FunctionParameter(0)] };
    let typifier = Typifier { resolutions: vec![] };
    let builder = StatementBuilder {
        functions: &empty_names,
        globals: &empty_names,
        locals_lookup: &empty_names,
        structs: &structs,
        args: &args_with_one,
        expressions: &expressions,
        types: &builder_types,
        typifier: &typifier,
    };
    f(&module, &builder)
}

#[test]
fn compose_is_written_with_the_name_of_its_type() {
    with_builder(|module, builder| {
        for ty in 0..3usize {
            let name = Handle::<GlslType>::new(ty).write_glsl(builder.types, builder.structs).unwrap();
            let compose = GlslExpression::Compose { ty: Handle::new(ty), components: vec![Handle::new(0)] };
            let text = compose.write_glsl(module, builder).unwrap();
            assert_eq!(text, format!("{}(a)", name));
        }
    });
}

#[test]
fn a_block_of_one_statement_is_that_statement() {
    with_builder(|module, builder| {
        let single = Statement::Return { value: Some(Handle::new(0)) };
        let block = Statement::Block(vec![Statement::Return { value: Some(Handle::new(0)) }]);
        assert_eq!(block.write_glsl(module, builder).unwrap(), single.write_glsl(module, builder).unwrap());
        assert_eq!(Statement::Block(vec![]).write_glsl(module, builder).unwrap(), "");
    });
}
