//! Lowering of the intermediate representation.

use gelix::ast::Constant;
use gelix::gir::declaration::{
    ADTType, Declaration, Function, LocalVariable, ModPath, Variable, Visibility, ADT,
};
use gelix::gir::expression::{CastType, Expr};
use gelix::gir::module::Module;
use gelix::gir::types::{Instance, Type, TypeKind};
use gelix::ir::expr::IRGenerator;
use gelix::ir::ops::{IRType, NumberCast, Op, Value};
use smol_str::SmolStr;

fn path() -> ModPath {
    ModPath { parts: vec!["main".to_string()] }
}

fn class(external: bool, kind: TypeKind) -> ADT {
    ADT::new("C", Visibility::Public, kind, ADTType::Class { external }, path())
}

/// Functions `f` (0) and the maker of strings (1); classes: a reference (0), an
/// extern one (1), a value (2). Variable 0 has a pointer, variable 1 has none.
fn generator() -> IRGenerator {
    let mut module = Module::new();
    module.add_function(Function::new("f", vec![], Type::I64, path()));
    let builder = module.add_function(Function::new("build", vec![], Type::String, path()));
    module.declare("std/intrinsics::build_string_literal", Declaration::Function(builder));
    let mut reference = class(false, TypeKind::Reference);
    reference.add_method("free-wr", 4);
    reference.add_method("free-sr", 5);
    module.add_adt(reference);
    module.add_adt(class(true, TypeKind::Reference));
    module.add_adt(class(false, TypeKind::Value));
    IRGenerator::new(module, vec![IRType::Pointer], vec![Some(pointer(0)), None])
}

fn pointer(id: usize) -> Value {
    Value::Result { id, ty: IRType::Pointer }
}

fn result(id: usize, ty: IRType) -> Value {
    Value::Result { id, ty }
}

fn lit(c: Constant) -> Expr {
    Expr::Literal(c)
}

fn function() -> Expr {
    Expr::load(Variable::Function { func: Instance::new_(0), name: SmolStr::new("f") })
}

fn local(ty: Type) -> Expr {
    Expr::load(Variable::Local(LocalVariable {
        name: SmolStr::new("v"),
        ty,
        mutable: false,
        id: 0,
    }))
}

fn ops(gen: &IRGenerator) -> String {
    format!("{:?}", gen.ops)
}

#[test]
fn constants_have_their_width() {
    let mut gen = generator();
    let cases = [
        (Constant::Any, Value::NoneConst),
        (Constant::NoneValue, Value::NoneConst),
        (Constant::Bool(true), Value::Int { bits: 1, value: 1 }),
        (Constant::Bool(false), Value::Int { bits: 1, value: 0 }),
        (Constant::I8(3), Value::Int { bits: 8, value: 3 }),
        (Constant::U8(3), Value::Int { bits: 8, value: 3 }),
        (Constant::I16(3), Value::Int { bits: 16, value: 3 }),
        (Constant::U16(3), Value::Int { bits: 16, value: 3 }),
        (Constant::I32(3), Value::Int { bits: 32, value: 3 }),
        (Constant::U32(3), Value::Int { bits: 32, value: 3 }),
        (Constant::I64(3), Value::Int { bits: 64, value: 3 }),
        (Constant::U64(3), Value::Int { bits: 64, value: 3 }),
        (Constant::F32(3), Value::F32(3)),
        (Constant::F64(3), Value::F64(3)),
    ];
    for (c, value) in cases.iter() {
        assert_eq!(gen.expression(&lit(c.copy())), *value);
    }
    assert!(gen.ops.is_empty());
}

#[test]
fn strings_are_made_by_a_call() {
    let mut gen = generator();
    let value = gen.expression(&lit(Constant::String("häuser".to_string())));
    assert_eq!(value, pointer(3));
    assert_eq!(
        ops(&gen),
        format!(
            "{:?}",
            vec![
                Op::GlobalString { id: 1, text: "häuser".to_string() },
                Op::FunctionPointer { id: 2, function: Instance::new_(1) },
                Op::Call {
                    id: 3,
                    callee: pointer(2),
                    arguments: vec![pointer(1), Value::Int { bits: 64, value: 8 }]
                },
            ]
        )
    );
    assert_eq!(gen.locals, vec![vec![pointer(3)]]);
}

#[test]
fn variables_are_loaded_by_their_pointer() {
    let mut gen = generator();
    let value = gen.expression(&local(Type::I32));
    assert_eq!(value, result(1, IRType::Int(32)));
    assert_eq!(ops(&gen), format!("{:?}", vec![Op::Load { id: 1, pointer: pointer(0) }]));
    // the pointer stays the same
    let text = gen.expression(&local(Type::String));
    assert_eq!(text, pointer(2));
    assert_eq!(gen.expression(&local(Type::String)), pointer(3));
    for op in gen.ops.iter() {
        assert!(matches!(op, Op::Load { pointer: p, .. } if *p == pointer(0)));
    }
}

#[test]
fn call_counts_references_of_its_arguments() {
    let mut gen = generator();
    let value = gen.expression(&Expr::call(
        function(),
        vec![lit(Constant::I64(1)), lit(Constant::I64(2))],
        Type::I64,
    ));
    let (one, two) = (Value::Int { bits: 64, value: 1 }, Value::Int { bits: 64, value: 2 });
    assert_eq!(value, result(2, IRType::Int(64)));
    assert_eq!(
        ops(&gen),
        format!(
            "{:?}",
            vec![
                Op::FunctionPointer { id: 1, function: Instance::new_(0) },
                Op::IncrementRefcount(one),
                Op::IncrementRefcount(two),
                Op::Call { id: 2, callee: pointer(1), arguments: vec![one, two] },
                Op::DecrementRefcount(one),
                Op::DecrementRefcount(two),
            ]
        )
    );
    assert_eq!(gen.locals, vec![vec![value]]);
}

#[test]
fn call_without_result_has_no_value() {
    let mut gen = generator();
    let value = gen.expression(&Expr::call(function(), vec![], Type::NoneType));
    assert_eq!(value, Value::NoneConst);
}

#[test]
fn block_releases_all_but_its_value() {
    let mut gen = generator();
    let call = || Expr::call(function(), vec![], Type::I64);
    let value = gen.expression(&Expr::block(vec![call(), call()]));
    let (first, second) = (result(2, IRType::Int(64)), result(4, IRType::Int(64)));
    assert_eq!(value, second);
    assert_eq!(
        format!("{:?}", &gen.ops[4..]),
        format!(
            "{:?}",
            vec![
                Op::IncrementRefcount(second),
                Op::DecrementRefcount(first),
                Op::DecrementRefcount(second),
            ]
        )
    );
    assert_eq!(gen.locals, vec![vec![second]]);
    let value = gen.expression(&Expr::block(vec![]));
    assert_eq!(value, Value::NoneConst);
}

#[test]
fn return_releases_everything() {
    let mut gen = generator();
    let call = gen.expression(&Expr::call(function(), vec![], Type::I64));
    let value = gen.expression(&Expr::ret(lit(Constant::I64(7))));
    assert_eq!(value, Value::NoneConst);
    let seven = Value::Int { bits: 64, value: 7 };
    assert_eq!(
        format!("{:?}", &gen.ops[2..]),
        format!(
            "{:?}",
            vec![Op::IncrementRefcount(seven), Op::DecrementRefcount(call), Op::Return(seven)]
        )
    );
    assert!(!gen.active);
}

#[test]
fn return_without_value_returns_nothing() {
    let mut gen = generator();
    gen.expression(&Expr::ret(Expr::none_const()));
    assert!(matches!(gen.ops[gen.ops.len() - 1], Op::ReturnVoid));
}

#[test]
fn no_code_behind_return() {
    let mut gen = generator();
    let block = Expr::block(vec![
        Expr::ret(lit(Constant::I64(7))),
        Expr::call(function(), vec![], Type::I64),
    ]);
    assert_eq!(gen.expression(&block), Value::NoneConst);
    assert_eq!(gen.ops.len(), 2);
    assert_eq!(gen.expression(&local(Type::I64)), Value::NoneConst);
    assert_eq!(gen.ops.len(), 2);
}

#[test]
fn numbers_are_converted_by_sign() {
    let cases = [
        (Constant::I8(1), Type::I64, NumberCast::Int, IRType::Int(64)),
        (Constant::F32(1), Type::F64, NumberCast::Float, IRType::Float(64)),
        (Constant::F32(1), Type::I64, NumberCast::FloatToSigned, IRType::Int(64)),
        (Constant::F32(1), Type::U64, NumberCast::FloatToUnsigned, IRType::Int(64)),
        (Constant::I8(1), Type::F64, NumberCast::UnsignedToFloat, IRType::Float(64)),
    ];
    for (c, to, kind, ty) in cases.iter() {
        let mut gen = generator();
        let value = gen.expression(&Expr::cast(lit(c.copy()), to.copy(), CastType::Number));
        assert_eq!(value, result(1, *ty));
        match &gen.ops[0] {
            Op::ConvertNumber { kind: k, .. } => assert_eq!(k, kind),
            _ => panic!(),
        }
    }
}

#[test]
fn bits_are_cast() {
    let mut gen = generator();
    let to = Type::Adt(Instance::new_(0));
    let value = gen.expression(&Expr::cast(lit(Constant::I64(1)), to, CastType::Bitcast));
    assert_eq!(value, pointer(1));
    assert!(matches!(gen.ops[0], Op::Bitcast { to: IRType::Pointer, .. }));
}

#[test]
fn references_are_loaded() {
    let mut gen = generator();
    let to = Type::Adt(Instance::new_(2));
    let value = gen.expression(&Expr::cast(
        local(Type::StrongRef(Instance::new_(2))),
        to,
        CastType::ToValue,
    ));
    assert_eq!(value, result(2, IRType::Struct(2)));
    assert!(matches!(gen.ops[1], Op::Load { .. }));
}

#[test]
fn weak_references_point_behind_the_count() {
    let mut gen = generator();
    let to = Type::WeakRef(Instance::new_(0));
    let value = gen.cast_sr_to_wr(pointer(0), &to);
    assert_eq!(value, pointer(2));
    assert_eq!(
        ops(&gen),
        format!(
            "{:?}",
            vec![
                Op::StructGep { id: 1, pointer: pointer(0), index: 1 },
                Op::Bitcast { id: 2, value: pointer(1), to: IRType::Pointer },
            ]
        )
    );
    let value = gen.cast_sr_to_wr(pointer(0), &Type::WeakRef(Instance::new_(1)));
    assert_eq!(value, pointer(0));
    assert_eq!(gen.ops.len(), 2);
    let strong = local(Type::StrongRef(Instance::new_(1)));
    let value = gen.expression(&Expr::cast(
        strong,
        Type::WeakRef(Instance::new_(1)),
        CastType::StrongToWeak,
    ));
    assert_eq!(value, pointer(3));
}

#[test]
fn references_have_functions_that_free_them() {
    let gen = generator();
    let inst = || Instance::new_(0);
    assert_eq!(gen.get_free_function(&Type::StrongRef(inst())).unwrap().ty, 5);
    assert_eq!(gen.get_free_function(&Type::WeakRef(inst())).unwrap().ty, 4);
    assert!(gen.get_free_function(&Type::I64).is_none());
}

#[test]
fn types_have_a_form_in_the_backend() {
    let gen = generator();
    let adt = |n: usize| Type::Adt(Instance::new_(n));
    assert_eq!(gen.ir_ty_generic(&Type::NoneType), IRType::NoneType);
    assert_eq!(gen.ir_ty_generic(&Type::Bool), IRType::Int(1));
    assert_eq!(gen.ir_ty_generic(&Type::U16), IRType::Int(16));
    assert_eq!(gen.ir_ty_generic(&Type::F32), IRType::Float(32));
    assert_eq!(gen.ir_ty_generic(&Type::String), IRType::Pointer);
    assert_eq!(gen.ir_ty_generic(&adt(0)), IRType::Pointer);
    assert_eq!(gen.ir_ty_generic(&adt(2)), IRType::Struct(2));
}

/// How many references to a value the operations leave. The result of a call
/// comes with one.
fn references(gen: &IRGenerator, value: Value) -> i64 {
    let mut count = 0;
    for op in gen.ops.iter() {
        match op {
            Op::IncrementRefcount(v) if *v == value => count += 1,
            Op::DecrementRefcount(v) if *v == value => count -= 1,
            Op::Call { id, .. } => {
                if matches!(value, Value::Result { id: own, .. } if own == *id) {
                    count += 1;
                }
            }
            _ => {}
        }
    }
    count
}

#[test]
fn references_are_counted() {
    let mut gen = generator();
    let call = |arguments| Expr::call(function(), arguments, Type::String);
    let text = || lit(Constant::String("a".to_string()));
    let block = Expr::block(vec![call(vec![text()]), Expr::block(vec![text(), call(vec![])])]);
    let value = gen.expression(&block);
    for (id, ty) in gen.results.iter().enumerate() {
        let v = result(id, *ty);
        let held = gen.locals.iter().flatten().filter(|l| **l == v).count();
        assert_eq!(references(&gen, v), held as i64);
    }
    assert_eq!(references(&gen, value), 1);
    let other = gen.expression(&text());
    gen.expression(&Expr::ret(call(vec![text()])));
    assert_eq!(references(&gen, value), 0);
    assert_eq!(references(&gen, other), 0);
    let returned = match gen.ops[gen.ops.len() - 1] {
        Op::Return(v) => v,
        _ => panic!(),
    };
    assert_eq!(references(&gen, returned), 1);
}

#[test]
fn operands_are_computed_before() {
    let mut gen = generator();
    let call = Expr::call(
        function(),
        vec![local(Type::String), lit(Constant::String("a".to_string()))],
        Type::String,
    );
    gen.expression(&Expr::block(vec![call, local(Type::I64)]));
    let mut there = vec![0];
    for op in gen.ops.iter() {
        let (used, number) = match op {
            Op::Load { id, pointer } => (vec![*pointer], Some(*id)),
            Op::FunctionPointer { id, .. } => (vec![], Some(*id)),
            Op::GlobalString { id, .. } => (vec![], Some(*id)),
            Op::Call { id, callee, arguments } => {
                let mut used = arguments.clone();
                used.push(*callee);
                (used, Some(*id))
            }
            Op::IncrementRefcount(v) | Op::DecrementRefcount(v) => (vec![*v], None),
            _ => panic!(),
        };
        for value in used {
            if let Value::Result { id, .. } = value {
                assert!(there.contains(&id));
            }
        }
        there.extend(number);
    }
}
