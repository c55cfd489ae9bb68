//! Declaration of classes and functions, and the nodes they become.

use gelix::ast::declaration::{Class, DeclarationList, FuncSignature, FunctionArg, FunctionDecl};
use gelix::ast::{Constant, Expression, Literal};
use gelix::gir::declaration::{Function, ModPath};
use gelix::gir::module::Module;
use gelix::gir::types::Type;
use gelix::lexer::token::{TType, Token};
use gelix::mir::builder::MIRBuilder;
use gelix::mir::generator::passes::declare::DeclarePass;
use gelix::mir::generator::passes::PreMIRPass;
use gelix::mir::generator::MIRGenerator;
use gelix::mir::nodes::{
    MIRExpression, MIRFlow, MIRFunction, MIRStructMem, MIRType, MIRVariable,
};
use std::collections::hash_map::DefaultHasher;
use std::hash::{Hash, Hasher};

fn name(lexeme: &str) -> Token {
    Token { t_type: TType::Identifier, lexeme: lexeme.to_string(), line: 4, index: 0 }
}

fn sig(n: &str, ret: Option<&str>, parameters: &[(&str, &str)]) -> FuncSignature {
    FuncSignature {
        name: name(n),
        return_type: ret.map(name),
        parameters: parameters
            .iter()
            .map(|(n, t)| FunctionArg { name: name(n), _type: name(t) })
            .collect(),
    }
}

fn body() -> Expression {
    Expression::Literal(Literal::Constant(Constant::NoneValue), name("none"))
}

fn function(n: &str, ret: Option<&str>, parameters: &[(&str, &str)]) -> FunctionDecl {
    FunctionDecl { sig: sig(n, ret, parameters), body: body() }
}

fn generator() -> MIRGenerator {
    let mut module = Module::new();
    let path = ModPath { parts: vec!["main".to_string()] };
    module.add_function(Function::new("main", vec![], Type::NoneType, path));
    MIRGenerator::new(MIRBuilder::new("main.gel".to_string()), module, 0)
}

fn list() -> DeclarationList {
    DeclarationList { classes: vec![], ext_functions: vec![], functions: vec![] }
}

#[test]
fn everything_is_declared() {
    let mut gen = generator();
    let mut list = DeclarationList {
        classes: vec![Class {
            name: name("Point"),
            methods: vec![function("add", Some("i64"), &[("this", "Point"), ("n", "i64")])],
        }],
        ext_functions: vec![sig("puts", None, &[("s", "String")])],
        functions: vec![function("main", None, &[])],
    };
    assert!(DeclarePass::new(&mut gen).run(&mut list).is_ok());
    let names: Vec<&str> = gen.builder.functions.iter().map(|f| f.name.as_str()).collect();
    assert_eq!(names, vec!["Point-internal-init", "puts", "main", "Point-add"]);
    assert_eq!(gen.builder.structs.len(), 1);
    assert_eq!(gen.builder.structs[0].name, "Point");
    assert_eq!(list.classes[0].methods[0].sig.name.lexeme, "Point-add");
    let init = &gen.builder.functions[0];
    assert_eq!(init.parameters.len(), 1);
    assert_eq!(init.parameters[0].name, "this");
    assert_eq!(init.parameters[0]._type, MIRType::Struct(0));
    assert_eq!(init.ret_type, MIRType::NoneType);
    assert_eq!(gen.builder.functions[3].ret_type, MIRType::Int);
    let global = gen.environments[0].get("Point-add").unwrap();
    assert_eq!(global._type, MIRType::Function(3));
    assert!(!global.mutable);
    assert_eq!(gen.environments.len(), 1);
}

#[test]
fn earlier_declarations_stay() {
    let mut gen = generator();
    let mut first = list();
    first.functions.push(function("a", Some("bool"), &[]));
    assert!(DeclarePass::new(&mut gen).run(&mut first).is_ok());
    let mut second = list();
    second.functions.push(function("b", None, &[]));
    second.functions.push(function("a", None, &[]));
    let e = DeclarePass::new(&mut gen).run(&mut second).unwrap_err();
    assert_eq!(e.message, "Function was declared twice");
    assert_eq!(e.code, "func a(...)");
    assert_eq!(e.line, Some(4));
    assert_eq!(gen.builder.functions.len(), 2);
    assert_eq!(gen.builder.functions[0].ret_type, MIRType::Bool);
}

#[test]
fn class_cannot_be_defined_twice() {
    let mut gen = generator();
    let mut list = list();
    list.classes.push(Class { name: name("A"), methods: vec![] });
    list.classes.push(Class { name: name("A"), methods: vec![] });
    let e = DeclarePass::new(&mut gen).run(&mut list).unwrap_err();
    assert_eq!(e.message, "Class was already defined!");
    assert_eq!(e.code, "class A { ... }");
    assert_eq!(e.line, Some(4));
}

#[test]
fn unknown_types_are_errors() {
    let mut gen = generator();
    let mut ret = list();
    ret.functions.push(function("a", Some("Nothing"), &[]));
    let e = DeclarePass::new(&mut gen).run(&mut ret).unwrap_err();
    assert_eq!(e.message, "Unknown function return type");
    let mut param = list();
    param.functions.push(function("b", None, &[("x", "f64"), ("y", "Nothing")]));
    let e = DeclarePass::new(&mut gen).run(&mut param).unwrap_err();
    assert_eq!(e.message, "Function parameter has unknown type");
    assert_eq!(e.code, "func b(...)");
    assert!(gen.builder.functions.is_empty());
}

#[test]
fn methods_are_renamed_up_to_the_first_error() {
    let mut gen = generator();
    let mut list = list();
    list.classes.push(Class {
        name: name("A"),
        methods: vec![
            function("ok", None, &[]),
            function("bad", Some("Nothing"), &[]),
            function("never", None, &[]),
        ],
    });
    assert!(DeclarePass::new(&mut gen).run(&mut list).is_err());
    let names: Vec<&str> =
        list.classes[0].methods.iter().map(|m| m.sig.name.lexeme.as_str()).collect();
    assert_eq!(names, vec!["A-ok", "A-bad", "never"]);
}

#[test]
fn missing_return_type_is_none() {
    let mut list = list();
    list.functions.push(function("a", None, &[("x", "i64")]));
    list.functions.push(function("b", Some("None"), &[("x", "i64")]));
    let mut gen = generator();
    assert!(DeclarePass::new(&mut gen).run(&mut list).is_ok());
    assert_eq!(gen.builder.functions[0].ret_type, MIRType::NoneType);
    assert_eq!(gen.builder.functions[1].ret_type, MIRType::NoneType);
    assert_eq!(gen.builder.functions[0].parameters.len(), 1);
    assert_eq!(gen.builder.functions[1].parameters.len(), 1);
}

#[test]
fn only_method_names_change() {
    let make = |n: &str| {
        let mut list = list();
        list.classes.push(Class {
            name: name("A"),
            methods: vec![function(n, Some("i64"), &[("x", "f64")])],
        });
        list.functions.push(function("f", None, &[("y", "bool")]));
        list.ext_functions.push(sig("e", Some("A"), &[]));
        list
    };
    let mut gen = generator();
    let mut declared = make("m");
    assert!(DeclarePass::new(&mut gen).run(&mut declared).is_ok());
    assert_eq!(format!("{:?}", declared), format!("{:?}", make("A-m")));
}

#[test]
fn types_are_compared_by_name() {
    let mut builder = MIRBuilder::new("main.gel".to_string());
    builder.create_struct("A".to_string());
    builder.create_struct("B".to_string());
    for a in ["A", "B"].iter() {
        for b in ["A", "B"].iter() {
            assert_eq!(builder.find_type(a) == builder.find_type(b), a == b);
        }
    }
}

#[test]
fn types_have_names() {
    let mut builder = MIRBuilder::new("main.gel".to_string());
    assert_eq!(builder.create_struct("Point".to_string()), Some(0));
    assert_eq!(builder.create_struct("Point".to_string()), None);
    let names = ["None", "bool", "i64", "f32", "f64", "String", "Point"];
    for n in names.iter() {
        let ty = builder.find_type(n).unwrap();
        assert_eq!(ty.to_text(&builder), *n);
    }
    assert_eq!(builder.find_type("i32"), None);
    assert_eq!(MIRType::Function(0).to_text(&builder), "<func>");
    assert_eq!(builder.create_struct("Other".to_string()), Some(1));
    assert!(builder.structs[0] == builder.structs[0]);
    assert!(builder.structs[0] != builder.structs[1]);
}

fn mir_function(builder: &mut MIRBuilder, n: &str, ret: MIRType) -> usize {
    builder.create_function(n.to_string(), ret, vec![]).unwrap()
}

#[test]
fn functions_are_compared_by_name() {
    let mut a = MIRBuilder::new("a".to_string());
    let mut b = MIRBuilder::new("b".to_string());
    mir_function(&mut a, "f", MIRType::Int);
    mir_function(&mut b, "f", MIRType::Bool);
    mir_function(&mut b, "g", MIRType::Int);
    assert!(a.functions[0] == b.functions[0]);
    assert!(a.functions[0] != b.functions[1]);
}

fn new_function() -> MIRFunction {
    let mut builder = MIRBuilder::new("a".to_string());
    mir_function(&mut builder, "f", MIRType::Int);
    builder.functions.pop().unwrap()
}

#[test]
fn blocks_get_names_of_their_own() {
    let mut f = new_function();
    assert_eq!(f.append_block("entry".to_string()), "entry");
    assert_eq!(f.append_block("entry".to_string()), "entry-1");
    assert_eq!(f.append_block("entry".to_string()), "entry-2");
    assert_eq!(f.append_block("other".to_string()), "other");
    assert_eq!(f.blocks.len(), 4);
    let block = f.blocks.get("entry-2").unwrap();
    assert!(block.expressions.is_empty());
    assert!(matches!(block.last, MIRFlow::ReturnNone));
}

#[test]
fn table_variables_get_names_of_their_own() {
    let mut f = new_function();
    for i in 0..11 {
        let var = MIRVariable::new("x".to_string(), MIRType::Int, i == 0);
        let expected = if i == 0 { "x".to_string() } else { format!("x-{}", i) };
        assert_eq!(f.insert_var("x".to_string(), var), expected);
    }
    assert_eq!(f.variables.len(), 11);
    assert!(f.variables.get("x").unwrap().mutable);
    assert!(!f.variables.get("x-10").unwrap().mutable);
}

#[test]
fn entries_get_free_names() {
    let mut f = new_function();
    let var = |ty: MIRType| MIRVariable::new("x".to_string(), ty, false);
    f.insert_var("x-2".to_string(), var(MIRType::Int));
    f.insert_var("x".to_string(), var(MIRType::Int));
    assert_eq!(f.insert_var("x".to_string(), var(MIRType::Bool)), "x-3");
    assert_eq!(f.variables.len(), 3);
    assert_eq!(f.variables.get("x-2").unwrap()._type, MIRType::Int);
    assert_eq!(f.variables.get("x-3").unwrap()._type, MIRType::Bool);
    f.append_block("b-2".to_string());
    assert_eq!(f.append_block("b".to_string()), "b");
    assert_eq!(f.append_block("b".to_string()), "b-3");
    assert_eq!(f.append_block("b".to_string()), "b-4");
    assert_eq!(f.blocks.len(), 4);
}

#[test]
fn clones_are_the_same() {
    let var = MIRVariable::new("x".to_string(), MIRType::Int, true);
    let call = MIRExpression::Call {
        callee: Box::new(MIRExpression::VarGet(var)),
        arguments: vec![MIRExpression::Phi(vec![(
            MIRExpression::Literal(Constant::String("s".to_string())),
            "block".to_string(),
        )])],
    };
    assert_eq!(format!("{:?}", call.clone()), format!("{:?}", call));
}

fn hash<T: Hash>(value: &T) -> u64 {
    let mut hasher = DefaultHasher::new();
    value.hash(&mut hasher);
    hasher.finish()
}

#[test]
fn table_variables_are_hashed_by_name() {
    let a = MIRVariable::new("x".to_string(), MIRType::Int, true);
    let b = MIRVariable::new("x".to_string(), MIRType::Bool, false);
    let c = MIRVariable::new("y".to_string(), MIRType::Int, true);
    assert_eq!(hash(&a), hash(&b));
    assert_ne!(hash(&a), hash(&c));
    assert_eq!(hash(&a), hash(&"x".to_string()));
}

#[test]
fn mir_expressions_have_types() {
    let mut builder = MIRBuilder::new("a".to_string());
    let f = mir_function(&mut builder, "f", MIRType::Double);
    let s = builder.create_struct("S".to_string()).unwrap();
    let member = MIRStructMem { mutable: true, _type: MIRType::String, index: 1 };
    builder.structs[s].members.insert("text".to_string(), member);
    builder.structs[s].member_order.push(member);
    let boxed = |e: MIRExpression| Box::new(e);
    let lit = |c: Constant| MIRExpression::Literal(c);
    let var = |ty: MIRType| MIRVariable::new("v".to_string(), ty, false);
    let ty = |e: MIRExpression| e.get_type(&builder);
    assert_eq!(ty(lit(Constant::NoneValue)), MIRType::NoneType);
    assert_eq!(ty(lit(Constant::Bool(true))), MIRType::Bool);
    assert_eq!(ty(lit(Constant::I64(1))), MIRType::Int);
    assert_eq!(ty(lit(Constant::F32(0))), MIRType::Float);
    assert_eq!(ty(lit(Constant::F64(0))), MIRType::Double);
    assert_eq!(ty(lit(Constant::String("s".to_string()))), MIRType::String);
    assert_eq!(
        ty(MIRExpression::Binary {
            left: boxed(lit(Constant::I64(1))),
            operator: TType::Plus,
            right: boxed(lit(Constant::I64(1))),
        }),
        MIRType::Int
    );
    assert_eq!(
        ty(MIRExpression::Binary {
            left: boxed(lit(Constant::I64(1))),
            operator: TType::LessEqual,
            right: boxed(lit(Constant::I64(1))),
        }),
        MIRType::Bool
    );
    assert_eq!(
        ty(MIRExpression::Bitcast { object: boxed(lit(Constant::I64(1))), goal: s }),
        MIRType::Struct(s)
    );
    assert_eq!(
        ty(MIRExpression::Call {
            callee: boxed(MIRExpression::VarGet(var(MIRType::Function(f)))),
            arguments: vec![],
        }),
        MIRType::Double
    );
    assert_eq!(ty(MIRExpression::Function(f)), MIRType::Function(f));
    assert_eq!(
        ty(MIRExpression::Call {
            callee: boxed(MIRExpression::Function(f)),
            arguments: vec![],
        }),
        MIRType::Double
    );
    assert_eq!(
        ty(MIRExpression::Phi(vec![
            (lit(Constant::Bool(true)), "a".to_string()),
            (lit(Constant::I64(1)), "b".to_string()),
        ])),
        MIRType::Bool
    );
    assert_eq!(
        ty(MIRExpression::StructGet {
            object: boxed(MIRExpression::VarGet(var(MIRType::Struct(s)))),
            index: 1,
        }),
        MIRType::String
    );
    assert_eq!(
        ty(MIRExpression::StructSet {
            object: boxed(MIRExpression::VarGet(var(MIRType::Struct(s)))),
            index: 1,
            value: boxed(lit(Constant::String("s".to_string()))),
        }),
        MIRType::String
    );
    assert_eq!(
        ty(MIRExpression::Unary { operator: TType::Bang, right: boxed(lit(Constant::I64(1))) }),
        MIRType::Bool
    );
    assert_eq!(
        ty(MIRExpression::Unary { operator: TType::Minus, right: boxed(lit(Constant::I64(1))) }),
        MIRType::Int
    );
    assert_eq!(
        ty(MIRExpression::VarStore {
            var: var(MIRType::Float),
            value: boxed(lit(Constant::F32(0))),
        }),
        MIRType::Float
    );
}
