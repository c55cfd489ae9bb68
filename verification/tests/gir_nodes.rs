//! Types and declarations of the intermediate representation.

use gelix::gir::declaration::{
    ADTType, CaseType, Declaration, Field, Function, LocalVariable, ModPath, Variable, Visibility,
    ADT,
};
use gelix::gir::expression::Expr;
use gelix::gir::module::{Member, Module};
use gelix::gir::types::{ClosureType, Instance, Type, TypeKind, TypeList};
use gelix::names::name_string;
use gelix::table::Table;
use smol_str::SmolStr;
use std::collections::hash_map::DefaultHasher;
use std::hash::{Hash, Hasher};

fn path(parts: &[&str]) -> ModPath {
    ModPath { parts: parts.iter().map(|p| p.to_string()).collect() }
}

fn hash<T: Hash>(value: &T) -> u64 {
    let mut hasher = DefaultHasher::new();
    value.hash(&mut hasher);
    hasher.finish()
}

fn class(external: bool) -> ADTType {
    ADTType::Class { external }
}

fn adt(kind: TypeKind, ty: ADTType) -> ADT {
    ADT::new("Thing", Visibility::Module, kind, ty, path(&["std", "thing"]))
}

fn local(n: &str, id: usize) -> LocalVariable {
    LocalVariable { name: SmolStr::new(n), ty: Type::I64, mutable: id == 1, id }
}

#[test]
fn visibility_goes_by_module() {
    let own = path(&["std", "a"]);
    let sibling = path(&["std", "b"]);
    let other = path(&["main"]);
    assert!(Visibility::Private.from(&own, &own));
    assert!(!Visibility::Private.from(&own, &sibling));
    assert!(!Visibility::Private.from(&own, &path(&["std"])));
    assert!(Visibility::Module.from(&own, &sibling));
    assert!(!Visibility::Module.from(&own, &other));
    assert!(Visibility::Public.from(&own, &other));
}

#[test]
fn declarations_are_as_visible_as_their_items() {
    let mut module = Module::new();
    let a = module.add_adt(adt(TypeKind::Reference, class(false)));
    let f = module.add_function(Function::new("f", vec![], Type::I64, path(&["main"])));
    assert!(Declaration::Adt(a).visible(&module, &path(&["std"])));
    assert!(!Declaration::Adt(a).visible(&module, &path(&["main"])));
    assert!(Declaration::Function(f).visible(&module, &path(&["other"])));
    assert!(module.functions[f].visible(&path(&["other"])));
    assert!(!module.adts[a].visible(&path(&["other"])));
}

#[test]
fn declarations_are_types() {
    assert!(Declaration::Function(3).to_type().equals(&Type::Function(Instance::new_(3))));
    assert!(Declaration::Adt(3).to_type().equals(&Type::Adt(Instance::new_(3))));
    assert!(!Declaration::Adt(3).to_type().equals(&Type::Adt(Instance::new_(4))));
    let mut module = Module::new();
    let mut generic = adt(TypeKind::Value, class(false));
    generic.type_parameters.push(SmolStr::new("T"));
    let a = module.add_adt(generic);
    assert_eq!(Declaration::Adt(a).type_parameters(&module).len(), 1);
    module.declare("Thing", Declaration::Adt(a));
    assert!(module.prototypes.contains_key("Thing"));
    assert!(!module.declarations.contains_key("Thing"));
}

#[test]
fn references_are_pointers() {
    assert!(adt(TypeKind::Reference, class(false)).is_ptr());
    assert!(adt(TypeKind::Reference, class(false)).refcounted());
    assert!(!adt(TypeKind::Value, class(false)).is_ptr());
    assert!(!adt(TypeKind::Reference, ADTType::Interface).is_ptr());
    assert!(!adt(TypeKind::Reference, ADTType::Interface).refcounted());
}

#[test]
fn kinds_of_data_types() {
    let case = |ty: CaseType| ADTType::EnumCase { parent: 0, ty };
    assert!(class(true).is_extern_class());
    assert!(!class(false).is_extern_class());
    assert!(!ADTType::Interface.is_extern_class());
    assert!(class(false).allow_default_constructor());
    assert!(case(CaseType::Data).allow_default_constructor());
    assert!(!ADTType::Interface.allow_default_constructor());
    let mut cases = Table::new();
    cases.insert("Red".to_string(), 7);
    let color = ADTType::new_enum(cases).clone();
    assert!(!color.allow_default_constructor());
    assert_eq!(color.cases().get("Red"), Some(&7));
    assert_eq!(color.cases().get("Blue"), None);
}

#[test]
fn simple_cases_have_one_instance() {
    let mut red = adt(
        TypeKind::Reference,
        ADTType::EnumCase { parent: 0, ty: CaseType::Simple },
    );
    red.constructors.push(9);
    let data = adt(TypeKind::Reference, ADTType::EnumCase { parent: 0, ty: CaseType::Data });
    let adts = vec![red, data, adt(TypeKind::Reference, class(false))];
    let args = TypeList::from_vec(&vec![Type::I64]);
    match ADT::get_singleton_inst(&adts, 0, &args) {
        Some(Expr::Allocate { ty, constructor, args: values }) => {
            assert!(ty.equals(&Type::Adt(Instance::new(0, args.copy()))));
            assert_eq!(constructor, 9);
            assert!(values.is_empty());
        }
        _ => panic!(),
    }
    assert!(ADT::get_singleton_inst(&adts, 1, &args).is_none());
    assert!(ADT::get_singleton_inst(&adts, 2, &args).is_none());
}

fn field(n: &str, index: usize) -> Field {
    Field {
        name: SmolStr::new(n),
        visibility: Visibility::Public,
        mutable: true,
        ty: Type::I64,
        initializer: None,
        initialized: false,
        index,
    }
}

#[test]
fn fields_are_compared_by_name() {
    assert!(field("a", 0) == field("a", 1));
    assert!(field("a", 0) != field("b", 0));
    assert_eq!(hash(&field("a", 0)), hash(&field("a", 1)));
    assert_ne!(hash(&field("a", 0)), hash(&field("b", 0)));
}

#[test]
fn variables_are_compared_by_identity() {
    let f = |n: usize| Variable::Function {
        func: Instance::new_(n),
        name: SmolStr::new(if n == 1 { "f" } else { "g" }),
    };
    let l = |n: &str, id: usize| Variable::Local(local(n, id));
    assert!(f(1) == f(1));
    assert!(f(1) != f(2));
    assert!(l("a", 1) == l("a", 1));
    assert!(l("a", 1) != l("a", 2));
    assert!(f(1) != l("a", 1));
    assert_eq!(hash(&l("a", 1)), hash(&l("a", 1)));
    assert_eq!(hash(&f(1)), hash(&SmolStr::new("f")));
    assert_eq!(hash(&l("f", 1)), hash(&f(1)));
    assert_ne!(hash(&f(1)), hash(&f(2)));
}

#[test]
fn variables_know_their_type_and_name() {
    let mut module = Module::new();
    module.add_function(Function::new("f", vec![], Type::I64, path(&["main"])));
    let f = module.function_variable(Instance::new_(0)).clone();
    let a = Variable::Local(local("a", 1));
    let b = Variable::Local(local("b", 2));
    assert_eq!(f.get_name().as_str(), "f");
    assert_eq!(a.get_name().as_str(), "a");
    assert!(f.get_type().equals(&Type::Function(Instance::new_(0))));
    assert!(a.get_type().equals(&Type::I64));
    assert!(!f.assignable());
    assert!(a.assignable());
    assert!(!b.assignable());
    assert_eq!(name_string(&b.get_name()), "b");
}

#[test]
fn function_variables_get_names_of_their_own() {
    let mut f = Function::new("f", vec![], Type::I64, path(&["main"]));
    assert_eq!(f.insert_var(SmolStr::new("a"), local("a", 1)).as_str(), "a");
    assert_eq!(f.insert_var(SmolStr::new("a"), local("a", 2)).as_str(), "a-1");
    assert_eq!(f.insert_var(SmolStr::new("b"), local("b", 3)).as_str(), "b");
    assert_eq!(f.insert_var(SmolStr::new("a"), local("a", 4)).as_str(), "a-3");
    assert_eq!(f.variables.get("a").unwrap().id, 1);
    assert_eq!(f.variables.get("a-3").unwrap().id, 4);
}

#[test]
fn closure_type_skips_the_captures() {
    let f = Function::new(
        "f",
        vec![local("this", 0), local("a", 1), local("b", 2)],
        Type::Bool,
        path(&["main"]),
    );
    let expected = Type::Closure(ClosureType {
        parameters: TypeList::from_vec(&vec![Type::I64, Type::I64]),
        ret_type: Box::new(Type::Bool),
    });
    assert!(f.to_closure_type().equals(&expected));
    let empty = Function::new("f", vec![], Type::Bool, path(&["main"]));
    match empty.to_closure_type() {
        Type::Closure(c) => assert!(c.parameters.to_vec().is_empty()),
        _ => panic!(),
    }
}

#[test]
fn members_keep_their_places() {
    let mut thing = adt(TypeKind::Reference, class(false));
    thing.add_field("a", Visibility::Public, true, Type::I64);
    thing.add_field("b", Visibility::Public, false, Type::TypeParam(0));
    thing.add_method("m", 5);
    thing.add_method("n", 6);
    thing.add_method("m", 8);
    thing.add_dyn_method("x", 1);
    thing.add_dyn_method("y", 2);
    thing.add_dyn_method("x", 3);
    let mut module = Module::new();
    let a = module.add_adt(thing);
    let ty = Type::Adt(Instance::new(a, TypeList::from_vec(&vec![Type::Bool])));
    match module.member(&ty, "b") {
        Some(Member::Field { ty, mutable, index }) => {
            assert!(ty.equals(&Type::Bool));
            assert!(!mutable);
            assert_eq!(index, 1);
        }
        _ => panic!(),
    }
    match module.member(&ty, "m") {
        Some(Member::Method(inst)) => {
            assert_eq!(inst.ty, 8);
            assert_eq!(inst.args.to_vec().len(), 1);
        }
        _ => panic!(),
    }
    match module.member(&ty, "x") {
        Some(Member::Dynamic { index, method }) => {
            assert_eq!(index, 0);
            assert_eq!(method.ty, 3);
        }
        _ => panic!(),
    }
    match module.member(&ty, "y") {
        Some(Member::Dynamic { index, .. }) => assert_eq!(index, 1),
        _ => panic!(),
    }
    assert!(module.member(&ty, "z").is_none());
    assert!(module.member(&Type::I64, "a").is_none());
}

#[test]
fn type_parameters_are_replaced() {
    let list = Type::Adt(Instance::new(0, TypeList::from_vec(&vec![Type::TypeParam(1)])));
    let args = TypeList::from_vec(&vec![Type::I64, Type::Bool]);
    let expected = Type::Adt(Instance::new(0, TypeList::from_vec(&vec![Type::Bool])));
    assert!(list.substitute(&args).equals(&expected));
    assert!(list.substitute(&TypeList::Nil).equals(&list));
    assert!(Type::TypeParam(2).substitute(&args).equals(&Type::TypeParam(2)));
}

#[test]
fn kinds_of_types() {
    assert!(Type::I8.is_signed_int() && Type::I8.is_int() && Type::I8.is_number());
    assert!(!Type::U8.is_signed_int() && Type::U8.is_int());
    assert!(!Type::F32.is_int() && Type::F32.is_number());
    assert!(!Type::Bool.is_int() && Type::Bool.is_number());
    assert!(!Type::String.is_number());
    assert!(Type::Type(Box::new(Type::I64)).is_type());
    assert!(!Type::Type(Box::new(Type::I64)).is_assignable());
    assert!(Type::I64.is_assignable());
}

#[test]
fn types_are_written_in_messages() {
    let mut module = Module::new();
    let a = module.add_adt(adt(TypeKind::Reference, class(false)));
    assert_eq!(module.type_text(&Type::Adt(Instance::new_(a))), "Thing");
    assert_eq!(module.type_text(&Type::NoneType), "None");
    assert_eq!(module.type_text(&Type::F64), "f64");
    assert_eq!(module.type_text(&Type::Function(Instance::new_(0))), "<func>");
}
