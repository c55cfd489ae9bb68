//! Generation of expressions.

use gelix::ast::{ASTType, Closure, ClosureParameter, Constant, Expression, Literal, VariableDef};
use gelix::error::Error;
use gelix::gir::declaration::{
    ADTType, Declaration, Function, LocalVariable, ModPath, Variable, Visibility, ADT,
};
use gelix::gir::expression::{CastType, Expr};
use gelix::gir::module::{Module, Operator};
use gelix::gir::types::{ClosureType, Instance, Type, TypeKind, TypeList};
use gelix::lexer::token::{TType, Token};
use gelix::mir::builder::MIRBuilder;
use gelix::mir::generator::MIRGenerator;
use gelix::table::Table;
use smol_str::SmolStr;

fn path() -> ModPath {
    ModPath { parts: vec!["main".to_string()] }
}

fn tok(t_type: TType, lexeme: &str) -> Token {
    Token { t_type, lexeme: lexeme.to_string(), line: 3, index: 7 }
}

fn name(lexeme: &str) -> Token {
    tok(TType::Identifier, lexeme)
}

fn boxed(e: Expression) -> Box<Expression> {
    Box::new(e)
}

fn constant(c: Constant) -> Expression {
    Expression::Literal(Literal::Constant(c), tok(TType::IntLiteral, "const"))
}

fn number_literal(n: u64) -> Expression {
    constant(Constant::I64(n))
}

fn boolean(b: bool) -> Expression {
    constant(Constant::Bool(b))
}

fn text(s: &str) -> Expression {
    constant(Constant::String(s.to_string()))
}

fn var(n: &str) -> Expression {
    Expression::Variable(name(n))
}

fn binary(left: Expression, op: TType, right: Expression) -> Expression {
    Expression::Binary { left: boxed(left), operator: tok(op, "op"), right: boxed(right) }
}

fn define(n: &str, mutable: bool, initializer: Expression) -> Expression {
    Expression::VarDef(Box::new(VariableDef { name: name(n), mutable, initializer }))
}

fn assign(n: &str, value: Expression) -> Expression {
    Expression::Assignment { name: name(n), value: boxed(value) }
}

fn get(object: Expression, n: &str) -> Expression {
    Expression::Get { object: boxed(object), name: name(n) }
}

fn set(object: Expression, n: &str, value: Expression) -> Expression {
    Expression::SetMember { object: boxed(object), name: name(n), value: boxed(value) }
}

fn call(callee: Expression, arguments: Vec<Expression>) -> Expression {
    Expression::Call { callee: boxed(callee), arguments }
}

fn block(exprs: Vec<Expression>) -> Expression {
    Expression::Block(exprs, tok(TType::LeftBrace, "{"))
}

fn show<T: std::fmt::Debug>(value: T) -> String {
    format!("{:?}", value)
}

fn same_type(a: &Type, b: &Type) -> bool {
    a.equals(b)
}

fn message(r: Result<Expr, Error>) -> String {
    match r {
        Ok(e) => panic!("expected an error, got {:?}", e),
        Err(e) => e.msg,
    }
}

fn local(n: &str, ty: Type, mutable: bool, id: usize) -> LocalVariable {
    LocalVariable { name: SmolStr::new(n), ty, mutable, id }
}

fn adt(n: usize) -> Type {
    Type::Adt(Instance::new_(n))
}

/// A module with a class `Point` (number 0), an interface `Shape` (1), an enum
/// `Color` (2) with the case `Red` (3), the prototype `Array` (4), and the
/// functions that they need. Code goes into the function `main` (number 0).
fn generator() -> MIRGenerator {
    let mut module = Module::new();
    // main(number: i64) -> i64
    let number = module.new_local("number", Type::I64, false);
    module.add_function(Function::new("main", vec![number], Type::I64, path()));
    // Point
    let mut point = ADT::new(
        "Point",
        Visibility::Public,
        TypeKind::Reference,
        ADTType::Class { external: false },
        path(),
    );
    point.add_field("x", Visibility::Public, true, Type::I64);
    point.add_field("fixed", Visibility::Public, false, Type::Bool);
    // Point.add(this, other: i64) -> i64
    let this = module.new_local("this", adt(0), false);
    let other = module.new_local("other", Type::I64, false);
    let add = module.add_function(Function::new("add", vec![this, other], Type::I64, path()));
    point.add_method("add", add);
    // constructors: (this), (this, i64)
    let this = module.new_local("this", adt(0), false);
    let c0 = module.add_function(Function::new("c0", vec![this], Type::NoneType, path()));
    let this = module.new_local("this", adt(0), false);
    let x = module.new_local("x", Type::I64, false);
    let c1 = module.add_function(Function::new("c1", vec![this, x], Type::NoneType, path()));
    point.constructors = vec![c0, c1];
    let point = module.add_adt(point);
    module.declare("Point", Declaration::Adt(point));
    // Shape.area(scale: i64) -> f64
    let mut shape = ADT::new(
        "Shape",
        Visibility::Public,
        TypeKind::Reference,
        ADTType::Interface,
        path(),
    );
    let scale = module.new_local("scale", Type::I64, false);
    let area = module.add_function(Function::new("area", vec![scale], Type::F64, path()));
    shape.add_dyn_method("other", 0);
    shape.add_dyn_method("area", area);
    let shape = module.add_adt(shape);
    module.declare("Shape", Declaration::Adt(shape));
    // Color.Red
    let mut cases = Table::new();
    cases.insert("Red".to_string(), 3);
    let color = ADTType::new_enum(cases);
    let color = ADT::new("Color", Visibility::Public, TypeKind::Reference, color, path());
    let color = module.add_adt(color);
    module.declare("Color", Declaration::Adt(color));
    let red = ADT::new(
        "Red",
        Visibility::Public,
        TypeKind::Reference,
        ADTType::EnumCase { parent: 2, ty: gelix::gir::declaration::CaseType::Simple },
        path(),
    );
    module.add_adt(red);
    // Array<T>
    let mut array = ADT::new(
        "Array",
        Visibility::Public,
        TypeKind::Reference,
        ADTType::Class { external: false },
        path(),
    );
    array.type_parameters = vec![SmolStr::new("T")];
    let this = module.new_local("this", Type::I64, false);
    let size = module.new_local("size", Type::I64, false);
    let new = module.add_function(Function::new("new", vec![this, size], Type::NoneType, path()));
    let this = module.new_local("this", Type::I64, false);
    let value = module.new_local("value", Type::TypeParam(0), false);
    let push = module.add_function(
        Function::new("push", vec![this, value], Type::TypeParam(0), path()),
    );
    array.constructors = vec![new];
    array.add_method("push", push);
    let array = module.add_adt(array);
    module.declare("Array", Declaration::Adt(array));
    // Point == Point, Point[i64], Point[i64] = Bool
    let l = module.new_local("l", adt(0), false);
    let r = module.new_local("r", adt(0), false);
    let eq = module.add_function(Function::new("eq", vec![l, r], Type::Bool, path()));
    module.add_operator(
        Operator { operator: TType::EqualEqual, left: adt(0), right: adt(0), method: eq },
    );
    let l = module.new_local("l", adt(0), false);
    let r = module.new_local("r", Type::I64, false);
    let at = module.add_function(Function::new("at", vec![l, r], Type::String, path()));
    module.add_operator(
        Operator { operator: TType::LeftBracket, left: adt(0), right: Type::I64, method: at },
    );
    let l = module.new_local("l", adt(0), false);
    let r = module.new_local("r", Type::I64, false);
    let v = module.new_local("v", Type::Bool, false);
    let put = module.add_function(Function::new("put", vec![l, r, v], Type::NoneType, path()));
    module.add_operator(
        Operator { operator: TType::RightBracket, left: adt(0), right: Type::I64, method: put },
    );
    // identity<T>(T) -> T
    let v = module.new_local("v", Type::TypeParam(0), false);
    let mut identity = Function::new("identity", vec![v], Type::TypeParam(0), path());
    identity.type_parameters = vec![SmolStr::new("T")];
    let identity = module.add_function(identity);
    module.declare("identity", Declaration::Function(identity));
    // print(String, ...)
    let s = module.new_local("s", Type::String, false);
    let mut print = Function::new("print", vec![s], Type::NoneType, path());
    print.variadic = true;
    let print = module.add_function(print);
    module.declare("print", Declaration::Function(print));
    // make_shape() -> Shape
    let make = module.add_function(Function::new("make_shape", vec![], adt(1), path()));
    module.declare("make_shape", Declaration::Function(make));
    MIRGenerator::new(MIRBuilder::new("main.gel".to_string()), module, 0)
}

fn ok(gen: &mut MIRGenerator, e: Expression) -> Expr {
    match gen.expression(&e) {
        Ok(expr) => expr,
        Err(e) => panic!("unexpected error {:?}", e),
    }
}

fn point() -> Expression {
    call(var("Point"), vec![])
}

#[test]
fn constants_stand_for_themselves() {
    let mut gen = generator();
    let e = ok(&mut gen, number_literal(5));
    assert_eq!(show(&e), show(Expr::Literal(Constant::I64(5))));
    assert!(same_type(&e.get_type(), &Type::I64));
    assert!(gen.module.functions[0].exprs.is_empty());
}

#[test]
fn parameters_are_in_scope() {
    let mut gen = generator();
    let e = ok(&mut gen, var("number"));
    assert_eq!(
        show(&e),
        show(Expr::load(Variable::Local(local("number", Type::I64, false, 0))))
    );
}

#[test]
fn functions_and_types_are_found_by_name() {
    let mut gen = generator();
    let e = ok(&mut gen, var("print"));
    assert!(matches!(e.get_type(), Type::Function(_)));
    let e = ok(&mut gen, var("Point"));
    assert_eq!(show(&e), show(Expr::TypeGet(adt(0))));
    let e = ok(&mut gen, var("i64"));
    assert_eq!(show(&e), show(Expr::TypeGet(Type::I64)));
}

#[test]
fn unknown_variable_is_an_error() {
    let mut gen = generator();
    let e = gen.expression(&var("nothing"));
    match e {
        Ok(_) => panic!(),
        Err(e) => {
            assert_eq!(e.msg, "Variable 'nothing' is not defined");
            assert_eq!(e.path, "main.gel");
            assert_eq!(e.token.line, 3);
            assert_eq!(e.token.lexeme, "nothing");
        }
    }
}

#[test]
fn defined_variable_is_found() {
    let mut gen = generator();
    let next = gen.module.locals.len();
    let e = ok(&mut gen, define("a", true, number_literal(1)));
    let a = local("a", Type::I64, true, next);
    assert_eq!(
        show(&e),
        show(Expr::store(a, Expr::Literal(Constant::I64(1)), true))
    );
    let e = ok(&mut gen, var("a"));
    assert_eq!(show(&e), show(Expr::load(Variable::Local(local("a", Type::I64, true, next)))));
    assert!(gen.module.functions[0].variables.contains_key("a"));
    assert_eq!(gen.module.locals.len(), next + 1);
}

#[test]
fn types_cannot_be_stored() {
    let mut gen = generator();
    assert_eq!(
        message(gen.expression(&define("a", true, var("Point")))),
        "Cannot assign type '<type>' to a variable."
    );
}

#[test]
fn other_variables_stay() {
    let mut gen = generator();
    ok(&mut gen, define("a", true, number_literal(1)));
    ok(&mut gen, define("b", true, boolean(true)));
    assert!(same_type(&ok(&mut gen, var("a")).get_type(), &Type::I64));
    assert!(same_type(&ok(&mut gen, var("b")).get_type(), &Type::Bool));
}

#[test]
fn second_variable_of_a_name_gets_its_own_entry() {
    let mut gen = generator();
    ok(&mut gen, define("a", true, number_literal(1)));
    ok(&mut gen, define("a", true, boolean(true)));
    assert!(gen.module.functions[0].variables.contains_key("a"));
    assert!(gen.module.functions[0].variables.contains_key("a-1"));
    assert!(same_type(&ok(&mut gen, var("a")).get_type(), &Type::Bool));
}

#[test]
fn assignment_stores_into_mutable_variables() {
    let mut gen = generator();
    let next = gen.module.locals.len();
    ok(&mut gen, define("a", true, number_literal(1)));
    let e = ok(&mut gen, assign("a", number_literal(2)));
    assert_eq!(
        show(&e),
        show(Expr::store(
            local("a", Type::I64, true, next),
            Expr::Literal(Constant::I64(2)),
            false
        ))
    );
}

#[test]
fn assignment_errors() {
    let mut gen = generator();
    ok(&mut gen, define("fixed", false, number_literal(1)));
    ok(&mut gen, define("changing", true, number_literal(1)));
    assert_eq!(
        message(gen.expression(&assign("fixed", number_literal(2)))),
        "Variable fixed is a different type"
    );
    assert_eq!(
        message(gen.expression(&assign("changing", boolean(true)))),
        "Variable changing is not assignable (val)"
    );
    assert_eq!(
        message(gen.expression(&assign("print", number_literal(2)))),
        "Variable print is a different type"
    );
    assert_eq!(
        message(gen.expression(&assign("nothing", number_literal(2)))),
        "Variable 'nothing' is not defined"
    );
}

#[test]
fn numbers_need_no_method() {
    let mut gen = generator();
    let e = ok(&mut gen, binary(number_literal(1), TType::Plus, number_literal(2)));
    assert_eq!(
        show(&e),
        show(Expr::binary(
            Expr::Literal(Constant::I64(1)),
            TType::Plus,
            Expr::Literal(Constant::I64(2))
        ))
    );
    assert!(same_type(&e.get_type(), &Type::I64));
    let e = ok(&mut gen, binary(number_literal(1), TType::Less, number_literal(2)));
    assert!(same_type(&e.get_type(), &Type::Bool));
}

#[test]
fn operators_of_other_types_are_calls() {
    let mut gen = generator();
    let e = ok(&mut gen, binary(point(), TType::EqualEqual, point()));
    match &e {
        Expr::Call { arguments, ty, .. } => {
            assert_eq!(arguments.len(), 2);
            assert!(same_type(ty, &Type::Bool));
        }
        _ => panic!(),
    }
}

#[test]
fn inequality_negates_equality() {
    let mut gen = generator();
    let eq = ok(&mut gen, binary(point(), TType::EqualEqual, point()));
    let ne = ok(&mut gen, binary(point(), TType::BangEqual, point()));
    assert_eq!(show(&ne), show(Expr::unary(eq, TType::Bang)));
}

#[test]
fn missing_operator_is_an_error() {
    let mut gen = generator();
    assert_eq!(
        message(gen.expression(&binary(point(), TType::Plus, number_literal(1)))),
        "No implementation of operator found for types."
    );
    assert_eq!(
        message(gen.expression(&binary(number_literal(1), TType::Plus, boolean(true)))),
        "No implementation of operator found for types."
    );
}

#[test]
fn block_has_its_own_scope() {
    let mut gen = generator();
    let e = ok(&mut gen, block(vec![define("inner", false, number_literal(1)), var("inner")]));
    assert!(same_type(&e.get_type(), &Type::I64));
    assert_eq!(gen.cur.scopes.len(), 1);
    assert_eq!(
        message(gen.expression(&var("inner"))),
        "Variable 'inner' is not defined"
    );
}

#[test]
fn block_hides_variables_only_inside() {
    let mut gen = generator();
    ok(&mut gen, define("a", false, number_literal(1)));
    let e = ok(&mut gen, block(vec![define("a", false, boolean(true)), var("a")]));
    assert!(same_type(&e.get_type(), &Type::Bool));
    assert!(same_type(&ok(&mut gen, var("a")).get_type(), &Type::I64));
}

#[test]
fn empty_block_has_no_value() {
    let mut gen = generator();
    let e = ok(&mut gen, block(vec![]));
    assert_eq!(show(&e), show(Expr::none_const()));
}

#[test]
fn break_needs_a_loop() {
    let mut gen = generator();
    assert_eq!(
        message(gen.expression(&Expression::Break(None, tok(TType::Break, "break")))),
        "Break is only allowed in loops."
    );
}

fn for_loop(condition: Expression, body: Expression, else_b: Option<Expression>) -> Expression {
    Expression::For {
        condition: boxed(condition),
        body: boxed(body),
        else_b: else_b.map(Box::new),
    }
}

#[test]
fn loop_with_else_has_a_value() {
    let mut gen = generator();
    let next = gen.module.locals.len();
    let e = ok(&mut gen, for_loop(boolean(true), number_literal(1), Some(number_literal(2))));
    let store = local("for-body", Type::I64, true, next);
    assert_eq!(
        show(&e),
        show(Expr::loop_(
            Expr::Literal(Constant::Bool(true)),
            Expr::Literal(Constant::I64(1)),
            Some(Expr::Literal(Constant::I64(2))),
            Some(store)
        ))
    );
    assert!(same_type(&e.get_type(), &Type::I64));
    assert!(gen.cur.current_loop.is_none());
}

#[test]
fn loop_without_matching_else_has_none() {
    let mut gen = generator();
    let e = ok(&mut gen, for_loop(boolean(true), number_literal(1), None));
    assert!(same_type(&e.get_type(), &Type::NoneType));
    let e = ok(&mut gen, for_loop(boolean(true), number_literal(1), Some(boolean(true))));
    assert!(same_type(&e.get_type(), &Type::NoneType));
}

#[test]
fn break_value_has_the_type_of_the_loop() {
    let mut gen = generator();
    let with = |value: Expression| Expression::Break(Some(boxed(value)), tok(TType::Break, "break"));
    let e = ok(
        &mut gen,
        for_loop(boolean(true), block(vec![with(number_literal(5)), number_literal(1)]), None),
    );
    assert!(matches!(e, Expr::Loop { .. }));
    assert_eq!(
        message(gen.expression(&for_loop(
            boolean(true),
            block(vec![with(boolean(true)), number_literal(1)]),
            None
        ))),
        "Break expressions + for body must have same type"
    );
}

#[test]
fn loop_condition_is_a_boolean() {
    let mut gen = generator();
    assert_eq!(
        message(gen.expression(&for_loop(number_literal(1), number_literal(1), None))),
        "For condition must be a boolean."
    );
}

#[test]
fn constructor_is_chosen_by_its_arguments() {
    let mut gen = generator();
    let e = ok(&mut gen, point());
    assert_eq!(show(&e), show(Expr::allocate(adt(0), 2, vec![])));
    let e = ok(&mut gen, call(var("Point"), vec![number_literal(4)]));
    assert_eq!(
        show(&e),
        show(Expr::allocate(adt(0), 3, vec![Expr::Literal(Constant::I64(4))]))
    );
    assert_eq!(
        message(gen.expression(&call(var("Point"), vec![boolean(true)]))),
        "No matching constructor found for arguments."
    );
}

#[test]
fn method_is_called_with_its_object() {
    let mut gen = generator();
    let e = ok(&mut gen, call(get(point(), "add"), vec![number_literal(4)]));
    assert_eq!(
        show(&e),
        show(Expr::call(
            Expr::load(gen.module.function_variable(Instance::new_(1))),
            vec![Expr::allocate(adt(0), 2, vec![]), Expr::Literal(Constant::I64(4))],
            Type::I64
        ))
    );
}

#[test]
fn interface_method_is_called_by_its_place() {
    let mut gen = generator();
    let e = ok(&mut gen, call(get(call(var("make_shape"), vec![]), "area"), vec![number_literal(2)]));
    match &e {
        Expr::CallDyn { interface, index, arguments, ty } => {
            assert!(same_type(interface, &adt(1)));
            assert_eq!(*index, 1);
            assert_eq!(arguments.len(), 2);
            assert!(same_type(ty, &Type::F64));
        }
        _ => panic!(),
    }
}

#[test]
fn call_errors() {
    let mut gen = generator();
    assert_eq!(
        message(gen.expression(&call(get(point(), "x"), vec![]))),
        "Class members cannot be called."
    );
    assert_eq!(
        message(gen.expression(&call(get(point(), "add"), vec![]))),
        "Incorrect amount of function arguments. (Expected 2; got 1)"
    );
    assert_eq!(
        message(gen.expression(&call(get(point(), "add"), vec![boolean(true)]))),
        "Call argument is the wrong type (was bool, expected i64)"
    );
    assert_eq!(
        message(gen.expression(&call(get(point(), "add"), vec![point()]))),
        "Call argument is the wrong type (was Point, expected i64)"
    );
    assert_eq!(
        message(gen.expression(&call(number_literal(5), vec![]))),
        "Only functions are allowed to be called"
    );
    assert_eq!(
        message(gen.expression(&call(get(point(), "nothing"), vec![]))),
        "Unknown class member."
    );
    assert_eq!(
        message(gen.expression(&call(get(number_literal(5), "nothing"), vec![]))),
        "Unknown class member."
    );
}

#[test]
fn variadic_functions_take_more() {
    let mut gen = generator();
    let e = ok(&mut gen, call(var("print"), vec![text("a"), number_literal(1), boolean(true)]));
    match e {
        Expr::Call { arguments, ty, .. } => {
            assert_eq!(arguments.len(), 3);
            assert!(same_type(&ty, &Type::NoneType));
        }
        _ => panic!(),
    }
    assert_eq!(
        message(gen.expression(&call(var("print"), vec![]))),
        "Incorrect amount of function arguments. (Expected 1; got 0)"
    );
    assert_eq!(
        message(gen.expression(&call(var("make_shape"), vec![number_literal(1)]))),
        "Incorrect amount of function arguments. (Expected 0; got 1)"
    );
}

#[test]
fn fields_are_loaded() {
    let mut gen = generator();
    let e = ok(&mut gen, get(point(), "fixed"));
    assert_eq!(
        show(&e),
        show(Expr::struct_get(Expr::allocate(adt(0), 2, vec![]), 1, Type::Bool))
    );
    assert_eq!(
        message(gen.expression(&get(point(), "add"))),
        "Cannot get class method (must be called)"
    );
}

#[test]
fn fields_are_set() {
    let mut gen = generator();
    let e = ok(&mut gen, set(point(), "x", number_literal(3)));
    assert_eq!(
        show(&e),
        show(Expr::struct_set(
            Expr::allocate(adt(0), 2, vec![]),
            0,
            Expr::Literal(Constant::I64(3)),
            false
        ))
    );
    assert_eq!(
        message(gen.expression(&set(point(), "x", boolean(true)))),
        "Class member is a different type"
    );
    assert_eq!(
        message(gen.expression(&set(point(), "fixed", boolean(true)))),
        "Cannot set immutable class member"
    );
    assert_eq!(
        message(gen.expression(&set(point(), "add", number_literal(1)))),
        "Cannot set class method"
    );
}

#[test]
fn uninitialized_fields_are_set_once_and_not_read() {
    let mut gen = generator();
    gen.cur.uninitialized_this_members.insert("fixed".to_string());
    assert_eq!(
        message(gen.expression(&get(point(), "fixed"))),
        "Cannot get uninitialized class member."
    );
    assert_eq!(
        message(gen.expression(&call(get(point(), "add"), vec![number_literal(1)]))),
        "Cannot call methods in constructors until all class members are initialized."
    );
    let e = ok(&mut gen, set(point(), "fixed", boolean(true)));
    assert!(matches!(e, Expr::StoreField { first_set: true, field: 1, .. }));
    assert!(gen.cur.uninitialized_this_members.is_empty());
    ok(&mut gen, get(point(), "fixed"));
    assert_eq!(
        message(gen.expression(&set(point(), "fixed", boolean(true)))),
        "Cannot set immutable class member"
    );
}

#[test]
fn enum_cases_are_types() {
    let mut gen = generator();
    let case = |object: Expression, n: &str| Expression::GetStatic {
        object: boxed(object),
        name: name(n),
    };
    let e = ok(&mut gen, case(var("Color"), "Red"));
    assert_eq!(show(&e), show(Expr::TypeGet(adt(3))));
    assert_eq!(message(gen.expression(&case(var("Color"), "Blue"))), "Unknown enum case.");
    assert_eq!(
        message(gen.expression(&case(var("Point"), "Red"))),
        "Static access is only supported on enum types."
    );
    assert_eq!(
        message(gen.expression(&case(var("i64"), "Red"))),
        "Static access is only supported on enum types."
    );
    assert_eq!(
        message(gen.expression(&case(number_literal(1), "Red"))),
        "Static access is not supported on values."
    );
}

fn if_(condition: Expression, then: Expression, else_b: Option<Expression>) -> Expression {
    Expression::If {
        condition: boxed(condition),
        then_branch: boxed(then),
        else_branch: else_b.map(Box::new),
    }
}

#[test]
fn condition_has_a_value_if_both_branches_do() {
    let mut gen = generator();
    let e = ok(&mut gen, if_(boolean(true), number_literal(1), Some(number_literal(2))));
    assert!(matches!(e, Expr::If { phi: true, .. }));
    assert!(same_type(&e.get_type(), &Type::I64));
    let e = ok(&mut gen, if_(boolean(true), number_literal(1), Some(boolean(true))));
    assert!(matches!(e, Expr::If { phi: false, .. }));
    let e = ok(&mut gen, if_(boolean(true), number_literal(1), None));
    assert!(same_type(&e.get_type(), &Type::NoneType));
    let e = ok(&mut gen, if_(boolean(true), block(vec![]), None));
    assert!(matches!(e, Expr::If { phi: false, .. }));
    assert_eq!(
        message(gen.expression(&if_(number_literal(1), number_literal(1), None))),
        "If condition must be a boolean"
    );
}

#[test]
fn type_check_casts_the_variable_inside() {
    let mut gen = generator();
    ok(&mut gen, define("shape", false, call(var("make_shape"), vec![])));
    let next = gen.module.locals.len();
    let is = binary(var("shape"), TType::Is, var("Point"));
    let e = ok(&mut gen, if_(is, get(var("shape"), "x"), None));
    match e {
        Expr::If { then_branch, .. } => match *then_branch {
            Expr::Block(exprs) => {
                assert_eq!(exprs.len(), 2);
                assert_eq!(
                    show(&exprs[0]),
                    show(Expr::store(
                        local("shape", adt(0), false, next),
                        Expr::cast(
                            Expr::load(Variable::Local(local("shape", adt(1), false, next - 1))),
                            adt(0),
                            CastType::Bitcast
                        ),
                        true
                    ))
                );
                assert!(same_type(&exprs[1].get_type(), &Type::I64));
            }
            _ => panic!(),
        },
        _ => panic!(),
    }
    assert!(same_type(&ok(&mut gen, var("shape")).get_type(), &adt(1)));
}

#[test]
fn type_checks_are_joined_by_and() {
    let mut gen = generator();
    ok(&mut gen, define("a", false, call(var("make_shape"), vec![])));
    ok(&mut gen, define("b", false, call(var("make_shape"), vec![])));
    let both = binary(
        binary(var("a"), TType::Is, var("Point")),
        TType::And,
        binary(var("b"), TType::Is, var("Point")),
    );
    let e = ok(&mut gen, if_(both, number_literal(1), None));
    match e {
        Expr::If { then_branch, .. } => match *then_branch {
            Expr::Block(exprs) => {
                assert_eq!(exprs.len(), 3);
                assert!(matches!(exprs[0], Expr::Store { first_store: true, .. }));
                assert!(matches!(exprs[1], Expr::Store { first_store: true, .. }));
            }
            _ => panic!(),
        },
        _ => panic!(),
    }
}

#[test]
fn elements_are_read_and_set_by_operators() {
    let mut gen = generator();
    let e = ok(
        &mut gen,
        Expression::IndexGet {
            indexed: boxed(point()),
            index: boxed(number_literal(1)),
            bracket: tok(TType::LeftBracket, "["),
        },
    );
    assert!(same_type(&e.get_type(), &Type::String));
    let put = |value: Expression| Expression::IndexSet {
        indexed: boxed(point()),
        index: boxed(number_literal(1)),
        value: boxed(value),
    };
    let e = ok(&mut gen, put(boolean(true)));
    match e {
        Expr::Call { arguments, ty, .. } => {
            assert_eq!(arguments.len(), 3);
            assert!(same_type(&ty, &Type::NoneType));
        }
        _ => panic!(),
    }
    assert_eq!(message(gen.expression(&put(number_literal(1)))), "Setter is of wrong type.");
    assert_eq!(
        message(gen.expression(&Expression::IndexSet {
            indexed: boxed(number_literal(1)),
            index: boxed(number_literal(1)),
            value: boxed(number_literal(1)),
        })),
        "No implementation of operator found for types."
    );
}

fn array(values: Vec<Expression>) -> Expression {
    Expression::Literal(Literal::Array(values), tok(TType::LeftBracket, "["))
}

#[test]
fn array_literal_pushes_its_values() {
    let mut gen = generator();
    let e = ok(&mut gen, array(vec![number_literal(1), number_literal(2)]));
    let args = TypeList::from_vec(&vec![Type::I64]);
    let ty = Type::Adt(Instance::new(4, args));
    assert!(same_type(&e.get_type(), &ty));
    assert_eq!(
        show(&e),
        show(Expr::allocate(ty.copy(), 5, vec![Expr::Literal(Constant::I64(2))]))
    );
    let code = &gen.module.functions[0].exprs;
    assert_eq!(code.len(), 2);
    let push = Expr::load(Variable::Function {
        func: Instance::new(6, TypeList::from_vec(&vec![Type::I64])),
        name: SmolStr::new("push"),
    });
    assert_eq!(
        show(&code[1]),
        show(Expr::call(push, vec![e.copy(), Expr::Literal(Constant::I64(2))], Type::I64))
    );
}

#[test]
fn array_values_are_compared_without_a_type_of_arrays() {
    let mut module = Module::new();
    module.add_function(Function::new("main", vec![], Type::NoneType, path()));
    let builder = MIRBuilder::new("main.gel".to_string());
    let mut gen = MIRGenerator::new(builder, module, 0);
    let values = vec![number_literal(1), number_literal(2), boolean(true)];
    assert_eq!(
        message(gen.expression(&array(values))),
        "Type of array value (bool) does not match rest of array (i64)."
    );
    assert!(gen.module.functions[0].exprs.is_empty());
}

#[test]
fn array_values_have_one_type() {
    let mut gen = generator();
    assert_eq!(
        message(gen.expression(&array(vec![number_literal(1), boolean(true)]))),
        "Type of array value (bool) does not match rest of array (i64)."
    );
}

#[test]
fn return_has_the_type_of_the_function() {
    let mut gen = generator();
    let ret = |value: Option<Expression>| {
        Expression::Return(value.map(Box::new), tok(TType::Return, "return"))
    };
    let e = ok(&mut gen, ret(Some(number_literal(1))));
    assert_eq!(show(&e), show(Expr::ret(Expr::Literal(Constant::I64(1)))));
    assert!(same_type(&e.get_type(), &Type::Any));
    assert_eq!(
        message(gen.expression(&ret(None))),
        "Return expression in function has wrong type"
    );
}

#[test]
fn only_booleans_are_negated() {
    let mut gen = generator();
    let unary = |op: TType, right: Expression| Expression::Unary {
        operator: tok(op, "op"),
        right: boxed(right),
    };
    let e = ok(&mut gen, unary(TType::Bang, boolean(true)));
    assert!(same_type(&e.get_type(), &Type::Bool));
    let e = ok(&mut gen, unary(TType::Minus, number_literal(1)));
    assert!(same_type(&e.get_type(), &Type::I64));
    assert_eq!(
        message(gen.expression(&unary(TType::Bang, number_literal(1)))),
        "'!' can only be used on boolean values"
    );
}

fn with_generics(n: &str, generics: Vec<ASTType>) -> Expression {
    Expression::VarWithGenerics { name: name(n), generics }
}

#[test]
fn type_arguments_are_applied() {
    let mut gen = generator();
    let i64_ = || ASTType::Ident(name("i64"));
    let e = ok(&mut gen, with_generics("identity", vec![i64_()]));
    match e.get_type() {
        Type::Function(inst) => assert_eq!(inst.args.to_vec().len(), 1),
        _ => panic!(),
    }
    let e = ok(&mut gen, call(with_generics("identity", vec![i64_()]), vec![number_literal(1)]));
    assert!(same_type(&e.get_type(), &Type::I64));
    let nested = ASTType::Generic { token: name("Array"), types: vec![i64_()] };
    let e = ok(&mut gen, with_generics("Array", vec![nested]));
    assert!(matches!(e, Expr::TypeGet(Type::Adt(_))));
    assert_eq!(
        message(gen.expression(&with_generics("Array", vec![]))),
        "Wrong amount of type parameters."
    );
    assert_eq!(message(gen.expression(&with_generics("Nothing", vec![]))), "Unknown type.");
    assert_eq!(
        message(gen.expression(&with_generics("Array", vec![ASTType::Ident(name("print"))]))),
        "Unknown type."
    );
}

fn when(value: Expression, branches: Vec<(Expression, Expression)>, else_b: Expression) -> Expression {
    Expression::When { value: boxed(value), branches, else_branch: boxed(else_b) }
}

#[test]
fn choice_compares_with_every_branch() {
    let mut gen = generator();
    let e = ok(
        &mut gen,
        when(number_literal(1), vec![(number_literal(2), text("two")), (number_literal(3), text("three"))], text("other")),
    );
    match &e {
        Expr::Switch { cases, else_branch, ty } => {
            assert_eq!(cases.len(), 2);
            assert!(matches!(cases[0].0, Expr::Binary { operator: TType::EqualEqual, .. }));
            assert!(else_branch.is_some());
            assert!(same_type(ty.as_ref().unwrap(), &Type::String));
        }
        _ => panic!(),
    }
    assert!(same_type(&e.get_type(), &Type::String));
}

#[test]
fn choice_by_type_casts_the_variable() {
    let mut gen = generator();
    ok(&mut gen, define("shape", false, call(var("make_shape"), vec![])));
    let e = ok(&mut gen, when(var("shape"), vec![(var("Point"), get(var("shape"), "x"))], number_literal(0)));
    match &e {
        Expr::Switch { cases, .. } => {
            assert!(matches!(cases[0].0, Expr::Binary { operator: TType::Is, .. }));
            match &cases[0].1 {
                Expr::Block(exprs) => assert_eq!(exprs.len(), 2),
                _ => panic!(),
            }
        }
        _ => panic!(),
    }
}

#[test]
fn choice_errors() {
    let mut gen = generator();
    assert_eq!(
        message(gen.expression(&when(number_literal(1), vec![(boolean(true), number_literal(1))], number_literal(1)))),
        "Branches of when must be of same type as the value compared."
    );
    assert_eq!(
        message(gen.expression(&when(number_literal(1), vec![(number_literal(1), boolean(true))], number_literal(1)))),
        "Branch results must be of same type."
    );
    assert_eq!(
        message(gen.expression(&when(text("a"), vec![(text("b"), number_literal(1))], number_literal(1)))),
        "No implementation of operator found for types."
    );
}

fn closure(parameters: Vec<(&str, &str)>, ret: Option<&str>, body: Expression) -> Expression {
    let parameters = parameters
        .into_iter()
        .map(|(n, t)| ClosureParameter {
            name: name(n),
            type_: Some(ASTType::Ident(name(t))),
        })
        .collect();
    let ret_ty = ret.map(|t| ASTType::Ident(name(t)));
    Expression::Literal(
        Literal::Closure(Closure { parameters, ret_ty, body: boxed(body) }),
        tok(TType::Func, "func"),
    )
}

#[test]
fn closure_becomes_a_function() {
    let mut gen = generator();
    let f = gen.module.functions.len();
    let e = ok(&mut gen, closure(vec![("a", "i64")], Some("i64"), var("a")));
    let ty = Type::Closure(ClosureType {
        parameters: TypeList::from_vec(&vec![Type::I64]),
        ret_type: Box::new(Type::I64),
    });
    assert!(same_type(&e.get_type(), &ty));
    match &e {
        Expr::Store { var, value, first_store } => {
            assert_eq!(var.name.as_str(), "closure-literal");
            assert!(*first_store);
            assert!(matches!(**value, Expr::Closure { captured: 0, .. }));
        }
        _ => panic!(),
    }
    let function = &gen.module.functions[f];
    assert_eq!(function.name.as_str(), "closure-3:7");
    assert_eq!(function.parameters.len(), 2);
    assert_eq!(function.parameters[0].name.as_str(), "CLOSURE-CAPTURED");
    assert!(same_type(&function.parameters[0].ty, &Type::ClosureCaptured(0)));
    assert_eq!(function.parameters[1].name.as_str(), "a");
    assert_eq!(function.exprs.len(), 1);
    assert!(matches!(function.exprs[0], Expr::Return(_)));
    assert_eq!(gen.cur.function, 0);
    assert!(gen.module.captures[0].is_empty());
}

#[test]
fn closure_captures_variables_once() {
    let mut gen = generator();
    ok(&mut gen, define("outside", false, number_literal(1)));
    let body = binary(var("outside"), TType::Plus, var("outside"));
    ok(&mut gen, closure(vec![], Some("i64"), body));
    assert_eq!(gen.module.captures[0].len(), 1);
    assert_eq!(gen.module.captures[0][0].name.as_str(), "outside");
}

#[test]
fn inner_closures_capture_through_outer_ones() {
    let mut gen = generator();
    ok(&mut gen, define("outside", false, number_literal(1)));
    let inner = closure(vec![], Some("i64"), var("outside"));
    ok(&mut gen, closure(vec![], None, inner));
    // the inner closure is complete first
    assert_eq!(gen.module.captures.len(), 2);
    assert_eq!(gen.module.captures[0].len(), 1);
    assert_eq!(gen.module.captures[1].len(), 1);
    assert!(gen.outer.is_empty());
}

#[test]
fn closures_are_called_like_functions() {
    let mut gen = generator();
    ok(&mut gen, define("f", false, closure(vec![("a", "i64")], Some("i64"), var("a"))));
    let e = ok(&mut gen, call(var("f"), vec![number_literal(1)]));
    assert!(same_type(&e.get_type(), &Type::I64));
    assert_eq!(
        message(gen.expression(&call(var("f"), vec![boolean(true)]))),
        "Call argument is the wrong type (was bool, expected i64)"
    );
}

#[test]
fn closure_errors() {
    let mut gen = generator();
    assert_eq!(
        message(gen.expression(&closure(vec![("a", "nothing")], None, number_literal(1)))),
        "Unknown type."
    );
    let mut gen = generator();
    assert_eq!(
        message(gen.expression(&closure(vec![], Some("bool"), number_literal(1)))),
        "Function return type does not match body type."
    );
}

#[test]
fn code_goes_into_the_current_function_only() {
    let mut gen = generator();
    let before: Vec<usize> = gen.module.functions.iter().map(|f| f.exprs.len()).collect();
    ok(&mut gen, array(vec![number_literal(1)]));
    for (i, count) in before.iter().enumerate() {
        let expected = if i == 0 { count + 1 } else { *count };
        assert_eq!(gen.module.functions[i].exprs.len(), expected);
    }
}

#[test]
fn immutable_fields_are_set_once() {
    let mut gen = generator();
    gen.cur.uninitialized_this_members.insert("fixed".to_string());
    ok(&mut gen, define("p", false, point()));
    match ok(&mut gen, set(var("p"), "fixed", boolean(true))) {
        Expr::StoreField { first_set, .. } => assert!(first_set),
        _ => panic!(),
    }
    assert_eq!(
        message(gen.expression(&set(var("p"), "fixed", boolean(false)))),
        "Cannot set immutable class member"
    );
}

#[test]
fn generated_variables_exist() {
    let mut gen = generator();
    ok(&mut gen, define("outside", false, number_literal(1)));
    ok(&mut gen, define("flag", true, boolean(true)));
    ok(&mut gen, closure(vec![("a", "i64")], Some("i64"), var("outside")));
    for function in gen.module.functions.iter() {
        for parameter in function.parameters.iter() {
            assert!(same_type(&parameter.ty, &gen.module.locals[parameter.id]));
        }
    }
    for row in gen.module.captures.iter() {
        for captured in row.iter() {
            assert!(same_type(&captured.ty, &gen.module.locals[captured.id]));
        }
    }
    match ok(&mut gen, var("flag")) {
        Expr::Variable(Variable::Local(flag)) => {
            assert!(same_type(&flag.ty, &Type::Bool));
            assert!(same_type(&gen.module.locals[flag.id], &Type::Bool));
        }
        _ => panic!(),
    }
}
