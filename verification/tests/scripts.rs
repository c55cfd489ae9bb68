//! Lowering of scripts.

use gelix::ast::declaration::FunctionArg;
use gelix::ast::statement::{Class, Function, Statement, Variable};
use gelix::ast::{Constant, Expression, Literal};
use gelix::codegen::generator::{Action, Event, IRGenerator, Phase};
use gelix::codegen::module::{Inst, Operation, Predicate, Value, ValueType};
use gelix::lexer::token::{TType, Token};

fn name(lexeme: &str) -> Token {
    Token { t_type: TType::Identifier, lexeme: lexeme.to_string(), line: 0, index: 0 }
}

fn constant(c: Constant) -> Expression {
    Expression::Literal(Literal::Constant(c), name("literal"))
}

fn number(n: u64) -> Expression {
    constant(Constant::I64(n))
}

fn var(n: &str) -> Expression {
    Expression::Variable(name(n))
}

fn binary(left: Expression, op: TType, right: Expression) -> Expression {
    Expression::Binary {
        left: Box::new(left),
        operator: Token { t_type: op, lexeme: String::new(), line: 0, index: 0 },
        right: Box::new(right),
    }
}

fn if_(condition: Expression, then: Expression, else_b: Option<Expression>) -> Expression {
    Expression::If {
        condition: Box::new(condition),
        then_branch: Box::new(then),
        else_branch: else_b.map(Box::new),
    }
}

fn define(n: &str, initializer: Expression) -> Statement {
    Statement::Variable(Variable { name: name(n), initializer })
}

fn function(n: &str, body: Expression) -> Statement {
    Statement::Function(Function {
        name: name(n),
        return_type: None,
        parameters: vec![FunctionArg { name: name("a"), _type: name("i64") }],
        body,
    })
}

fn run(statements: Vec<Statement>) -> (IRGenerator, Option<&'static str>) {
    let mut gen = IRGenerator::new(statements);
    let mut action = gen.generate(Event::Start);
    loop {
        match action {
            Action::Verify(_) => action = gen.generate(Event::Verified { valid: true }),
            Action::Finish => {
                assert!(gen.statements.is_empty());
                let error = gen.errors.first().copied();
                return (gen, error);
            }
            Action::NoValue => panic!("no value"),
        }
    }
}

fn insts(gen: &IRGenerator, function: usize, block: usize) -> String {
    format!("{:?}", gen.module.functions[function].blocks[block].insts)
}

fn compute(id: usize, operation: Operation, n: &str) -> Inst {
    Inst::Compute { id, operation, name: n.to_string() }
}

fn inst(id: usize, ty: ValueType) -> Value {
    Value::Inst(id, ty)
}

#[test]
fn empty_script_returns() {
    let (gen, error) = run(vec![]);
    assert!(error.is_none());
    assert_eq!(gen.module.functions.len(), 1);
    assert_eq!(gen.module.functions[0].name, "entry");
    assert_eq!(insts(&gen, 0, 0), format!("{:?}", vec![Inst::ReturnVoid]));
    assert_eq!(gen.phase, Phase::Finished);
}

#[test]
fn variables_are_stored_and_loaded() {
    let (gen, error) = run(vec![
        define("a", number(5)),
        Statement::Expression(Expression::Assignment {
            name: name("a"),
            value: Box::new(binary(var("a"), TType::Plus, number(1))),
        }),
    ]);
    assert!(error.is_none());
    assert_eq!(
        insts(&gen, 0, 0),
        format!(
            "{:?}",
            vec![
                compute(0, Operation::Alloca(ValueType::Int), "a"),
                Inst::Store { pointer: 0, value: Value::Int(5) },
                compute(1, Operation::Load(0), "a"),
                compute(2, Operation::Add(inst(1, ValueType::Int), Value::Int(1)), "tmpadd"),
                Inst::Store { pointer: 0, value: inst(2, ValueType::Int) },
                Inst::ReturnVoid,
            ]
        )
    );
}

#[test]
fn memory_is_reserved_in_front() {
    let (gen, _) = run(vec![define("a", number(1)), define("b", constant(Constant::Bool(true)))]);
    assert_eq!(
        insts(&gen, 0, 0),
        format!(
            "{:?}",
            vec![
                compute(1, Operation::Alloca(ValueType::Bool), "b"),
                compute(0, Operation::Alloca(ValueType::Int), "a"),
                Inst::Store { pointer: 0, value: Value::Int(1) },
                Inst::Store { pointer: 1, value: Value::Bool(true) },
                Inst::ReturnVoid,
            ]
        )
    );
}

#[test]
fn division_goes_through_floats() {
    let (gen, _) =
        run(vec![Statement::Expression(binary(number(7), TType::Slash, number(2)))]);
    assert_eq!(
        insts(&gen, 0, 0),
        format!(
            "{:?}",
            vec![
                compute(0, Operation::SignedToFloat(Value::Int(7)), "tmpdivconv"),
                compute(1, Operation::SignedToFloat(Value::Int(2)), "tmpdivconv"),
                compute(
                    2,
                    Operation::FloatDiv(
                        inst(0, ValueType::Double),
                        inst(1, ValueType::Double)
                    ),
                    "tmpdiv"
                ),
                compute(
                    3,
                    Operation::FloatToSigned(inst(2, ValueType::Double)),
                    "tmpdivconv"
                ),
                Inst::ReturnVoid,
            ]
        )
    );
}

#[test]
fn comparisons_are_signed() {
    let cases = [
        (TType::Greater, Predicate::Greater),
        (TType::GreaterEqual, Predicate::GreaterEqual),
        (TType::Less, Predicate::Less),
        (TType::LessEqual, Predicate::LessEqual),
        (TType::EqualEqual, Predicate::Equal),
        (TType::BangEqual, Predicate::NotEqual),
    ];
    for (op, predicate) in cases.iter() {
        let (gen, error) = run(vec![Statement::Expression(binary(number(1), *op, number(2)))]);
        assert!(error.is_none());
        let expected = vec![
            compute(
                0,
                Operation::Compare(*predicate, Value::Int(1), Value::Int(2)),
                "tmpcmp",
            ),
            Inst::ReturnVoid,
        ];
        assert_eq!(insts(&gen, 0, 0), format!("{:?}", expected));
        assert_eq!(gen.module.values, vec![ValueType::Bool]);
    }
}

#[test]
fn condition_has_two_branches() {
    let (gen, error) = run(vec![Statement::Expression(if_(
        constant(Constant::Bool(true)),
        number(1),
        Some(number(2)),
    ))]);
    assert!(error.is_none());
    let names: Vec<&str> =
        gen.module.functions[0].blocks.iter().map(|b| b.name.as_str()).collect();
    assert_eq!(names, vec!["entry", "then", "else", "ifcont"]);
    assert_eq!(
        insts(&gen, 0, 0),
        format!(
            "{:?}",
            vec![
                compute(
                    0,
                    Operation::Compare(
                        Predicate::NotEqual,
                        Value::Bool(true),
                        Value::Bool(false)
                    ),
                    "ifcond"
                ),
                Inst::CondBranch {
                    condition: inst(0, ValueType::Bool),
                    then_block: (0, 1),
                    else_block: (0, 2)
                },
            ]
        )
    );
    assert_eq!(insts(&gen, 0, 1), format!("{:?}", vec![Inst::Branch((0, 3))]));
    assert_eq!(insts(&gen, 0, 2), format!("{:?}", vec![Inst::Branch((0, 3))]));
    assert_eq!(
        insts(&gen, 0, 3),
        format!("{:?}", vec![compute(1, Operation::Phi, "ifphi"), Inst::ReturnVoid])
    );
    assert_eq!(gen.module.incoming.len(), 2);
    assert_eq!(gen.module.incoming[0].phi, 1);
    assert_eq!(gen.module.incoming[0].block, (0, 1));
    assert_eq!(gen.module.incoming[1].block, (0, 2));
}

#[test]
fn condition_without_else_goes_on() {
    let (gen, _) = run(vec![Statement::Expression(if_(number(1), number(1), None))]);
    match &gen.module.functions[0].blocks[0].insts[1] {
        Inst::CondBranch { then_block, else_block, .. } => {
            assert_eq!((*then_block, *else_block), ((0, 1), (0, 3)));
        }
        _ => panic!(),
    }
    assert!(gen.module.incoming.is_empty());
}

#[test]
fn functions_are_checked() {
    let mut gen = IRGenerator::new(vec![function("f", number(1)), define("a", number(1))]);
    match gen.generate(Event::Start) {
        Action::Verify(f) => assert_eq!(f, 1),
        _ => panic!(),
    }
    assert_eq!(gen.phase, Phase::Waiting(1));
    assert_eq!(gen.statements.len(), 1);
    assert_eq!(gen.module.functions[1].name, "f");
    assert_eq!(insts(&gen, 1, 0), format!("{:?}", vec![Inst::ReturnVoid]));
    assert!(matches!(gen.generate(Event::Verified { valid: true }), Action::Finish));
    assert!(gen.errors.is_empty());
    assert_eq!(gen.main_fn, 0);
    // the variable behind the function belongs to the main function
    assert_eq!(gen.current_fn, 0);
    assert_eq!(insts(&gen, 1, 0), format!("{:?}", vec![Inst::ReturnVoid]));
    assert_eq!(
        insts(&gen, 0, 0),
        format!(
            "{:?}",
            vec![
                compute(0, Operation::Alloca(ValueType::Int), "a"),
                Inst::Store { pointer: 0, value: Value::Int(1) },
                Inst::ReturnVoid,
            ]
        )
    );
}

#[test]
fn invalid_functions_are_deleted() {
    let mut gen = IRGenerator::new(vec![function("f", number(1)), define("a", number(1))]);
    gen.generate(Event::Start);
    assert!(matches!(gen.generate(Event::Verified { valid: false }), Action::Finish));
    assert_eq!(gen.errors, vec!["Invalid generated function."]);
    assert!(gen.module.functions[1].deleted);
    assert!(!gen.module.functions[0].deleted);
    // the statement behind it is lowered in the main function
    assert_eq!(
        insts(&gen, 0, 0),
        format!(
            "{:?}",
            vec![
                compute(0, Operation::Alloca(ValueType::Int), "a"),
                Inst::Store { pointer: 0, value: Value::Int(1) },
                Inst::ReturnVoid,
            ]
        )
    );
}

#[test]
fn script_errors() {
    let error = |s: Statement| run(vec![s, define("later", number(1))]).1;
    let expr = |e: Expression| error(Statement::Expression(e));
    assert_eq!(expr(var("nothing")), Some("Could not find variable."));
    assert_eq!(
        expr(Expression::Assignment { name: name("nothing"), value: Box::new(number(1)) }),
        Some("Undefined variable.")
    );
    assert_eq!(
        expr(binary(number(1), TType::Plus, constant(Constant::F32(0)))),
        Some("Only int are supported for math operations.")
    );
    assert_eq!(
        expr(binary(number(1), TType::And, number(1))),
        Some("Unsupported binary operand.")
    );
    assert_eq!(
        expr(if_(constant(Constant::String("a".to_string())), number(1), None)),
        Some("If condition needs to be a boolean or integer.")
    );
    assert_eq!(
        expr(Expression::Block(vec![], name("block"))),
        Some("Encountered unimplemented expression.")
    );
    assert_eq!(
        error(Statement::Class(Class { name: name("A"), methods: vec![] })),
        Some("Encountered unimplemented statement.")
    );
    assert_eq!(error(function("f", var("nothing"))), Some("Could not find variable."));
}

#[test]
fn statements_behind_an_error_are_lowered() {
    let (gen, error) = run(vec![
        Statement::Expression(var("nothing")),
        function("f", var("nothing")),
        define("later", number(1)),
        Statement::Class(Class { name: name("A"), methods: vec![] }),
    ]);
    assert_eq!(error, Some("Could not find variable."));
    assert_eq!(
        gen.errors,
        vec![
            "Could not find variable.",
            "Could not find variable.",
            "Encountered unimplemented statement.",
        ]
    );
    assert_eq!(
        insts(&gen, 0, 0),
        format!(
            "{:?}",
            vec![
                compute(0, Operation::Alloca(ValueType::Int), "later"),
                Inst::Store { pointer: 0, value: Value::Int(1) },
                Inst::ReturnVoid,
            ]
        )
    );
}

#[test]
fn literals_without_a_value_end_the_generator() {
    let array = || Expression::Literal(Literal::Array(vec![number(1)]), name("array"));
    let mut gen = IRGenerator::new(vec![Statement::Expression(array())]);
    assert!(matches!(gen.generate(Event::Start), Action::NoValue));
    assert_eq!(gen.phase, Phase::Finished);
    // it is not reached behind an error of the same statement
    let (gen, error) =
        run(vec![Statement::Expression(binary(var("nothing"), TType::Plus, array()))]);
    assert_eq!(error, Some("Could not find variable."));
    assert!(gen.statements.is_empty());
}

#[test]
fn every_value_has_its_own_number() {
    let (gen, error) = run(vec![
        define("a", number(1)),
        Statement::Expression(if_(
            binary(var("a"), TType::Less, number(3)),
            if_(var("a"), number(1), Some(binary(var("a"), TType::Star, var("a")))),
            Some(binary(var("a"), TType::Slash, number(2))),
        )),
        define("b", var("a")),
    ]);
    assert!(error.is_none());
    let mut ids: Vec<usize> = Vec::new();
    for function in gen.module.functions.iter() {
        for block in function.blocks.iter() {
            for i in block.insts.iter() {
                if let Inst::Compute { id, .. } = i {
                    ids.push(*id);
                }
            }
        }
    }
    ids.sort();
    let expected: Vec<usize> = (0..gen.module.values.len()).collect();
    assert_eq!(ids, expected);
}

#[test]
fn literals_are_values() {
    let (gen, error) = run(vec![
        define("a", constant(Constant::F32(7))),
        define("b", constant(Constant::F64(8))),
        define("c", constant(Constant::String("größe".to_string()))),
    ]);
    assert!(error.is_none());
    assert_eq!(
        gen.module.values,
        vec![ValueType::Float, ValueType::Float, ValueType::Text(7)]
    );
}
