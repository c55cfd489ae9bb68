//! What instructions each part of a script consists of, and where they go.

use crate::ast::statement::{Function, Statement, Variable};
use crate::ast::{Constant, Expression, Literal};
use crate::codegen::generator::{error_texts, reaction, Event, IRGenerator};
use crate::codegen::module::{
    BlockId, FunctionView, Incoming, InstView, ModuleView, Operation, Predicate, Value, ValueType,
};
use crate::codegen::rules::{
    at_main, enter_function, lower, lower_assignment, lower_behind, lower_binary, lower_else,
    lower_function, lower_if, lower_operator, lower_statements, lower_test, lower_variable,
    predicate, CodeView, Fault, Stop,
};
use crate::lexer::token::{TType, Token};
use vstd::prelude::*;

verus! {

/// Has an expression a value?
pub open spec fn runs(s: CodeView, e: Expression) -> bool {
    lower(s, e).1 is Ok
}

/// The value of an expression.
pub open spec fn value_of(s: CodeView, e: Expression) -> Value {
    lower(s, e).1->Ok_0
}

/// The state behind an expression.
pub open spec fn behind(s: CodeView, e: Expression) -> CodeView {
    lower(s, e).0
}

/// The instructions of a block.
pub open spec fn insts_at(s: CodeView, block: BlockId) -> Seq<InstView> {
    s.module.functions[block.0 as int].blocks[block.1 as int].insts
}

/// The name of a block.
pub open spec fn block_name(s: CodeView, block: BlockId) -> Seq<char> {
    s.module.functions[block.0 as int].blocks[block.1 as int].name
}

/// Are all functions but one, and all blocks of that one but one, as they were?
pub open spec fn others_stay(before: ModuleView, now: ModuleView, block: BlockId) -> bool {
    let f = block.0 as int;
    &&& now.functions.len() == before.functions.len()
    &&& forall|g: int|
        0 <= g < before.functions.len() && g != f ==> #[trigger] now.functions[g]
            == before.functions[g]
    &&& now.functions[f].name == before.functions[f].name
    &&& now.functions[f].deleted == before.functions[f].deleted
    &&& now.functions[f].blocks.len() == before.functions[f].blocks.len()
    &&& forall|c: int|
        0 <= c < before.functions[f].blocks.len() && c != block.1
            ==> #[trigger] now.functions[f].blocks[c] == before.functions[f].blocks[c]
}

/// Were just these instructions added to the end of the current block, and values
/// of these types?
pub open spec fn appends(
    before: CodeView,
    now: CodeView,
    insts: Seq<InstView>,
    types: Seq<ValueType>,
) -> bool {
    let place = before.module.position;
    &&& insts_at(now, place) =~= insts_at(before, place) + insts
    &&& others_stay(before.module, now.module, place)
    &&& now.module.position == place
    &&& now.module.values =~= before.module.values + types
    &&& now.module.incoming == before.module.incoming
    &&& now.variables == before.variables
    &&& now.current_fn == before.current_fn
}

/// The value with a number that is counted from the values so far.
pub open spec fn numbered(s: CodeView, i: int, ty: ValueType) -> Value {
    Value::Inst((s.module.values.len() + i) as usize, ty)
}

/// An instruction that computes the value with a number that is counted from the
/// values so far.
pub open spec fn computes(s: CodeView, i: int, operation: Operation, name: Seq<char>) -> InstView {
    InstView::Compute { id: (s.module.values.len() + i) as usize, operation, name }
}

/// A literal is its own value and needs no instruction.
pub proof fn law_literals_are_their_value(s: CodeView, literal: Literal, token: Token)
    ensures
        ({
            let e = Expression::Literal(literal, token);
            &&& behind(s, e) == s
            &&& match literal {
                Literal::Constant(Constant::Bool(b)) => runs(s, e) && value_of(s, e) == Value::Bool(
                    b,
                ),
                Literal::Constant(Constant::I64(n)) => runs(s, e) && value_of(s, e) == Value::Int(
                    n,
                ),
                Literal::Constant(Constant::F32(n)) => runs(s, e) && value_of(s, e) == Value::Float(
                    n,
                ),
                Literal::Constant(Constant::F64(n)) => runs(s, e) && value_of(s, e)
                    == Value::RoundedFloat(n),
                Literal::Constant(Constant::String(text)) => runs(s, e) && value_of(s, e)
                    == Value::Text(text),
                _ => lower(s, e).1 == Err::<Value, Fault>(Fault::NoValue),
            }
        }),
{
    reveal_with_fuel(lower, 2);
}

/// A variable is one load from its own memory, with the type of what is there.
pub proof fn law_variables_are_loaded_from_their_own_memory(s: CodeView, name: Token)
    requires
        s.wf(),
    ensures
        ({
            let e = Expression::Variable(name);
            let pointer = s.variables[name.lexeme@];
            let ty = s.module.values[pointer as int];
            &&& runs(s, e) <==> s.variables.contains_key(name.lexeme@)
            &&& runs(s, e) ==> value_of(s, e) == numbered(s, 0, ty)
            &&& runs(s, e) ==> appends(
                s,
                behind(s, e),
                seq![computes(s, 0, Operation::Load(pointer), name.lexeme@)],
                seq![ty],
            )
            &&& !runs(s, e) ==> behind(s, e) == s
        }),
{
    reveal_with_fuel(lower, 2);
}

/// An assignment computes its value, stores it in the memory of its own variable,
/// and has that value. It needs a variable.
pub proof fn law_assignments_store_in_their_own_memory(s: CodeView, name: Token, value: Expression)
    requires
        runs(s, value),
        behind(s, value).wf(),
    ensures
        ({
            let e = Expression::Assignment { name, value: Box::new(value) };
            let t = behind(s, value);
            &&& runs(s, e) <==> t.variables.contains_key(name.lexeme@)
            &&& runs(s, e) ==> value_of(s, e) == value_of(s, value)
            &&& runs(s, e) ==> appends(
                t,
                behind(s, e),
                seq![
                    InstView::Store {
                        pointer: t.variables[name.lexeme@],
                        value: value_of(s, value),
                    },
                ],
                Seq::empty(),
            )
            &&& !runs(s, e) ==> lower(s, e) == (
                t,
                Err::<Value, Fault>(Fault::Message("Undefined variable."@)),
            )
        }),
{
    let e = Expression::Assignment { name, value: Box::new(value) };
    assert(lower(s, e) == lower_assignment(s, name, value));
}

/// What an operator computes from its operands, which keep their order.
pub open spec fn operation(operator: TType, left: Value, right: Value) -> Option<Operation> {
    match operator {
        TType::Plus => Some(Operation::Add(left, right)),
        TType::Minus => Some(Operation::Sub(left, right)),
        TType::Star => Some(Operation::Mul(left, right)),
        TType::Greater => Some(Operation::Compare(Predicate::Greater, left, right)),
        TType::GreaterEqual => Some(Operation::Compare(Predicate::GreaterEqual, left, right)),
        TType::Less => Some(Operation::Compare(Predicate::Less, left, right)),
        TType::LessEqual => Some(Operation::Compare(Predicate::LessEqual, left, right)),
        TType::EqualEqual => Some(Operation::Compare(Predicate::Equal, left, right)),
        TType::BangEqual => Some(Operation::Compare(Predicate::NotEqual, left, right)),
        _ => None,
    }
}

/// The name of what an operator computes.
pub open spec fn operation_name(operator: TType) -> Seq<char> {
    match operator {
        TType::Plus => "tmpadd"@,
        TType::Minus => "tmpsub"@,
        TType::Star => "tmpmul"@,
        _ => "tmpcmp"@,
    }
}

/// The operands of an operator are computed from left to right, and keep their
/// order in what is computed from them. A sum, a difference and a product have the
/// type of the left operand, a comparison is a boolean.
pub proof fn law_operators_compute_from_left_to_right(
    s: CodeView,
    left: Expression,
    operator: Token,
    right: Expression,
)
    requires
        runs(s, left),
        runs(behind(s, left), right),
        behind(behind(s, left), right).wf(),
        operator.t_type != TType::Slash,
    ensures
        ({
            let e = Expression::Binary { left: Box::new(left), operator, right: Box::new(right) };
            let l = value_of(s, left);
            let r = value_of(behind(s, left), right);
            let t = behind(behind(s, left), right);
            let computed = operation(operator.t_type, l, r);
            let ty = if computed matches Some(Operation::Compare(..)) {
                ValueType::Bool
            } else {
                l.ty()
            };
            &&& runs(s, e) <==> l.ty().integer() && r.ty().integer() && computed is Some
            &&& runs(s, e) ==> value_of(s, e) == numbered(t, 0, ty)
            &&& runs(s, e) ==> appends(
                t,
                behind(s, e),
                seq![computes(t, 0, computed->0, operation_name(operator.t_type))],
                seq![ty],
            )
            &&& !runs(s, e) ==> behind(s, e) == t
        }),
{
    let e = Expression::Binary { left: Box::new(left), operator, right: Box::new(right) };
    let l = value_of(s, left);
    let r = value_of(behind(s, left), right);
    let t = behind(behind(s, left), right);
    assert(lower(s, e) == lower_binary(s, left, operator, right));
    if l.ty().integer() && r.ty().integer() {
        assert(lower(s, e) == lower_operator(t, l, operator.t_type, r));
    }
}

/// A quotient is that of the operands as floating point numbers, the left one
/// divided by the right one, as an integer again.
pub proof fn law_quotients_divide_the_left_by_the_right(
    s: CodeView,
    left: Expression,
    operator: Token,
    right: Expression,
)
    requires
        runs(s, left),
        runs(behind(s, left), right),
        behind(behind(s, left), right).wf(),
        operator.t_type == TType::Slash,
    ensures
        ({
            let e = Expression::Binary { left: Box::new(left), operator, right: Box::new(right) };
            let l = value_of(s, left);
            let r = value_of(behind(s, left), right);
            let t = behind(behind(s, left), right);
            let quotient = Operation::FloatDiv(
                numbered(t, 0, ValueType::Double),
                numbered(t, 1, ValueType::Double),
            );
            let whole = Operation::FloatToSigned(numbered(t, 2, ValueType::Double));
            &&& runs(s, e) <==> l.ty().integer() && r.ty().integer()
            &&& runs(s, e) ==> value_of(s, e) == numbered(t, 3, ValueType::Int)
            &&& runs(s, e) ==> appends(
                t,
                behind(s, e),
                seq![
                    computes(t, 0, Operation::SignedToFloat(l), "tmpdivconv"@),
                    computes(t, 1, Operation::SignedToFloat(r), "tmpdivconv"@),
                    computes(t, 2, quotient, "tmpdiv"@),
                    computes(t, 3, whole, "tmpdivconv"@),
                ],
                seq![ValueType::Double, ValueType::Double, ValueType::Double, ValueType::Int],
            )
        }),
{
    let e = Expression::Binary { left: Box::new(left), operator, right: Box::new(right) };
    let l = value_of(s, left);
    let r = value_of(behind(s, left), right);
    let t = behind(behind(s, left), right);
    assert(lower(s, e) == lower_binary(s, left, operator, right));
}

/// An operand that fails is the error of the operation.
pub proof fn law_operands_fail_in_order(
    s: CodeView,
    left: Expression,
    operator: Token,
    right: Expression,
)
    ensures
        ({
            let e = Expression::Binary { left: Box::new(left), operator, right: Box::new(right) };
            &&& !runs(s, left) ==> lower(s, e) == lower(s, left)
            &&& runs(s, left) && !runs(behind(s, left), right) ==> lower(s, e) == lower(
                behind(s, left),
                right,
            )
        }),
{
    let e = Expression::Binary { left: Box::new(left), operator, right: Box::new(right) };
    assert(lower(s, e) == lower_binary(s, left, operator, right));
}

/// The place of the block in which a branch of a condition starts, counted from the
/// number of blocks that were there.
pub open spec fn block_of(s: CodeView, i: int) -> BlockId {
    (
        s.current_fn,
        (s.module.functions[s.current_fn as int].blocks.len() + i) as usize,
    )
}

/// A condition is tested at the end of the current block: where the value is not
/// false, control goes to the block of the first branch, else to that of the other
/// branch, or behind both where there is none. The next instruction is the first
/// one of the first branch.
pub proof fn law_conditions_choose_their_branch(s: CodeView, condition: Value, has_else: bool)
    requires
        s.wf(),
        s.blocks() + 3 <= usize::MAX,
    ensures
        ({
            let t = lower_test(s, condition, has_else);
            let place = s.module.position;
            &&& insts_at(t, place) =~= insts_at(s, place) + seq![
                computes(
                    s,
                    0,
                    Operation::Compare(Predicate::NotEqual, condition, Value::Bool(false)),
                    "ifcond"@,
                ),
                InstView::CondBranch {
                    condition: numbered(s, 0, ValueType::Bool),
                    then_block: block_of(s, 0),
                    else_block: block_of(
                        s,
                        if has_else {
                            1
                        } else {
                            2
                        },
                    ),
                },
            ]
            &&& t.module.position == block_of(s, 0)
            &&& t.blocks() == s.blocks() + 3
            &&& forall|i: int|
                0 <= i < 3 ==> (#[trigger] insts_at(t, block_of(s, i))).len() == 0
            &&& block_name(t, block_of(s, 0)) == "then"@
            &&& block_name(t, block_of(s, 1)) == "else"@
            &&& block_name(t, block_of(s, 2)) == "ifcont"@
            &&& t.module.values =~= s.module.values.push(ValueType::Bool)
            &&& t.module.incoming == s.module.incoming
            &&& t.variables == s.variables
            &&& t.current_fn == s.current_fn
        }),
{
}

/// The state behind the first branch of a condition, whose blocks start behind those
/// of `s`: control goes on in the block behind both branches, which starts with the
/// phi.
pub open spec fn joined(s: CodeView, then_end: CodeView) -> CodeView {
    let join = block_of(s, 2);
    then_end.emit(InstView::Branch(join)).at(join.0, join.1).compute(
        Operation::Phi,
        ValueType::Int,
        "ifphi"@,
    )
}

/// The state at the start of the other branch of a condition.
pub open spec fn other_start(s: CodeView, then_end: CodeView) -> CodeView {
    joined(s, then_end).at(block_of(s, 1).0, block_of(s, 1).1)
}

/// The state at the start of the first branch of a condition.
pub open spec fn first_start(s: CodeView, condition: Expression, has_else: bool) -> CodeView {
    lower_test(behind(s, condition), value_of(s, condition), has_else)
}

/// The branches of a condition meet in a block behind them, and its value there is
/// the phi: for control that comes from the block in which the first branch ends it
/// is the value of the first branch, for control that comes from the block in which
/// the other branch ends it is the value of the other branch. Both blocks end with
/// a branch to the block behind them, where the next instruction goes.
pub proof fn law_branches_meet_with_their_own_values(
    s: CodeView,
    condition: Expression,
    then_b: Expression,
    else_b: Expression,
)
    requires
        runs(s, condition),
        value_of(s, condition).ty().integer(),
        behind(s, condition).wf(),
        behind(s, condition).blocks() + 3 <= usize::MAX,
        runs(first_start(s, condition, true), then_b),
        behind(first_start(s, condition, true), then_b).wf(),
        behind(first_start(s, condition, true), then_b).kept(first_start(s, condition, true)),
        ({
            let s2 = behind(first_start(s, condition, true), then_b);
            behind(other_start(behind(s, condition), s2), else_b).wf()
        }),
    ensures
        ({
            let e = Expression::If {
                condition: Box::new(condition),
                then_branch: Box::new(then_b),
                else_branch: Some(Box::new(else_b)),
            };
            let s1 = behind(s, condition);
            let start = first_start(s, condition, true);
            let s2 = behind(start, then_b);
            let other = other_start(s1, s2);
            let s3 = behind(other, else_b);
            let join = block_of(s1, 2);
            let phi = s2.module.values.len() as usize;
            let then_end = s2.module.position;
            let else_end = s3.module.position;
            let t = behind(s, e);
            &&& runs(s, e) <==> runs(other, else_b)
            &&& other.module.position == block_of(s1, 1)
            &&& insts_at(other, then_end)[insts_at(s2, then_end).len() as int] == InstView::Branch(
                join,
            )
            &&& insts_at(other, join).last() == (InstView::Compute {
                id: phi,
                operation: Operation::Phi,
                name: "ifphi"@,
            })
            &&& other.module.values == s2.module.values.push(ValueType::Int)
            &&& other.module.incoming == s2.module.incoming
            &&& other.variables == s2.variables
            &&& runs(s, e) ==> {
                &&& value_of(s, e) == Value::Inst(phi, ValueType::Int)
                &&& t.module.position == (s3.current_fn, join.1)
                &&& t.module.incoming == s3.module.incoming + seq![
                    Incoming { phi, value: value_of(start, then_b), block: then_end },
                    Incoming { phi, value: value_of(other, else_b), block: else_end },
                ]
                &&& insts_at(t, else_end) == insts_at(s3, else_end).push(InstView::Branch(join))
                &&& others_stay(s3.module, t.module, else_end)
                &&& t.module.values == s3.module.values
                &&& t.variables == s3.variables
                &&& t.current_fn == s3.current_fn
            }
        }),
{
    let e = Expression::If {
        condition: Box::new(condition),
        then_branch: Box::new(then_b),
        else_branch: Some(Box::new(else_b)),
    };
    let s1 = behind(s, condition);
    let start = first_start(s, condition, true);
    law_conditions_choose_their_branch(s1, value_of(s, condition), true);
    let s2 = behind(start, then_b);
    let other = other_start(s1, s2);
    let join = block_of(s1, 2);
    assert(lower(s, e) == lower_if(s, condition, then_b, Some(Box::new(else_b))));
    assert(s2.module.has_block(join.0, join.1));
    let s4 = joined(s1, s2);
    let phi = s2.module.values.len() as usize;
    let r = lower_else(
        s4,
        Some(Box::new(else_b)),
        block_of(s1, 1).1,
        join.1,
        phi,
        value_of(start, then_b),
        s2.module.position,
    );
    assert(r.1 is Ok <==> runs(other, else_b));
    assert(s4 == s2.emit(InstView::Branch((s2.current_fn, join.1))).at(
        s2.current_fn,
        join.1,
    ).compute(Operation::Phi, ValueType::Int, "ifphi"@));
}

/// A condition without another branch goes on behind its branch, where the next
/// instruction goes; the phi there has no values.
pub proof fn law_single_branches_go_on(s: CodeView, condition: Expression, then_b: Expression)
    requires
        runs(s, condition),
        value_of(s, condition).ty().integer(),
        behind(s, condition).wf(),
        behind(s, condition).blocks() + 3 <= usize::MAX,
        runs(first_start(s, condition, false), then_b),
        behind(first_start(s, condition, false), then_b).wf(),
        behind(first_start(s, condition, false), then_b).kept(first_start(s, condition, false)),
    ensures
        ({
            let e = Expression::If {
                condition: Box::new(condition),
                then_branch: Box::new(then_b),
                else_branch: None,
            };
            let s1 = behind(s, condition);
            let s2 = behind(first_start(s, condition, false), then_b);
            let join = block_of(s1, 2);
            let phi = s2.module.values.len() as usize;
            let then_end = s2.module.position;
            let t = behind(s, e);
            &&& runs(s, e)
            &&& value_of(s, e) == Value::Inst(phi, ValueType::Int)
            &&& t.module.position == join
            &&& insts_at(t, then_end)[insts_at(s2, then_end).len() as int] == InstView::Branch(join)
            &&& insts_at(t, join).last() == (InstView::Compute {
                id: phi,
                operation: Operation::Phi,
                name: "ifphi"@,
            })
            &&& t.module.values == s2.module.values.push(ValueType::Int)
            &&& t.module.incoming == s2.module.incoming
            &&& t.variables == s2.variables
        }),
{
    let e = Expression::If {
        condition: Box::new(condition),
        then_branch: Box::new(then_b),
        else_branch: None,
    };
    let s1 = behind(s, condition);
    law_conditions_choose_their_branch(s1, value_of(s, condition), false);
    let start = first_start(s, condition, false);
    let s2 = behind(start, then_b);
    let join = block_of(s1, 2);
    assert(lower(s, e) == lower_if(s, condition, then_b, None));
    assert(s2.module.has_block(join.0, join.1));
    let s4 = joined(s1, s2);
    let phi = s2.module.values.len() as usize;
    let r = lower_else(
        s4,
        None,
        block_of(s1, 1).1,
        join.1,
        phi,
        value_of(start, then_b),
        s2.module.position,
    );
    assert(r == (s4, Ok::<(), Fault>(())));
}

/// A condition is an integer or a boolean, and is computed before its branches.
pub proof fn law_conditions_are_integers(
    s: CodeView,
    condition: Expression,
    then_b: Expression,
    else_b: Option<Box<Expression>>,
)
    ensures
        ({
            let e = Expression::If {
                condition: Box::new(condition),
                then_branch: Box::new(then_b),
                else_branch: else_b,
            };
            &&& !runs(s, condition) ==> lower(s, e) == lower(s, condition)
            &&& runs(s, condition) && !value_of(s, condition).ty().integer() ==> lower(s, e) == (
                behind(s, condition),
                Err::<Value, Fault>(
                    Fault::Message("If condition needs to be a boolean or integer."@),
                ),
            )
        }),
{
    let e = Expression::If {
        condition: Box::new(condition),
        then_branch: Box::new(then_b),
        else_branch: else_b,
    };
    assert(lower(s, e) == lower_if(s, condition, then_b, else_b));
}

/// A declaration computes its value and stores it in new memory of its type, which
/// is reserved at the very beginning of the function. The name stands for that
/// memory from then on; all other names stand for what they did.
pub proof fn law_declarations_get_their_own_memory(s: CodeView, var: Variable)
    requires
        runs(s, var.initializer),
        behind(s, var.initializer).wf(),
    ensures
        ({
            let s1 = behind(s, var.initializer);
            let value = value_of(s, var.initializer);
            let (t, r) = lower_variable(s, var);
            let pointer = s1.module.values.len() as usize;
            let place = s1.module.position;
            let entry = (s1.current_fn, 0usize);
            let alloca = computes(s1, 0, Operation::Alloca(value.ty()), var.name.lexeme@);
            let store = InstView::Store { pointer, value };
            &&& r is Ok
            &&& t.variables.contains_key(var.name.lexeme@)
            &&& t.variables[var.name.lexeme@] == pointer
            &&& t.module.values == s1.module.values.push(value.ty())
            &&& forall|other: Seq<char>|
                other != var.name.lexeme@ ==> (#[trigger] t.variables.contains_key(other)
                    <==> s1.variables.contains_key(other)) && (t.variables.contains_key(other)
                    ==> t.variables[other] == s1.variables[other])
            &&& insts_at(t, entry)[0] == alloca
            &&& insts_at(t, place).last() == store
            &&& place == entry ==> insts_at(t, entry) =~= seq![alloca] + insts_at(s1, entry) + seq![
                store,
            ]
            &&& place != entry ==> insts_at(t, entry) =~= seq![alloca] + insts_at(s1, entry)
                && insts_at(t, place) =~= insts_at(s1, place).push(store)
            &&& t.module.position == place
            &&& t.current_fn == s1.current_fn
            &&& t.module.incoming == s1.module.incoming
        }),
{
}

/// A declaration whose value fails, fails by it.
pub proof fn law_declarations_fail_by_their_value(s: CodeView, var: Variable)
    ensures
        lower(s, var.initializer).1 matches Err(f) ==> lower_variable(s, var) == (
            behind(s, var.initializer),
            Err::<(), Fault>(f),
        ),
{
}

/// A function is a new one with its own name: its body goes into a block of its own
/// and is followed by a return. The functions before it stay in their places.
pub proof fn law_functions_end_with_a_return(s: CodeView, func: Function)
    requires
        s.module.functions.len() < usize::MAX,
    ensures
        ({
            let f = s.module.functions.len() as usize;
            let inner = enter_function(s, func.name.lexeme@);
            let (t, r) = lower_function(s, func);
            let s1 = behind(inner, func.body);
            &&& inner.module.functions.len() == f + 1
            &&& inner.module.functions[f as int].name == func.name.lexeme@
            &&& inner.module.functions[f as int].blocks.len() == 1
            &&& insts_at(inner, (f, 0)).len() == 0
            &&& inner.module.functions[f as int].blocks[0].name == "entry"@
            &&& !inner.module.functions[f as int].deleted
            &&& inner.module.position == (f, 0usize)
            &&& inner.current_fn == f
            &&& inner.variables == s.variables
            &&& inner.module.values == s.module.values
            &&& inner.module.incoming == s.module.incoming
            &&& forall|g: int|
                0 <= g < f ==> #[trigger] inner.module.functions[g] == s.module.functions[g]
            &&& match lower(inner, func.body).1 {
                Err(e) => (t, r) == (s1, Err::<usize, Fault>(e)),
                Ok(_) => r == Ok::<usize, Fault>(f) && (s1.wf() ==> appends(
                    s1,
                    t,
                    seq![InstView::ReturnVoid],
                    Seq::empty(),
                )),
            }
        }),
{
}

/// Between statements, the next instruction goes to the end of the main function;
/// nothing else changes.
pub proof fn law_statements_go_to_the_main_function(s: CodeView, main_fn: usize)
    requires
        s.module.has_block(main_fn, 0),
        s.module.functions[main_fn as int].blocks.len() <= usize::MAX,
    ensures
        ({
            let t = at_main(s, main_fn);
            &&& t.current_fn == main_fn
            &&& t.module.position.0 == main_fn
            &&& t.module.position.1 == s.module.functions[main_fn as int].blocks.len() - 1
            &&& t.module.functions == s.module.functions
            &&& t.module.values == s.module.values
            &&& t.module.incoming == s.module.incoming
            &&& t.variables == s.variables
        }),
{
}

/// What becomes of a statement that is no function: the state behind it, and the
/// error that it has.
pub open spec fn statement_result(s: CodeView, statement: Statement) -> (CodeView, Option<Fault>) {
    match statement {
        Statement::Expression(e) => (
            behind(s, e),
            if runs(s, e) {
                None
            } else {
                Some(lower(s, e).1->Err_0)
            },
        ),
        Statement::Variable(var) => (
            lower_variable(s, var).0,
            if lower_variable(s, var).1 is Ok {
                None
            } else {
                Some(lower_variable(s, var).1->Err_0)
            },
        ),
        _ => (s, Some(Fault::Message("Encountered unimplemented statement."@))),
    }
}

/// The last statement is lowered first. The others follow it in the main function,
/// where its error is noted if it has one; a literal without a value ends it all.
pub proof fn law_statements_are_lowered_from_the_last(
    s: CodeView,
    errors: Seq<Seq<char>>,
    rest: Seq<Statement>,
    statement: Statement,
    main_fn: usize,
)
    requires
        !(statement is Function),
    ensures
        ({
            let (t, fault) = statement_result(s, statement);
            lower_statements(s, errors, rest.push(statement), main_fn) == match fault {
                None => lower_statements(at_main(t, main_fn), errors, rest, main_fn),
                Some(Fault::Message(text)) => lower_statements(
                    at_main(t, main_fn),
                    errors.push(text),
                    rest,
                    main_fn,
                ),
                Some(Fault::NoValue) => (t, errors, rest, Stop::NoValue),
            }
        }),
{
    assert(rest.push(statement).drop_last() =~= rest);
    let (t, fault) = statement_result(s, statement);
    if let Some(f) = fault {
        assert(lower_statements(s, errors, rest.push(statement), main_fn) == lower_behind(
            t,
            errors,
            f,
            rest,
            main_fn,
        ));
    }
}

/// A function that is lowered stops the lowering of statements until it is known to
/// be valid, with the others left. One with an error is noted like any statement.
pub proof fn law_functions_wait_to_be_verified(
    s: CodeView,
    errors: Seq<Seq<char>>,
    rest: Seq<Statement>,
    func: Function,
    main_fn: usize,
)
    ensures
        ({
            let (t, r) = lower_function(s, func);
            lower_statements(s, errors, rest.push(Statement::Function(func)), main_fn) == match r {
                Ok(f) => (t, errors, rest, Stop::Verify(f)),
                Err(Fault::Message(text)) => lower_statements(
                    at_main(t, main_fn),
                    errors.push(text),
                    rest,
                    main_fn,
                ),
                Err(Fault::NoValue) => (t, errors, rest, Stop::NoValue),
            }
        }),
{
    assert(rest.push(Statement::Function(func)).drop_last() =~= rest);
    let (t, r) = lower_function(s, func);
    if let Err(f) = r {
        assert(lower_statements(s, errors, rest.push(Statement::Function(func)), main_fn)
            == lower_behind(t, errors, f, rest, main_fn));
    }
}

/// Behind the last statement the main function returns.
pub proof fn law_main_function_returns(s: CodeView, errors: Seq<Seq<char>>, main_fn: usize)
    requires
        s.module.has_block(main_fn, 0),
        s.module.functions[main_fn as int].blocks.len() <= usize::MAX,
    ensures
        ({
            let (t, noted, rest, stop) = lower_statements(s, errors, Seq::empty(), main_fn);
            let blocks = s.module.functions[main_fn as int].blocks;
            &&& stop is Finish && rest.len() == 0 && noted == errors
            &&& insts_at(t, (main_fn, (blocks.len() - 1) as usize)) == blocks.last().insts.push(
                InstView::ReturnVoid,
            )
            &&& others_stay(s.module, t.module, (main_fn, (blocks.len() - 1) as usize))
            &&& t.module.values == s.module.values
            &&& t.module.incoming == s.module.incoming
        }),
{
}

/// Other expressions are an error, and need no instruction.
pub proof fn law_other_expressions_are_errors(s: CodeView, e: Expression)
    requires
        !(e is Assignment),
        !(e is Binary),
        !(e is If),
        !(e is Literal),
        !(e is Variable),
    ensures
        lower(s, e) == (
            s,
            Err::<Value, Fault>(Fault::Message("Encountered unimplemented expression."@)),
        ),
{
}

/// A variable that was not declared is an error, as is an assignment whose value
/// fails.
pub proof fn law_unknown_variables_are_errors(s: CodeView, name: Token, value: Expression)
    ensures
        !s.variables.contains_key(name.lexeme@) ==> lower(s, Expression::Variable(name)).1 == Err::<
            Value,
            Fault,
        >(Fault::Message("Could not find variable."@)),
        !runs(s, value) ==> lower(s, Expression::Assignment { name, value: Box::new(value) })
            == lower(s, value),
{
    let e = Expression::Assignment { name, value: Box::new(value) };
    assert(lower(s, e) == lower_assignment(s, name, value));
}

/// The generator starts with the main function, named `entry`, and lowers the
/// statements into it. When a function was verified it goes on behind the main
/// function; an invalid one is deleted and noted before.
pub proof fn law_generator_goes_on_behind_the_main_function(gen: IRGenerator, valid: bool)
    ensures
        ({
            let errors = error_texts(gen.errors@);
            let s = enter_function(gen@, "entry"@);
            reaction(gen, Event::Start) == lower_statements(
                s,
                errors,
                gen.statements@,
                gen@.module.functions.len() as usize,
            )
        }),
        ({
            let errors = error_texts(gen.errors@);
            let function = gen.phase->Waiting_0;
            let now = if valid {
                gen@
            } else {
                CodeView { module: gen@.module.delete(function), ..gen@ }
            };
            let noted = if valid {
                errors
            } else {
                errors.push("Invalid generated function."@)
            };
            reaction(gen, Event::Verified { valid }) == lower_statements(
                at_main(now, gen.main_fn),
                noted,
                gen.statements@,
                gen.main_fn,
            )
        }),
{
}

/// A function that turns out to be invalid is marked as deleted, and stays in its
/// place with its code, as do all others.
pub proof fn law_only_the_invalid_function_is_deleted(module: ModuleView, function: usize)
    requires
        function < module.functions.len(),
    ensures
        ({
            let now = module.delete(function);
            let f = function as int;
            &&& now.functions.len() == module.functions.len()
            &&& now.functions[f] == (FunctionView { deleted: true, ..module.functions[f] })
            &&& forall|g: int|
                0 <= g < module.functions.len() && g != f ==> #[trigger] now.functions[g]
                    == module.functions[g]
            &&& now.values == module.values
            &&& now.position == module.position
        }),
{
}

/// The operators that compare or combine truths give booleans, those that compute
/// with numbers do not.
pub proof fn law_comparisons_give_booleans(operator: TType)
    ensures
        operator.logical() <==> predicate(operator) is Some || operator is And || operator is Or
            || operator is Is,
        operator is Plus || operator is Minus || operator is Star || operator is Slash
            ==> !operator.logical(),
        operator is Greater || operator is Less || operator is GreaterEqual || operator is LessEqual
            || operator is EqualEqual || operator is BangEqual ==> operator.logical(),
{
}

} // verus!
