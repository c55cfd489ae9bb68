//! What the code for each kind of expression consists of: the code of its parts,
//! each in its place, generated in the order of the source.

use crate::ast::{Constant, Expression, Literal, VariableDef};
use crate::gir::declaration::{ADTType, LocalView, VariableView};
use crate::gir::expression::{none_value, ExprView};
use crate::gir::module::Member;
use crate::gir::types::{Instance, Type};
use crate::lexer::token::{TType, Token, TokenView};
use crate::mir::generator::model::{Failure, GenView};
use crate::mir::generator::rules::{
    binary_of, call_function, gen_all, gen_args_from, gen_expr, gen_get, gen_get_static,
    gen_index_set, gen_set, gen_values,
};
use vstd::prelude::*;

verus! {

/// Is there code for an expression?
pub open spec fn works(s: GenView, e: Expression) -> bool {
    gen_expr(s, e).1 is Ok
}

/// The code for an expression.
pub open spec fn code(s: GenView, e: Expression) -> ExprView {
    gen_expr(s, e).1->Ok_0
}

/// The state behind an expression.
pub open spec fn after(s: GenView, e: Expression) -> GenView {
    gen_expr(s, e).0
}

/// Are these the codes of expressions in a row, and the states between them?
pub open spec fn in_row(
    states: Seq<GenView>,
    exprs: Seq<Expression>,
    codes: Seq<ExprView>,
) -> bool {
    &&& states.len() == exprs.len() + 1
    &&& codes.len() == exprs.len()
    &&& forall|i: int|
        0 <= i < exprs.len() ==> works(states[i], #[trigger] exprs[i]) && codes[i] == code(
            states[i],
            exprs[i],
        ) && states[i + 1] == after(states[i], exprs[i])
}

/// Without the last one, expressions in a row are in a row.
proof fn lemma_row_front(states: Seq<GenView>, exprs: Seq<Expression>, codes: Seq<ExprView>)
    requires
        in_row(states, exprs, codes),
        exprs.len() > 0,
    ensures
        in_row(states.drop_last(), exprs.drop_last(), codes.drop_last()),
        works(states[exprs.len() - 1], exprs.last()),
        codes.last() == code(states[exprs.len() - 1], exprs.last()),
        states.last() == after(states[exprs.len() - 1], exprs.last()),
{
    assert forall|i: int| 0 <= i < exprs.drop_last().len() implies works(
        states.drop_last()[i],
        #[trigger] exprs.drop_last()[i],
    ) && codes.drop_last()[i] == code(states.drop_last()[i], exprs.drop_last()[i])
        && states.drop_last()[i + 1] == after(states.drop_last()[i], exprs.drop_last()[i]) by {
        assert(exprs.drop_last()[i] == exprs[i]);
    }
    assert(exprs.last() == exprs[exprs.len() - 1]);
}

/// The first `k` of a list of expressions are generated in a row.
pub proof fn lemma_all(
    expressions: Vec<Expression>,
    k: nat,
    states: Seq<GenView>,
    codes: Seq<ExprView>,
    done: Seq<ExprView>,
)
    requires
        k <= expressions@.len(),
        in_row(states, expressions@.take(k as int), codes),
    ensures
        gen_all(states[0], expressions, 0, done) == gen_all(
            states[k as int],
            expressions,
            k,
            done + codes,
        ),
    decreases k,
{
    let exprs = expressions@.take(k as int);
    if k > 0 {
        let j = (k - 1) as nat;
        lemma_row_front(states, exprs, codes);
        assert(exprs.drop_last() =~= expressions@.take(j as int));
        lemma_all(expressions, j, states.drop_last(), codes.drop_last(), done);
        assert(exprs.last() == expressions@[j as int]);
        assert((done + codes.drop_last()).push(codes.last()) =~= done + codes);
    } else {
        assert(done + codes =~= done);
    }
}

/// Have the expressions the types of the parameters from a place on?
pub open spec fn fits(parameters: Seq<Type>, place: nat, codes: Seq<ExprView>) -> bool {
    forall|i: int|
        0 <= i < codes.len() && place + i < parameters.len() ==> (#[trigger] codes[i]).ty()
            == parameters[place + i]
}

/// The first `k` of the arguments of a call are generated in a row if they fit.
pub proof fn lemma_args(
    parameters: Seq<Type>,
    arguments: Vec<Expression>,
    k: nat,
    states: Seq<GenView>,
    codes: Seq<ExprView>,
    first: Seq<ExprView>,
)
    requires
        k <= arguments@.len(),
        in_row(states, arguments@.take(k as int), codes),
        fits(parameters, first.len(), codes),
    ensures
        gen_args_from(states[0], parameters, arguments, 0, first) == gen_args_from(
            states[k as int],
            parameters,
            arguments,
            k,
            first + codes,
        ),
    decreases k,
{
    let exprs = arguments@.take(k as int);
    if k > 0 {
        let j = (k - 1) as nat;
        lemma_row_front(states, exprs, codes);
        assert(exprs.drop_last() =~= arguments@.take(j as int));
        assert forall|i: int|
            0 <= i < codes.drop_last().len() && first.len() + i < parameters.len() implies (
        #[trigger] codes.drop_last()[i]).ty() == parameters[first.len() + i] by {
            assert(codes.drop_last()[i] == codes[i]);
        }
        lemma_args(parameters, arguments, j, states.drop_last(), codes.drop_last(), first);
        assert(exprs.last() == arguments@[j as int]);
        assert(codes.last() == codes[j as int]);
        assert((first + codes.drop_last()).push(codes.last()) =~= first + codes);
    } else {
        assert(first + codes =~= first);
    }
}

/// Have all values one type?
pub open spec fn alike(codes: Seq<ExprView>) -> bool {
    forall|i: int| 0 <= i < codes.len() ==> (#[trigger] codes[i]).ty() == codes[0].ty()
}

/// The first `k` of the values of an array are generated in a row if they have one
/// type.
pub proof fn lemma_values(
    values: Vec<Expression>,
    k: nat,
    states: Seq<GenView>,
    codes: Seq<ExprView>,
)
    requires
        k <= values@.len(),
        in_row(states, values@.take(k as int), codes),
        alike(codes),
    ensures
        gen_values(states[0], values, 0, Seq::empty()) == gen_values(
            states[k as int],
            values,
            k,
            codes,
        ),
    decreases k,
{
    let exprs = values@.take(k as int);
    if k > 0 {
        let j = (k - 1) as nat;
        lemma_row_front(states, exprs, codes);
        assert(exprs.drop_last() =~= values@.take(j as int));
        assert forall|i: int| 0 <= i < codes.drop_last().len() implies (
        #[trigger] codes.drop_last()[i]).ty() == codes.drop_last()[0].ty() by {
            assert(codes.drop_last()[i] == codes[i]);
        }
        lemma_values(values, j, states.drop_last(), codes.drop_last());
        assert(exprs.last() == values@[j as int]);
        assert(codes.last() == codes[j as int]);
        assert(codes.drop_last().push(codes.last()) =~= codes);
    } else {
        assert(codes =~= Seq::empty());
    }
}

/// A block runs its expressions in order, in a scope of its own. Behind it the
/// scopes around it are the current ones again.
pub proof fn law_blocks_run_in_order(
    s: GenView,
    expressions: Vec<Expression>,
    token: Token,
    states: Seq<GenView>,
    codes: Seq<ExprView>,
)
    requires
        expressions@.len() > 0,
        in_row(states, expressions@, codes),
        states[0] == s.begin_scope(),
    ensures
        works(s, Expression::Block(expressions, token)),
        code(s, Expression::Block(expressions, token)) == ExprView::Block(codes),
        after(s, Expression::Block(expressions, token)) == states.last().end_scope(),
{
    reveal_with_fuel(gen_expr, 3);
    assert(expressions@.take(expressions@.len() as int) =~= expressions@);
    lemma_all(expressions, expressions@.len(), states, codes, Seq::empty());
    assert(Seq::<ExprView>::empty() + codes =~= codes);
}

/// A block fails by the first of its expressions that fails.
pub proof fn law_blocks_fail_by_the_first_error(
    s: GenView,
    expressions: Vec<Expression>,
    token: Token,
    k: nat,
    states: Seq<GenView>,
    codes: Seq<ExprView>,
)
    requires
        k < expressions@.len(),
        in_row(states, expressions@.take(k as int), codes),
        states[0] == s.begin_scope(),
        !works(states[k as int], expressions@[k as int]),
    ensures
        gen_expr(s, Expression::Block(expressions, token)).1 == gen_expr(
            states[k as int],
            expressions@[k as int],
        ).1,
{
    reveal_with_fuel(gen_expr, 3);
    lemma_all(expressions, k, states, codes, Seq::empty());
}

/// A block without expressions has no value and changes nothing.
pub proof fn law_empty_blocks_have_no_value(s: GenView, expressions: Vec<Expression>, token: Token)
    requires
        expressions@.len() == 0,
    ensures
        works(s, Expression::Block(expressions, token)),
        code(s, Expression::Block(expressions, token)).ty() is NoneType,
        after(s, Expression::Block(expressions, token)) == s,
{
    reveal_with_fuel(gen_expr, 3);
}

/// A constant is its own code, and changes nothing.
pub proof fn law_constants_stand_for_themselves(s: GenView, constant: Constant, token: Token)
    ensures
        ({
            let e = Expression::Literal(Literal::Constant(constant), token);
            works(s, e) && code(s, e) == ExprView::Literal(constant) && after(s, e) == s
        }),
{
    reveal_with_fuel(gen_expr, 3);
}

/// Is an operation on these operands one that needs no method? That is so for
/// numbers of one type, and for checks of a type.
pub open spec fn built_in(left: ExprView, operator: TType, right: ExprView) -> bool {
    ||| left.ty() == right.ty() && left.ty().number()
    ||| operator is Is && right.ty() is Type
}

/// Does the code consist of the two operands of an operator, the left one first?
/// It is an operation on them or a call of the method for the operator, which is
/// negated for an inequality.
pub open spec fn operates(
    s: GenView,
    left: ExprView,
    operator: TType,
    right: ExprView,
    expr: ExprView,
) -> bool {
    if built_in(left, operator, right) {
        expr matches ExprView::Binary { left: l, operator: o, right: r } && *l == left && o
            == operator && *r == right
    } else if operator is BangEqual {
        expr matches ExprView::Unary { operator: o, right: call } && o is Bang && calls_operator(
            s,
            left,
            TType::EqualEqual,
            right,
            *call,
        )
    } else {
        calls_operator(s, left, operator, right, expr)
    }
}

/// Is the code a call of the method for an operator, with the left operand as its
/// first argument and the right one as its second?
pub open spec fn calls_operator(
    s: GenView,
    left: ExprView,
    operator: TType,
    right: ExprView,
    expr: ExprView,
) -> bool {
    match expr {
        ExprView::Call { callee, arguments, ty } => {
            &&& arguments.len() == 2
            &&& arguments[0] == left
            &&& arguments[1] == right
            &&& *callee matches ExprView::Variable(VariableView::Function { func, name })
                && implements(s, operator, left.ty(), right.ty(), func) && name
                == s.module.functions[func.ty as int].name && ty
                == s.module.functions[func.ty as int].ret_type.subst(func.args)
        },
        _ => false,
    }
}

/// Is a declared operator one for these operands? A method that sets an element
/// takes the element as well.
pub open spec fn declared_for(
    s: GenView,
    i: int,
    operator: TType,
    left: Type,
    right: Type,
) -> bool {
    let declared = s.module.operators[i];
    &&& declared.operator == operator && declared.left == left && declared.right == right
    &&& declared.method < s.module.functions.len()
    &&& operator is RightBracket ==> s.module.functions[declared.method as int].parameters.len()
        >= 3
}

/// Is it the first of the declared operators for these operands?
pub open spec fn first_for(s: GenView, i: int, operator: TType, left: Type, right: Type) -> bool {
    &&& 0 <= i < s.module.operators.len()
    &&& declared_for(s, i, operator, left, right)
    &&& forall|j: int| 0 <= j < i ==> !#[trigger] declared_for(s, j, operator, left, right)
}

/// Is the function the first that was declared for the operator and the types of
/// its operands?
pub open spec fn implements(
    s: GenView,
    operator: TType,
    left: Type,
    right: Type,
    func: Instance,
) -> bool {
    func == Instance::plain(func.ty) && exists|i: int| #[trigger]
        first_for(s, i, operator, left, right) && s.module.operators[i].method == func.ty
}

pub proof fn lemma_operator_from(s: GenView, operator: TType, left: Type, right: Type, i: nat)
    requires
        forall|j: int| 0 <= j < i ==> !#[trigger] declared_for(s, j, operator, left, right),
    ensures
        match s.module.operator_from(operator, left, right, i) {
            Some(method) => implements(s, operator, left, right, Instance::plain(method)),
            None => forall|j: int|
                0 <= j < s.module.operators.len() ==> !#[trigger] declared_for(
                    s,
                    j,
                    operator,
                    left,
                    right,
                ),
        },
    decreases s.module.operators.len() - i,
{
    if i < s.module.operators.len() {
        if declared_for(s, i as int, operator, left, right) {
            assert(first_for(s, i as int, operator, left, right));
        } else {
            lemma_operator_from(s, operator, left, right, i + 1);
        }
    }
}

/// Only one function implements an operator for the types of its operands.
proof fn lemma_one_method(s: GenView, operator: TType, left: Type, right: Type, func: Instance)
    requires
        implements(s, operator, left, right, func),
    ensures
        func.ty < s.module.functions.len(),
        s.module.operator_from(operator, left, right, 0) == Some(func.ty),
{
    lemma_operator_from(s, operator, left, right, 0);
    let i = choose|i: int| #[trigger]
        first_for(s, i, operator, left, right) && s.module.operators[i].method == func.ty;
    assert(declared_for(s, i, operator, left, right));
    let method = s.module.operator_from(operator, left, right, 0)->0;
    assert(implements(s, operator, left, right, Instance::plain(method)));
    let j = choose|j: int| #[trigger]
        first_for(s, j, operator, left, right) && s.module.operators[j].method == method;
    assert(declared_for(s, j, operator, left, right));
}

/// Was an operator declared for these operands?
pub open spec fn some_declared_for(s: GenView, operator: TType, left: Type, right: Type) -> bool {
    exists|i: int|
        0 <= i < s.module.operators.len() && #[trigger] declared_for(s, i, operator, left, right)
}

/// Is there an operation on these operands at all? An inequality needs what the
/// equality needs.
pub open spec fn operable(s: GenView, left: ExprView, operator: TType, right: ExprView) -> bool {
    ||| built_in(left, operator, right)
    ||| !(operator is BangEqual) && some_declared_for(s, operator, left.ty(), right.ty())
    ||| operator is BangEqual && some_declared_for(s, TType::EqualEqual, left.ty(), right.ty())
}

pub proof fn lemma_operates(s: GenView, left: ExprView, operator: TokenView, right: ExprView)
    ensures
        match binary_of(s, left, operator, right) {
            Ok(expr) => operable(s, left, operator.t_type, right) && operates(
                s,
                left,
                operator.t_type,
                right,
                expr,
            ),
            Err(f) => !operable(s, left, operator.t_type, right) && f == s.error(
                operator,
                "No implementation of operator found for types."@,
            ),
        },
{
    let wanted = if operator.t_type is BangEqual {
        TType::EqualEqual
    } else {
        operator.t_type
    };
    lemma_operator_from(s, wanted, left.ty(), right.ty(), 0);
    if let Some(method) = s.module.operator_method(operator.t_type, left.ty(), right.ty()) {
        let i = choose|i: int| #[trigger]
            first_for(s, i, wanted, left.ty(), right.ty()) && s.module.operators[i].method
                == method;
        assert(declared_for(s, i, wanted, left.ty(), right.ty()));
        let call = call_function(s.module, Instance::plain(method), seq![left, right]);
        assert(calls_operator(s, left, wanted, right, call));
    }
}

/// There is only one code that consists of the operands of an operator.
pub proof fn lemma_operates_once(
    s: GenView,
    left: ExprView,
    operator: TokenView,
    right: ExprView,
    expr: ExprView,
)
    requires
        operates(s, left, operator.t_type, right, expr),
    ensures
        binary_of(s, left, operator, right) == Ok::<ExprView, Failure>(expr),
{
    if !built_in(left, operator.t_type, right) {
        let negated = operator.t_type is BangEqual;
        let wanted = if negated {
            TType::EqualEqual
        } else {
            operator.t_type
        };
        let call = if negated {
            *expr->Unary_right
        } else {
            expr
        };
        assert(calls_operator(s, left, wanted, right, call));
        let func = call->callee->Variable_0->func;
        lemma_one_method(s, wanted, left.ty(), right.ty(), func);
        assert(call->Call_arguments =~= seq![left, right]);
        assert(call == call_function(s.module, func, seq![left, right]));
    }
}

/// The operands of an operator keep their places: the left one is generated first
/// and stands first, in the operation or in the call of the method that implements
/// the operator for their types. Operands that no method was declared for are an
/// error at the operator.
pub proof fn law_operands_keep_their_places(
    s: GenView,
    left: Expression,
    operator: Token,
    right: Expression,
)
    ensures
        ({
            let e = Expression::Binary {
                left: Box::new(left),
                operator,
                right: Box::new(right),
            };
            let s1 = after(s, left);
            let s2 = after(s1, right);
            if !works(s, left) {
                gen_expr(s, e) == gen_expr(s, left)
            } else if !works(s1, right) {
                gen_expr(s, e) == gen_expr(s1, right)
            } else {
                &&& after(s, e) == s2
                &&& works(s, e) <==> operable(s2, code(s, left), operator.t_type, code(s1, right))
                &&& works(s, e) ==> operates(
                    s2,
                    code(s, left),
                    operator.t_type,
                    code(s1, right),
                    code(s, e),
                )
                &&& !works(s, e) ==> gen_expr(s, e).1->Err_0 == s2.error(
                    operator@,
                    "No implementation of operator found for types."@,
                )
            }
        }),
{
    reveal_with_fuel(gen_expr, 3);
    let s1 = after(s, left);
    if works(s, left) && works(s1, right) {
        lemma_operates(after(s1, right), code(s, left), operator@, code(s1, right));
    }
}

/// What is indexed comes before the index: it is the first argument of the method
/// that implements the bracket, the index is the second.
pub proof fn law_index_comes_behind_the_object(
    s: GenView,
    indexed: Expression,
    index: Expression,
    bracket: Token,
)
    ensures
        ({
            let e = Expression::IndexGet {
                indexed: Box::new(indexed),
                index: Box::new(index),
                bracket,
            };
            let s1 = after(s, indexed);
            let s2 = after(s1, index);
            if !works(s, indexed) {
                gen_expr(s, e) == gen_expr(s, indexed)
            } else if !works(s1, index) {
                gen_expr(s, e) == gen_expr(s1, index)
            } else {
                &&& after(s, e) == s2
                &&& works(s, e) <==> operable(s2, code(s, indexed), bracket.t_type, code(s1, index))
                &&& works(s, e) ==> operates(
                    s2,
                    code(s, indexed),
                    bracket.t_type,
                    code(s1, index),
                    code(s, e),
                )
            }
        }),
{
    reveal_with_fuel(gen_expr, 3);
    let s1 = after(s, indexed);
    if works(s, indexed) && works(s1, index) {
        lemma_operates(after(s1, index), code(s, indexed), bracket@, code(s1, index));
    }
}

/// A value for an element is the third argument of the method that implements the
/// setter, behind the object and the index, and has the type of its third
/// parameter.
pub proof fn law_element_is_set_behind_object_and_index(
    s: GenView,
    indexed: Expression,
    index: Expression,
    value: Expression,
    func: Instance,
)
    requires
        works(s, indexed),
        works(after(s, indexed), index),
        works(after(after(s, indexed), index), value),
        implements(
            after(after(after(s, indexed), index), value),
            TType::RightBracket,
            code(s, indexed).ty(),
            code(after(s, indexed), index).ty(),
            func,
        ),
    ensures
        ({
            let e = Expression::IndexSet {
                indexed: Box::new(indexed),
                index: Box::new(index),
                value: Box::new(value),
            };
            let s1 = after(s, indexed);
            let s2 = after(s1, index);
            let s3 = after(s2, value);
            let method = s3.module.functions[func.ty as int];
            &&& after(s, e) == s3
            &&& works(s, e) <==> code(s2, value).ty() == method.parameters[2].ty
            &&& works(s, e) ==> code(s, e) == (ExprView::Call {
                callee: Box::new(
                    ExprView::Variable(VariableView::Function { func, name: method.name }),
                ),
                arguments: seq![code(s, indexed), code(s1, index), code(s2, value)],
                ty: method.ret_type.subst(func.args),
            })
        }),
{
    let s1 = after(s, indexed);
    let s2 = after(s1, index);
    let s3 = after(s2, value);
    let e = Expression::IndexSet {
        indexed: Box::new(indexed),
        index: Box::new(index),
        value: Box::new(value),
    };
    assert(gen_expr(s, e) == gen_index_set(s, indexed, index, value));
    let left = code(s, indexed).ty();
    let right = code(s1, index).ty();
    lemma_operator_from(s3, TType::RightBracket, left, right, 0);
    lemma_one_method(s3, TType::RightBracket, left, right, func);
}

/// A break with a value carries the code of that value, which has the type of all
/// other values that leave the loop; a break without one carries none. Outside of
/// loops there is no break.
pub proof fn law_breaks_carry_their_value(
    s: GenView,
    value: Option<Box<Expression>>,
    token: Token,
)
    ensures
        ({
            let e = Expression::Break(value, token);
            &&& s.cur.current_loop is None ==> gen_expr(s, e) == (
                s,
                Err::<ExprView, Failure>(s.error(token@, "Break is only allowed in loops."@)),
            )
            &&& s.cur.current_loop is Some ==> match value {
                None => gen_expr(s, e) == (s, Ok::<ExprView, Failure>(ExprView::Break(None))),
                Some(v) => {
                    &&& gen_expr(s, *v).1 matches Err(f) ==> gen_expr(s, e) == (
                        after(s, *v),
                        Err::<ExprView, Failure>(f),
                    )
                    &&& works(s, e) ==> works(s, *v) && code(s, e) == ExprView::Break(
                        Some(Box::new(code(s, *v))),
                    ) && (after(s, e).cur.current_loop matches Some(Some(var)) && var.ty == code(
                        s,
                        *v,
                    ).ty())
                },
            }
        }),
{
    reveal_with_fuel(gen_expr, 3);
}

/// All values that leave a loop have one type: the variable for them is made by the
/// first, and a value of another type is an error.
pub proof fn law_loop_values_have_one_type(s: GenView, ty: Type)
    requires
        s.cur.current_loop is Some,
    ensures
        ({
            let (t, r) = s.loop_var(ty);
            match s.cur.current_loop->0 {
                None => r matches Ok(var) && var.ty == ty && var.mutable && var.name == "for-body"@
                    && t.cur.current_loop
                    == Some(Some(var)) && t.module.locals == s.module.locals.push(ty) && var.id
                    == s.module.locals.len() as usize,
                Some(var) => t.module == s.module && (r is Ok <==> var.ty == ty) && (r matches Ok(v)
                    ==> v == var) && t.cur.current_loop == s.cur.current_loop,
            }
        }),
{
}

/// An assignment stores the code of its value in the variable that the name stands
/// for, and in no other. The variable has to be one that may change, and to have
/// the type of the value.
pub proof fn law_assignments_store_their_value(s: GenView, name: Token, value: Expression)
    ensures
        ({
            let e = Expression::Assignment { name, value: Box::new(value) };
            let (s1, found) = s.find_var(name.lexeme@);
            match found {
                None => gen_expr(s, e) == (
                    s1,
                    Err::<ExprView, Failure>(
                        s1.error(name@, "Variable '"@ + name.lexeme@ + "' is not defined"@),
                    ),
                ),
                Some(var) => if !works(s1, value) {
                    gen_expr(s, e) == gen_expr(s1, value)
                } else {
                    &&& after(s, e) == after(s1, value)
                    &&& works(s, e) <==> var is Local && var->Local_0.mutable && var->Local_0.ty
                        == code(s1, value).ty()
                    &&& works(s, e) ==> code(s, e) == (ExprView::Store {
                        var: var->Local_0,
                        value: Box::new(code(s1, value)),
                        first_store: false,
                    })
                },
            }
        }),
{
    reveal_with_fuel(gen_expr, 3);
}

/// A definition makes a new variable with the name, the mutability and the type of
/// its first value, and stores the code of that value there. From then on the name
/// stands for that variable. Types cannot be stored.
pub proof fn law_definitions_store_their_value(s: GenView, def: VariableDef)
    requires
        s.wf(),
        works(s, def.initializer),
        after(s, def.initializer).wf(),
    ensures
        ({
            let e = Expression::VarDef(Box::new(def));
            let s1 = after(s, def.initializer);
            let init = code(s, def.initializer);
            let var = LocalView {
                name: def.name.lexeme@,
                ty: init.ty(),
                mutable: def.mutable,
                id: s1.module.locals.len() as usize,
            };
            let s2 = after(s, e);
            &&& works(s, e) <==> !(init.ty() is Type)
            &&& works(s, e) ==> {
                &&& code(s, e) == (ExprView::Store {
                    var,
                    value: Box::new(init),
                    first_store: true,
                })
                &&& s2.find_var(def.name.lexeme@) == (s2, Some(VariableView::Local(var)))
                &&& s2.module.locals == s1.module.locals.push(init.ty())
                &&& s2.outer == s1.outer
                &&& s2.function().exprs == s1.function().exprs
            }
        }),
{
    reveal_with_fuel(gen_expr, 3);
}

/// A name stands for the variable or function that is found under it, or else for
/// the type of that name.
pub proof fn law_names_stand_for_what_is_found(s: GenView, name: Token)
    ensures
        ({
            let e = Expression::Variable(name);
            let (s1, found) = s.find_var(name.lexeme@);
            &&& after(s, e) == s1
            &&& match (found, s1.module.find_type(name.lexeme@)) {
                (Some(var), _) => works(s, e) && code(s, e) == ExprView::Variable(var),
                (None, Some(ty)) => works(s, e) && code(s, e) == ExprView::TypeGet(ty),
                (None, None) => gen_expr(s, e).1 == Err::<ExprView, Failure>(
                    s1.error(name@, "Variable '"@ + name.lexeme@ + "' is not defined"@),
                ),
            }
        }),
{
    reveal_with_fuel(gen_expr, 3);
}

/// A return carries the code of its value, or none for a function without a value,
/// and has the type that the function returns.
pub proof fn law_returns_carry_their_value(
    s: GenView,
    value: Option<Box<Expression>>,
    token: Token,
)
    ensures
        ({
            let e = Expression::Return(value, token);
            match value {
                None => {
                    &&& after(s, e) == s
                    &&& works(s, e) <==> s.function().ret_type is NoneType
                    &&& works(s, e) ==> code(s, e) == ExprView::Return(Box::new(none_value()))
                },
                Some(v) => if !works(s, *v) {
                    gen_expr(s, e) == gen_expr(s, *v)
                } else {
                    let s1 = after(s, *v);
                    &&& after(s, e) == s1
                    &&& works(s, e) <==> s1.function().ret_type == code(s, *v).ty()
                    &&& works(s, e) ==> code(s, e) == ExprView::Return(Box::new(code(s, *v)))
                    &&& !works(s, e) ==> gen_expr(s, e).1 == Err::<ExprView, Failure>(
                        s1.error(token@, "Return expression in function has wrong type"@),
                    )
                },
            }
        }),
{
    reveal_with_fuel(gen_expr, 3);
}

/// A unary operation has the code of its operand. Only booleans are negated by a
/// bang.
pub proof fn law_unary_operations_keep_their_operand(
    s: GenView,
    operator: Token,
    right: Expression,
)
    ensures
        ({
            let e = Expression::Unary { operator, right: Box::new(right) };
            &&& after(s, e) == after(s, right)
            &&& !works(s, right) ==> gen_expr(s, e) == gen_expr(s, right)
            &&& works(s, right) ==> (works(s, e) <==> operator.t_type is Bang ==> code(
                s,
                right,
            ).ty() is Bool)
            &&& works(s, e) ==> code(s, e) == (ExprView::Unary {
                operator: operator.t_type,
                right: Box::new(code(s, right)),
            })
        }),
{
    reveal_with_fuel(gen_expr, 3);
}

/// A field is loaded from the code of its object, at its own place, unless it has
/// no value yet.
pub proof fn law_fields_are_loaded_from_their_object(s: GenView, object: Expression, name: Token)
    requires
        works(s, object),
    ensures
        ({
            let e = Expression::Get { object: Box::new(object), name };
            let s1 = after(s, object);
            &&& after(s, e) == s1
            &&& match s1.module.member(code(s, object).ty(), name.lexeme@) {
                Some(Member::Field { ty, index, .. }) => {
                    &&& works(s, e) <==> !s1.cur.uninitialized.contains(name.lexeme@)
                    &&& works(s, e) ==> code(s, e) == (ExprView::Load {
                        object: Box::new(code(s, object)),
                        field: index,
                        ty,
                    })
                },
                _ => !works(s, e),
            }
        }),
{
    reveal_with_fuel(gen_expr, 3);
    assert(gen_expr(s, Expression::Get { object: Box::new(object), name }) == gen_get(
        s,
        object,
        name,
    ));
}

/// A value for a field is stored at the place of that field of the object, which is
/// generated before the value. The value has the type of the field, and the field
/// is mutable or had no value; it is the first value exactly if the field had none.
/// From then on the field has a value, and no other field gets one.
pub proof fn law_fields_are_stored_in_their_object(
    s: GenView,
    object: Expression,
    name: Token,
    value: Expression,
)
    requires
        works(s, object),
        works(after(s, object), value),
    ensures
        ({
            let e = Expression::SetMember {
                object: Box::new(object),
                name,
                value: Box::new(value),
            };
            let s1 = after(s, object);
            let s2 = after(s1, value);
            let unset = s2.cur.uninitialized.contains(name.lexeme@);
            match s1.module.member(code(s, object).ty(), name.lexeme@) {
                Some(Member::Field { ty, index, mutable }) => {
                    &&& works(s, e) <==> code(s1, value).ty() == ty && (mutable || unset)
                    &&& works(s, e) ==> code(s, e) == (ExprView::StoreField {
                        object: Box::new(code(s, object)),
                        field: index,
                        value: Box::new(code(s1, value)),
                        first_set: unset,
                    })
                    &&& works(s, e) ==> forall|other: Seq<char>| #[trigger]
                        after(s, e).cur.uninitialized.contains(other) <==> other != name.lexeme@
                            && s2.cur.uninitialized.contains(other)
                    &&& after(s, e).module == s2.module
                    &&& after(s, e).outer == s2.outer
                    &&& after(s, e).cur.scopes == s2.cur.scopes
                },
                _ => !works(s, e),
            }
        }),
{
    reveal_with_fuel(gen_expr, 3);
    assert(gen_expr(
        s,
        Expression::SetMember { object: Box::new(object), name, value: Box::new(value) },
    ) == gen_set(s, object, name, value));
}

/// Behind two colons stands a case of the enum in front of them, with the type
/// arguments of the enum.
pub proof fn law_cases_belong_to_their_enum(s: GenView, object: Expression, name: Token)
    requires
        works(s, object),
    ensures
        ({
            let e = Expression::GetStatic { object: Box::new(object), name };
            let s1 = after(s, object);
            &&& after(s, e) == s1
            &&& works(s, e) ==> (code(s, object).ty() matches Type::Type(of) && (*of
                matches Type::Adt(inst) && inst.ty < s1.module.adts.len() && (
            s1.module.adts[inst.ty as int].ty matches ADTType::Enum { cases }
                && cases@.contains_key(name.lexeme@) && (code(s, e) matches ExprView::TypeGet(ty)
                && (ty matches Type::Adt(case) && case.ty == cases@[name.lexeme@] && case.args
                == inst.args)))))
        }),
{
    reveal_with_fuel(gen_expr, 3);
    assert(gen_expr(s, Expression::GetStatic { object: Box::new(object), name })
        == gen_get_static(s, object, name));
}

/// Every case of an enum can be named behind the enum.
pub proof fn law_every_case_can_be_named(
    s: GenView,
    object: Expression,
    name: Token,
    inst: Instance,
)
    requires
        works(s, object),
        code(s, object).ty() == Type::Type(Box::new(Type::Adt(inst))),
        inst.ty < after(s, object).module.adts.len(),
        after(s, object).module.adts[inst.ty as int].ty is Enum,
        after(s, object).module.adts[inst.ty as int].ty->cases@.contains_key(name.lexeme@),
    ensures
        works(s, Expression::GetStatic { object: Box::new(object), name }),
{
    reveal_with_fuel(gen_expr, 3);
    assert(gen_expr(s, Expression::GetStatic { object: Box::new(object), name })
        == gen_get_static(s, object, name));
}

/// A new variable has its name, type and mutability and the next number. It is
/// allocated in the current function, and is in the innermost scope only; no other
/// function and no code changes.
pub proof fn law_new_variables_are_allocated(
    s: GenView,
    name: Seq<char>,
    mutable: bool,
    ty: Type,
)
    requires
        s.wf(),
    ensures
        ({
            let (t, var) = s.define(name, mutable, ty);
            let last = s.cur.scopes.len() - 1;
            &&& var == (LocalView { name, ty, mutable, id: s.module.locals.len() as usize })
            &&& t.module.locals == s.module.locals.push(ty)
            &&& t.function() == s.function().with_variable(name, var)
            &&& t.module.functions.len() == s.module.functions.len()
            &&& forall|f: int|
                0 <= f < s.module.functions.len() && f != s.cur.function
                    ==> #[trigger] t.module.functions[f] == s.module.functions[f]
            &&& t.cur.scopes.len() == s.cur.scopes.len()
            &&& t.cur.scopes[last] == s.cur.scopes[last].insert(name, var)
            &&& forall|i: int| 0 <= i < last ==> #[trigger] t.cur.scopes[i] == s.cur.scopes[i]
            &&& t.cur.function == s.cur.function
            &&& t.cur.captured == s.cur.captured
            &&& t.cur.current_loop == s.cur.current_loop
            &&& t.cur.uninitialized == s.cur.uninitialized
            &&& t.outer == s.outer
            &&& t.builder == s.builder
        }),
{
}

/// A scope begins empty, inside those that were there, and its end leaves just
/// those; nothing else changes.
pub proof fn law_scopes_begin_empty(s: GenView)
    ensures
        s.begin_scope().cur.scopes.len() == s.cur.scopes.len() + 1,
        s.begin_scope().cur.scopes.last().dom().is_empty(),
        s.begin_scope().cur.scopes.drop_last() =~= s.cur.scopes,
        s.begin_scope().module == s.module,
        s.begin_scope().outer == s.outer,
        s.begin_scope().cur.current_loop == s.cur.current_loop,
        s.begin_scope().cur.captured == s.cur.captured,
        s.end_scope().cur.scopes == s.cur.scopes.drop_last(),
        s.end_scope().module == s.module,
        s.end_scope().outer == s.outer,
        s.end_scope().cur.current_loop == s.cur.current_loop,
        s.end_scope().cur.captured == s.cur.captured,
        s.end_scope().cur.uninitialized == s.cur.uninitialized,
{
}

/// An error names the file, the token that it is about, and what is wrong.
pub proof fn law_errors_name_their_token(s: GenView, token: TokenView, msg: Seq<char>)
    ensures
        s.error(token, msg) matches Failure::Error(e) && e.path == s.builder.path@ && e.token
            == token && e.msg == msg,
{
}

} // verus!
