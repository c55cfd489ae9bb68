//! Fields without a value: generating code never takes a value away.

use crate::ast::parts;
use crate::ast::{Closure, Expression, Literal};
use crate::gir::expression::ExprView;
use crate::gir::module::Member;
use crate::gir::types::{Instance, Type};
use crate::index;
use crate::lexer::token::{generated, TType, Token, TokenView};
use crate::mir::generator::model::{Failure, GenView};
use crate::mir::generator::rules::{
    array_of, binary_of, build, casts_of, enter_closure, finish_closure, function_body, gen_all,
    gen_args, gen_args_from, gen_array, gen_branch, gen_call, gen_cases, gen_closure,
    gen_constructor_call, gen_expr, gen_for_else, gen_literal, gen_member, gen_method_call,
    gen_or_none, gen_set, gen_values, parameter_types, push_values, return_type,
};
use vstd::prelude::*;

verus! {

/// Have all fields a value that had one before, in the current function and in
/// those around it?
pub open spec fn keeps_values(after: GenView, before: GenView) -> bool {
    &&& after.cur.uninitialized.subset_of(before.cur.uninitialized)
    &&& after.outer.len() == before.outer.len()
    &&& forall|i: int|
        0 <= i < before.outer.len() ==> (#[trigger] after.outer[i]).uninitialized
            == before.outer[i].uninitialized
}

proof fn lemma_trans(a: GenView, b: GenView, c: GenView)
    requires
        keeps_values(b, a),
        keeps_values(c, b),
    ensures
        keeps_values(c, a),
{
    assert forall|i: int| 0 <= i < a.outer.len() implies (#[trigger] c.outer[i]).uninitialized
        == a.outer[i].uninitialized by {
        assert(b.outer[i].uninitialized == a.outer[i].uninitialized);
    }
}

proof fn lemma_casts(s: GenView, condition: ExprView, list: Seq<ExprView>)
    ensures
        keeps_values(casts_of(s, condition, list).0, s),
    decreases condition,
{
    match condition {
        ExprView::Binary { left, operator, right } => match operator {
            TType::And => {
                let (s1, list1) = casts_of(s, *left, list);
                lemma_casts(s, *left, list);
                lemma_casts(s1, *right, list1);
                lemma_trans(s, s1, casts_of(s1, *right, list1).0);
            },
            _ => {},
        },
        _ => {},
    }
}

proof fn lemma_push(
    s: GenView,
    push: Instance,
    array: ExprView,
    values: Seq<ExprView>,
    n: nat,
)
    ensures
        keeps_values(push_values(s, push, array, values, n), s),
    decreases n,
{
    if n > 0 {
        lemma_push(s, push, array, values, (n - 1) as nat);
    }
}

proof fn lemma_array_of(s: GenView, values: Seq<ExprView>)
    ensures
        array_of(s, values).1 is Ok ==> keeps_values(array_of(s, values).0, s),
{
    if array_of(s, values).1 is Ok {
        let inst = build(
            s,
            s.module.prototypes["Array"@],
            seq![values[0].ty()],
            generated(TType::RightBracket, Seq::empty()),
        )->Ok_0->Adt_0;
        let push = index::lookup(
            index::entries(s.module.adts[inst.ty as int].methods),
            "push"@,
        )->0;
        lemma_push(
            s,
            Instance { ty: push, args: inst.args },
            array_of(s, values).1->Ok_0,
            values,
            values.len(),
        );
    }
}

/// Where code for an expression was generated, no field has lost its value.
pub proof fn law_fields_keep_their_values(s: GenView, expression: Expression)
    ensures
        gen_expr(s, expression).1 is Ok ==> keeps_values(gen_expr(s, expression).0, s),
    decreases expression, 9nat,
{
    reveal_with_fuel(gen_expr, 3);
    match expression {
        Expression::Assignment { name, value } => {
            let s1 = s.find_var(name.lexeme@).0;
            law_fields_keep_their_values(s1, *value);
            if gen_expr(s1, *value).1 is Ok {
                lemma_trans(s, s1, gen_expr(s1, *value).0);
            }
        },
        Expression::Binary { left, operator, right } => {
            parts::lemma_binary(*left, operator, *right);
            lemma_two(s, *left, *right, expression);
        },
        Expression::Block(expressions, _) => {
            if expressions@.len() > 0 {
                lemma_all(s.begin_scope(), expressions, 0, Seq::empty());
                let (s1, r) = gen_all(s.begin_scope(), expressions, 0, Seq::empty());
                if r is Ok {
                    lemma_trans(s, s.begin_scope(), s1);
                    lemma_trans(s, s1, s1.end_scope());
                }
            }
        },
        Expression::Break(value, token) => {
            if let Some(value) = value {
                law_fields_keep_their_values(s, *value);
                let (s1, r) = gen_expr(s, *value);
                if r is Ok {
                    lemma_trans(s, s1, s1.loop_var(r->Ok_0.ty()).0);
                }
            }
        },
        Expression::Call { callee, arguments } => {
            parts::lemma_call(*callee, arguments);
            lemma_call(s, *callee, arguments);
        },
        Expression::For { condition, body, else_b } => {
            parts::lemma_for_loop(*condition, *body, else_b);
            let s0 = s.with_loop(Some(None));
            law_fields_keep_their_values(s0, *condition);
            let (s1, r1) = gen_expr(s0, *condition);
            if r1 is Ok {
                law_fields_keep_their_values(s1, *body);
                let (s2, r2) = gen_expr(s1, *body);
                if r2 is Ok {
                    let ty = r2->Ok_0.ty();
                    let s3 = s2.loop_var(ty).0;
                    lemma_trans(s0, s1, s2);
                    lemma_trans(s0, s2, s3);
                    if gen_for_else(s3, else_b, ty).1 is Ok {
                        lemma_for_else(s3, else_b, ty);
                        lemma_trans(s0, s3, gen_for_else(s3, else_b, ty).0);
                    }
                }
            }
        },
        Expression::Get { object, name } => {
            law_fields_keep_their_values(s, *object);
        },
        Expression::GetStatic { object, name } => {
            law_fields_keep_their_values(s, *object);
        },
        Expression::If { condition, then_branch, else_branch } => {
            parts::lemma_if_else(*condition, *then_branch, else_branch);
            law_fields_keep_their_values(s, *condition);
            let (s1, r1) = gen_expr(s, *condition);
            if r1 is Ok {
                lemma_branch(s1, r1->Ok_0, *then_branch);
                let (s2, r2) = gen_branch(s1, r1->Ok_0, *then_branch);
                if r2 is Ok {
                    lemma_trans(s, s1, s2);
                    lemma_or_none(s2, else_branch);
                    if gen_or_none(s2, else_branch).1 is Ok {
                        lemma_trans(s, s2, gen_or_none(s2, else_branch).0);
                    }
                }
            }
        },
        Expression::IndexGet { indexed, index, bracket } => {
            parts::lemma_index_get(*indexed, *index, bracket);
            lemma_two(s, *indexed, *index, expression);
        },
        Expression::IndexSet { indexed, index, value } => {
            parts::lemma_index_set(*indexed, *index, *value);
            lemma_two(s, *indexed, *index, expression);
            let (s1, r1) = gen_expr(s, *indexed);
            let (s2, r2) = gen_expr(s1, *index);
            if r1 is Ok && r2 is Ok {
                law_fields_keep_their_values(s2, *value);
                if gen_expr(s2, *value).1 is Ok {
                    lemma_trans(s, s2, gen_expr(s2, *value).0);
                }
            }
        },
        Expression::Literal(literal, token) => {
            lemma_literal(s, literal, token);
        },
        Expression::Return(value, token) => {
            lemma_or_none(s, value);
        },
        Expression::SetMember { object, name, value } => {
            parts::lemma_set_member(*object, name, *value);
            lemma_two(s, *object, *value, expression);
        },
        Expression::Unary { operator, right } => {
            law_fields_keep_their_values(s, *right);
        },
        Expression::Variable(name) => {},
        Expression::VarWithGenerics { name, generics } => {},
        Expression::When { value, branches, else_branch } => {
            parts::lemma_when(*value, branches, *else_branch);
            lemma_two(s, *value, *else_branch, expression);
            let (s1, r1) = gen_expr(s, *value);
            let (s2, r2) = gen_expr(s1, *else_branch);
            if r1 is Ok && r2 is Ok {
                let (value, ty) = (r1->Ok_0, r2->Ok_0.ty());
                lemma_cases(s2, value, ty, branches, 0, Seq::empty());
                let (s3, r3) = gen_cases(s2, value, ty, branches, 0, Seq::empty());
                if r3 is Ok {
                    lemma_trans(s, s2, s3);
                }
            }
        },
        Expression::VarDef(def) => {
            law_fields_keep_their_values(s, def.initializer);
            let (s1, r) = gen_expr(s, def.initializer);
            if r is Ok {
                lemma_trans(s, s1, s1.define(def.name.lexeme@, def.mutable, r->Ok_0.ty()).0);
            }
        },
    }
}

/// Two expressions in a row, which are parts of a third.
proof fn lemma_two(s: GenView, first: Expression, second: Expression, whole: Expression)
    requires
        decreases_to!(whole => first),
        decreases_to!(whole => second),
    ensures
        gen_expr(s, first).1 is Ok ==> keeps_values(gen_expr(s, first).0, s),
        gen_expr(s, first).1 is Ok && gen_expr(gen_expr(s, first).0, second).1 is Ok
            ==> keeps_values(gen_expr(gen_expr(s, first).0, second).0, s),
    decreases whole, 5nat,
{
    law_fields_keep_their_values(s, first);
    let (s1, r) = gen_expr(s, first);
    if r is Ok {
        law_fields_keep_their_values(s1, second);
        if gen_expr(s1, second).1 is Ok {
            lemma_trans(s, s1, gen_expr(s1, second).0);
        }
    }
}

proof fn lemma_all(s: GenView, expressions: Vec<Expression>, i: nat, done: Seq<ExprView>)
    ensures
        gen_all(s, expressions, i, done).1 is Ok ==> keeps_values(
            gen_all(s, expressions, i, done).0,
            s,
        ),
    decreases expressions, expressions@.len() - i,
{
    if i < expressions@.len() {
        assert(decreases_to!(expressions => expressions@[i as int]));
        law_fields_keep_their_values(s, expressions@[i as int]);
        let (s1, r) = gen_expr(s, expressions@[i as int]);
        if r is Ok {
            let next = done.push(r->Ok_0);
            lemma_all(s1, expressions, i + 1, next);
            if gen_all(s1, expressions, i + 1, next).1 is Ok {
                lemma_trans(s, s1, gen_all(s1, expressions, i + 1, next).0);
            }
        }
    }
}

proof fn lemma_values(s: GenView, values: Vec<Expression>, i: nat, done: Seq<ExprView>)
    ensures
        gen_values(s, values, i, done).1 is Ok ==> keeps_values(
            gen_values(s, values, i, done).0,
            s,
        ),
    decreases values, values@.len() - i,
{
    if i < values@.len() {
        assert(decreases_to!(values => values@[i as int]));
        law_fields_keep_their_values(s, values@[i as int]);
        let (s1, r) = gen_expr(s, values@[i as int]);
        if r is Ok {
            let next = done.push(r->Ok_0);
            lemma_values(s1, values, i + 1, next);
            if gen_values(s1, values, i + 1, next).1 is Ok {
                lemma_trans(s, s1, gen_values(s1, values, i + 1, next).0);
            }
        }
    }
}

proof fn lemma_args_from(
    s: GenView,
    parameters: Seq<Type>,
    arguments: Vec<Expression>,
    i: nat,
    done: Seq<ExprView>,
)
    ensures
        gen_args_from(s, parameters, arguments, i, done).1 is Ok ==> keeps_values(
            gen_args_from(s, parameters, arguments, i, done).0,
            s,
        ),
    decreases arguments, arguments@.len() - i,
{
    if i < arguments@.len() {
        assert(decreases_to!(arguments => arguments@[i as int]));
        law_fields_keep_their_values(s, arguments@[i as int]);
        let (s1, r) = gen_expr(s, arguments@[i as int]);
        if r is Ok {
            let next = done.push(r->Ok_0);
            lemma_args_from(s1, parameters, arguments, i + 1, next);
            if gen_args_from(s1, parameters, arguments, i + 1, next).1 is Ok {
                lemma_trans(s, s1, gen_args_from(s1, parameters, arguments, i + 1, next).0);
            }
        }
    }
}

proof fn lemma_args(
    s: GenView,
    parameters: Seq<Type>,
    arguments: Vec<Expression>,
    first: Seq<ExprView>,
    variadic: bool,
    token: TokenView,
)
    ensures
        gen_args(s, parameters, arguments, first, variadic, token).1 is Ok ==> keeps_values(
            gen_args(s, parameters, arguments, first, variadic, token).0,
            s,
        ),
    decreases arguments, arguments@.len() + 1,
{
    lemma_args_from(s, parameters, arguments, 0, first);
}

proof fn lemma_constructor_call(
    s: GenView,
    callee: ExprView,
    arguments: Vec<Expression>,
    token: TokenView,
)
    ensures
        gen_constructor_call(s, callee, arguments, token).1 is Ok ==> keeps_values(
            gen_constructor_call(s, callee, arguments, token).0,
            s,
        ),
    decreases arguments, arguments@.len() + 1,
{
    lemma_all(s, arguments, 0, Seq::empty());
}

proof fn lemma_method_call(s: GenView, callee: Expression, arguments: Vec<Expression>)
    ensures
        gen_method_call(s, callee, arguments).1 is Ok ==> keeps_values(
            gen_method_call(s, callee, arguments).0,
            s,
        ),
    decreases parts::call(callee, arguments), 4nat,
{
    parts::lemma_call(callee, arguments);
    if let Expression::Get { object, name } = callee {
        law_fields_keep_their_values(s, *object);
        let (s1, r) = gen_member(s, *object, name);
        if r is Ok {
            let (object, member) = r->Ok_0;
            match member {
                Member::Method(method) => if let Some(sig) = s1.module.signature(method) {
                    let (s2, r2) = gen_args(
                        s1,
                        sig.parameters,
                        arguments,
                        seq![object],
                        false,
                        name@,
                    );
                    lemma_args(s1, sig.parameters, arguments, seq![object], false, name@);
                    if r2 is Ok {
                        lemma_trans(s, s1, s2);
                    }
                },
                Member::Dynamic { index, method } => if let Some(sig) = s1.module.signature(
                    method,
                ) {
                    let parameters = seq![object.ty()] + sig.parameters;
                    let (s2, r2) = gen_args(
                        s1,
                        parameters,
                        arguments,
                        seq![object],
                        false,
                        name@,
                    );
                    lemma_args(s1, parameters, arguments, seq![object], false, name@);
                    if r2 is Ok {
                        lemma_trans(s, s1, s2);
                    }
                },
                _ => {},
            }
        }
    }
}

proof fn lemma_call(s: GenView, callee: Expression, arguments: Vec<Expression>)
    ensures
        gen_call(s, callee, arguments).1 is Ok ==> keeps_values(
            gen_call(s, callee, arguments).0,
            s,
        ),
    decreases parts::call(callee, arguments), 5nat,
{
    parts::lemma_call(callee, arguments);
    lemma_method_call(s, callee, arguments);
    let (s1, r1) = gen_method_call(s, callee, arguments);
    if r1 matches Ok(None) {
        law_fields_keep_their_values(s1, callee);
        let (s2, r2) = gen_expr(s1, callee);
        if r2 is Ok {
            let called = r2->Ok_0;
            let token = callee.token()@;
            lemma_trans(s, s1, s2);
            lemma_constructor_call(s2, called, arguments, token);
            let (s3, r3) = gen_constructor_call(s2, called, arguments, token);
            if r3 is Ok {
                lemma_trans(s, s2, s3);
                if let Some(sig) = s3.module.call_signature(called.ty()) {
                    lemma_args(
                        s3,
                        sig.parameters,
                        arguments,
                        Seq::empty(),
                        sig.variadic,
                        token,
                    );
                    let (s4, r4) = gen_args(
                        s3,
                        sig.parameters,
                        arguments,
                        Seq::empty(),
                        sig.variadic,
                        token,
                    );
                    if r4 is Ok {
                        lemma_trans(s, s3, s4);
                    }
                }
            }
        }
    }
}

proof fn lemma_for_else(s: GenView, else_b: Option<Box<Expression>>, body_type: Type)
    ensures
        gen_for_else(s, else_b, body_type).1 is Ok ==> keeps_values(
            gen_for_else(s, else_b, body_type).0,
            s,
        ),
    decreases else_b, 10nat,
{
    if let Some(else_b) = else_b {
        law_fields_keep_their_values(s, *else_b);
        let (s1, r) = gen_expr(s, *else_b);
        if r is Ok {
            lemma_trans(s, s1, s1.loop_var(body_type).0);
        }
    }
}

proof fn lemma_or_none(s: GenView, value: Option<Box<Expression>>)
    ensures
        gen_or_none(s, value).1 is Ok ==> keeps_values(gen_or_none(s, value).0, s),
    decreases value, 10nat,
{
    if let Some(value) = value {
        law_fields_keep_their_values(s, *value);
    }
}

proof fn lemma_branch(s: GenView, condition: ExprView, branch: Expression)
    ensures
        gen_branch(s, condition, branch).1 is Ok ==> keeps_values(
            gen_branch(s, condition, branch).0,
            s,
        ),
    decreases branch, 10nat,
{
    let s0 = s.begin_scope();
    let s1 = casts_of(s0, condition, Seq::empty()).0;
    lemma_casts(s0, condition, Seq::empty());
    lemma_trans(s, s0, s1);
    law_fields_keep_their_values(s1, branch);
    let (s2, r) = gen_expr(s1, branch);
    if r is Ok {
        lemma_trans(s, s1, s2);
        lemma_trans(s, s2, s2.end_scope());
    }
}

proof fn lemma_cases(
    s: GenView,
    value: ExprView,
    branch_type: Type,
    branches: Vec<(Expression, Expression)>,
    i: nat,
    done: Seq<(ExprView, ExprView)>,
)
    ensures
        gen_cases(s, value, branch_type, branches, i, done).1 is Ok ==> keeps_values(
            gen_cases(s, value, branch_type, branches, i, done).0,
            s,
        ),
    decreases branches, branches@.len() - i,
{
    if i < branches@.len() && gen_cases(s, value, branch_type, branches, i, done).1 is Ok {
        assert(decreases_to!(branches => branches@[i as int]));
        let (condition, branch) = (branches@[i as int].0, branches@[i as int].1);
        law_fields_keep_their_values(s, condition);
        let (s1, r1) = gen_expr(s, condition);
        let cond = r1->Ok_0;
        let operator = TokenView {
            t_type: if cond.ty() is Type {
                TType::Is
            } else {
                TType::EqualEqual
            },
            ..condition.token()@
        };
        let test = binary_of(s1, value, operator, cond)->Ok_0;
        lemma_branch(s1, test, branch);
        let (s2, r2) = gen_branch(s1, test, branch);
        let next = done.push((test, r2->Ok_0));
        lemma_trans(s, s1, s2);
        lemma_cases(s2, value, branch_type, branches, i + 1, next);
        lemma_trans(s, s2, gen_cases(s2, value, branch_type, branches, i + 1, next).0);
    }
}

proof fn lemma_literal(s: GenView, literal: Literal, token: Token)
    ensures
        gen_literal(s, literal, token).1 is Ok ==> keeps_values(
            gen_literal(s, literal, token).0,
            s,
        ),
    decreases literal, 10nat,
{
    match literal {
        Literal::Constant(_) => {},
        Literal::Array(values) => {
            assert(decreases_to!(literal => values));
            lemma_values(s, values, 0, Seq::empty());
            let (s1, r) = gen_values(s, values, 0, Seq::empty());
            assert(gen_literal(s, literal, token) == gen_array(s, values));
            if r is Ok {
                lemma_array_of(s1, r->Ok_0);
                if array_of(s1, r->Ok_0).1 is Ok {
                    lemma_trans(s, s1, array_of(s1, r->Ok_0).0);
                }
            }
        },
        Literal::Closure(closure) => {
            assert(decreases_to!(literal => closure));
            assert(gen_literal(s, literal, token) == gen_closure(s, closure, token));
            lemma_closure(s, closure, token);
        },
    }
}

proof fn lemma_closure(s: GenView, closure: Closure, token: Token)
    ensures
        gen_closure(s, closure, token).1 is Ok ==> keeps_values(
            gen_closure(s, closure, token).0,
            s,
        ),
    decreases closure, 10nat,
{
    if gen_closure(s, closure, token).1 is Ok {
        let ret_type = return_type(s, closure)->Ok_0;
        let types = parameter_types(s, closure, 0, Seq::empty())->Ok_0;
        let inside = enter_closure(s, closure, token, types, ret_type);
        law_fields_keep_their_values(inside, *closure.body);
        let (s1, body) = gen_expr(inside, *closure.body);
        let code = function_body(s1, body->Ok_0, closure.body.token()@)->Ok_0;
        let s2 = s1.insert_at_ptr(code);
        let after = finish_closure(s2).0;
        assert(s2.outer.last().uninitialized == inside.outer.last().uninitialized);
        assert forall|i: int| 0 <= i < s.outer.len() implies (
        #[trigger] after.outer[i]).uninitialized == s.outer[i].uninitialized by {
            assert(s1.outer[i].uninitialized == inside.outer[i].uninitialized);
        }
    }
}

/// Was an immutable field found, and a value of its type generated?
pub open spec fn is_immutable(
    found: Result<(ExprView, Member), Failure>,
    value: Result<ExprView, Failure>,
) -> bool {
    match (found, value) {
        (Ok((_, Member::Field { ty, mutable, .. })), Ok(expr)) => !mutable && expr.ty() == ty,
        _ => false,
    }
}

/// An immutable field can be set once only: when it was set, it has a value, and
/// whatever is set next, with a value of its type, is an error.
pub proof fn law_immutable_fields_are_set_once(
    s: GenView,
    object: Expression,
    name: Token,
    value: Expression,
    next: Expression,
)
    requires
        is_immutable(
            gen_member(s, object, name).1,
            gen_expr(gen_member(s, object, name).0, value).1,
        ),
        gen_set(s, object, name, value).1 is Ok,
    ensures
        ({
            let (s1, r) = gen_set(s, object, name, value);
            let (s2, found) = gen_member(s1, object, name);
            let (s3, second) = gen_expr(s2, next);
            &&& r matches Ok(expr) && expr is StoreField && expr->first_set
            &&& !s1.cur.uninitialized.contains(name.lexeme@)
            &&& is_immutable(found, second) ==> gen_set(s1, object, name, next) == (
                s3,
                Err::<ExprView, Failure>(s3.error(name@, "Cannot set immutable class member"@)),
            )
        }),
{
    let (s1, r) = gen_set(s, object, name, value);
    law_fields_keep_their_values(s1, object);
    let s2 = gen_member(s1, object, name).0;
    law_fields_keep_their_values(s2, next);
}

} // verus!
