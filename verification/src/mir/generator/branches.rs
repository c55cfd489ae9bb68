//! What conditions, choices and loops consist of: each part in its place.

use crate::ast::Expression;
use crate::gir::expression::{none_value, ExprView};
use crate::gir::types::Type;
use crate::lexer::token::{TType, TokenView};
use crate::mir::generator::code::{
    after, code, lemma_operates, lemma_operates_once, operates, works,
};
use crate::mir::generator::model::{Failure, GenView};
use crate::mir::generator::rules::{
    binary_of, casts_of, gen_branch, gen_cases, gen_expr, gen_for, gen_for_else, gen_if,
    gen_or_none, gen_when,
};
use vstd::prelude::*;

verus! {

/// The state at the start of a branch: a new scope, in which the variables that the
/// condition tells the type of have that type.
pub open spec fn inside(s: GenView, condition: ExprView) -> GenView {
    casts_of(s.begin_scope(), condition, Seq::empty()).0
}

/// Is this the code of a branch? It ends with the code of the expression.
pub open spec fn is_branch(
    s: GenView,
    condition: ExprView,
    branch: Expression,
    expr: ExprView,
) -> bool {
    &&& works(inside(s, condition), branch)
    &&& expr == ExprView::Block(
        casts_of(s.begin_scope(), condition, Seq::empty()).1.push(
            code(inside(s, condition), branch),
        ),
    )
}

/// A condition keeps its branches in their places: the one that is taken where the
/// condition holds, which is generated in a scope of its own, and the other one,
/// which has no value where the source has none. The condition is generated first
/// and has to be a boolean. There is a value exactly if both branches have one, of
/// the same type.
pub proof fn law_conditions_keep_their_branches(
    s: GenView,
    condition: Expression,
    then_branch: Expression,
    else_branch: Option<Box<Expression>>,
)
    requires
        works(s, condition),
        code(s, condition).ty() is Bool,
        works(inside(after(s, condition), code(s, condition)), then_branch),
    ensures
        ({
            let e = Expression::If {
                condition: Box::new(condition),
                then_branch: Box::new(then_branch),
                else_branch,
            };
            let s1 = after(s, condition);
            let cond = code(s, condition);
            let s2 = after(inside(s1, cond), then_branch).end_scope();
            let value = code(inside(s1, cond), then_branch);
            &&& else_branch matches Some(other) ==> after(s, e) == after(s2, *other) && (works(s, e)
                <==> works(s2, *other))
            &&& else_branch is None ==> after(s, e) == s2 && works(s, e)
            &&& works(s, e) ==> (code(s, e) matches ExprView::If {
                condition: c,
                then_branch: t,
                else_branch: o,
                phi,
            } && *c == cond && is_branch(s1, cond, then_branch, *t) && t.ty() == value.ty() && (
            else_branch matches Some(other) ==> *o == code(s2, *other)) && (else_branch is None
                ==> *o == none_value()) && (phi <==> value.ty() == o.ty() && !(value.ty()
                is NoneType)))
        }),
{
    let e = Expression::If {
        condition: Box::new(condition),
        then_branch: Box::new(then_branch),
        else_branch,
    };
    let s1 = after(s, condition);
    let cond = code(s, condition);
    let s2 = after(inside(s1, cond), then_branch).end_scope();
    let value = code(inside(s1, cond), then_branch);
    let casts = casts_of(s1.begin_scope(), cond, Seq::empty()).1;
    assert(gen_expr(s, e) == gen_if(s, condition, then_branch, else_branch));
    assert(gen_branch(s1, cond, then_branch) == (
        s2,
        Ok::<_, Failure>(ExprView::Block(casts.push(value))),
    ));
    assert(casts.push(value)[casts.push(value).len() - 1] == value);
    assert(ExprView::Block(casts.push(value)).ty() == value.ty());
    match else_branch {
        Some(other) => {
            assert(gen_or_none(s2, else_branch) == gen_expr(s2, *other));
        },
        None => {
            assert(gen_or_none(s2, else_branch) == (s2, Ok::<_, Failure>(none_value())));
        },
    }
}

/// A condition that is no boolean, or that fails, is an error.
pub proof fn law_conditions_are_booleans(
    s: GenView,
    condition: Expression,
    then_branch: Expression,
    else_branch: Option<Box<Expression>>,
)
    ensures
        ({
            let e = Expression::If {
                condition: Box::new(condition),
                then_branch: Box::new(then_branch),
                else_branch,
            };
            &&& !works(s, condition) ==> gen_expr(s, e) == gen_expr(s, condition)
            &&& works(s, condition) && !(code(s, condition).ty() is Bool) ==> gen_expr(s, e) == (
                after(s, condition),
                Err::<ExprView, Failure>(
                    after(s, condition).error(
                        condition.token()@,
                        "If condition must be a boolean"@,
                    ),
                ),
            )
        }),
{
    let e = Expression::If {
        condition: Box::new(condition),
        then_branch: Box::new(then_branch),
        else_branch,
    };
    assert(gen_expr(s, e) == gen_if(s, condition, then_branch, else_branch));
}

/// Is this the case of a choice that stands for a branch of the source? The value
/// is the left operand of its test and the condition of the branch the right one;
/// a type is checked for, anything else is compared.
pub open spec fn is_case(
    s: GenView,
    value: ExprView,
    condition: Expression,
    branch: Expression,
    case: (ExprView, ExprView),
) -> bool {
    let s1 = after(s, condition);
    let c = code(s, condition);
    &&& works(s, condition)
    &&& c.ty() is Type || c.ty() == value.ty()
    &&& operates(
        s1,
        value,
        if c.ty() is Type {
            TType::Is
        } else {
            TType::EqualEqual
        },
        c,
        case.0,
    )
    &&& is_branch(s1, case.0, branch, case.1)
}

/// Are these the cases that stand for branches of the source, and the states
/// between them?
pub open spec fn cases_in_row(
    states: Seq<GenView>,
    value: ExprView,
    branches: Seq<(Expression, Expression)>,
    cases: Seq<(ExprView, ExprView)>,
) -> bool {
    &&& states.len() == branches.len() + 1
    &&& cases.len() == branches.len()
    &&& forall|i: int|
        0 <= i < branches.len() ==> is_case(
            states[i],
            value,
            (#[trigger] branches[i]).0,
            branches[i].1,
            cases[i],
        ) && states[i + 1] == after(
            inside(after(states[i], branches[i].0), cases[i].0),
            branches[i].1,
        ).end_scope()
}

proof fn lemma_cases(
    s: GenView,
    value: ExprView,
    ty: Type,
    branches: Vec<(Expression, Expression)>,
    i: nat,
    done: Seq<(ExprView, ExprView)>,
) -> (states: Seq<GenView>)
    requires
        i <= branches@.len(),
        gen_cases(s, value, ty, branches, i, done).1 is Ok,
    ensures
        ({
            let (t, r) = gen_cases(s, value, ty, branches, i, done);
            let cases = r->Ok_0;
            &&& cases.len() == done.len() + branches@.len() - i
            &&& cases.take(done.len() as int) == done
            &&& cases_in_row(
                states,
                value,
                branches@.skip(i as int),
                cases.skip(done.len() as int),
            )
            &&& states[0] == s
            &&& states.last() == t
            &&& forall|j: int| done.len() <= j < cases.len() ==> (#[trigger] cases[j]).1.ty() == ty
        }),
    decreases branches@.len() - i,
{
    let rest = branches@.skip(i as int);
    if i < branches@.len() {
        let (condition, branch) = branches@[i as int];
        let s1 = after(s, condition);
        let c = code(s, condition);
        let operator = TokenView {
            t_type: if c.ty() is Type {
                TType::Is
            } else {
                TType::EqualEqual
            },
            ..condition.token()@
        };
        assert(works(s, condition));
        lemma_operates(s1, value, operator, c);
        let test = binary_of(s1, value, operator, c)->Ok_0;
        let (s2, r2) = gen_branch(s1, test, branch);
        let casts = casts_of(s1.begin_scope(), test, Seq::empty()).1;
        assert(s2 == after(inside(s1, test), branch).end_scope());
        let result = r2->Ok_0;
        assert(is_branch(s1, test, branch, result));
        let case = (test, result);
        let states = lemma_cases(s2, value, ty, branches, i + 1, done.push(case));
        let (t, r) = gen_cases(s, value, ty, branches, i, done);
        assert(gen_cases(s2, value, ty, branches, i + 1, done.push(case)) == (t, r));
        let cases = r->Ok_0;
        let own = cases.skip(done.len() as int);
        let all = seq![s] + states;
        assert(cases.take(done.len() as int + 1)[done.len() as int] == case);
        assert(cases.take(done.len() as int) =~= cases.take(done.len() as int + 1).take(
            done.len() as int,
        ));
        assert(done.push(case).take(done.len() as int) =~= done);
        assert forall|j: int| 0 <= j < rest.len() implies is_case(
            all[j],
            value,
            (#[trigger] rest[j]).0,
            rest[j].1,
            own[j],
        ) && all[j + 1] == after(
            inside(after(all[j], rest[j].0), own[j].0),
            rest[j].1,
        ).end_scope() by {
            if j > 0 {
                assert(branches@.skip(i as int + 1)[j - 1] == rest[j]);
                assert(cases.skip(done.len() as int + 1)[j - 1] == own[j]);
            }
        }
        assert forall|j: int| done.len() <= j < cases.len() implies (
        #[trigger] cases[j]).1.ty() == ty by {}
        all
    } else {
        assert(done.take(done.len() as int) =~= done);
        seq![s]
    }
}

/// A choice has one case for every branch of the source, in their order: its test
/// compares the value with the condition of the branch, and its result is the code
/// of the branch. The value is generated first, then the branch that is taken where
/// no case applies, which all the branches have the type of.
pub proof fn law_choices_keep_their_branches(
    s: GenView,
    value: Expression,
    branches: Vec<(Expression, Expression)>,
    else_branch: Expression,
) -> (states: Seq<GenView>)
    requires
        works(
            s,
            Expression::When {
                value: Box::new(value),
                branches,
                else_branch: Box::new(else_branch),
            },
        ),
    ensures
        ({
            let e = Expression::When {
                value: Box::new(value),
                branches,
                else_branch: Box::new(else_branch),
            };
            let s1 = after(s, value);
            let other = code(s1, else_branch);
            &&& works(s, value) && works(s1, else_branch)
            &&& states.len() > 0 && states[0] == after(s1, else_branch) && states.last() == after(
                s,
                e,
            )
            &&& code(s, e) matches ExprView::Switch { cases, else_branch: o, ty } && {
                &&& o == Some(Box::new(other))
                &&& ty == Some(other.ty())
                &&& cases_in_row(states, code(s, value), branches@, cases)
                &&& forall|j: int| 0 <= j < cases.len() ==> (#[trigger] cases[j]).1.ty() == other.ty()
            }
        }),
{
    let e = Expression::When {
        value: Box::new(value),
        branches,
        else_branch: Box::new(else_branch),
    };
    let s1 = after(s, value);
    let s2 = after(s1, else_branch);
    let other = code(s1, else_branch);
    assert(gen_expr(s, e) == gen_when(s, value, branches, else_branch));
    assert(works(s, value) && works(s1, else_branch));
    let states = lemma_cases(s2, code(s, value), other.ty(), branches, 0, Seq::empty());
    let cases = gen_cases(s2, code(s, value), other.ty(), branches, 0, Seq::empty()).1->Ok_0;
    assert(branches@.skip(0) =~= branches@);
    assert(cases.skip(0) =~= cases);
    states
}

/// Without the last one, cases in a row are in a row.
proof fn lemma_cases_front(
    states: Seq<GenView>,
    value: ExprView,
    branches: Seq<(Expression, Expression)>,
    cases: Seq<(ExprView, ExprView)>,
)
    requires
        cases_in_row(states, value, branches, cases),
        branches.len() > 0,
    ensures
        cases_in_row(states.drop_last(), value, branches.drop_last(), cases.drop_last()),
{
    assert forall|i: int| 0 <= i < branches.drop_last().len() implies is_case(
        states.drop_last()[i],
        value,
        (#[trigger] branches.drop_last()[i]).0,
        branches.drop_last()[i].1,
        cases.drop_last()[i],
    ) && states.drop_last()[i + 1] == after(
        inside(after(states.drop_last()[i], branches.drop_last()[i].0), cases.drop_last()[i].0),
        branches.drop_last()[i].1,
    ).end_scope() by {
        assert(branches.drop_last()[i] == branches[i]);
    }
}

/// The first `k` cases of a choice are generated in a row.
pub proof fn lemma_cases_upto(
    states: Seq<GenView>,
    value: ExprView,
    ty: Type,
    branches: Vec<(Expression, Expression)>,
    cases: Seq<(ExprView, ExprView)>,
    k: nat,
)
    requires
        k <= branches@.len(),
        cases_in_row(states, value, branches@.take(k as int), cases),
        forall|j: int| 0 <= j < cases.len() ==> (#[trigger] cases[j]).1.ty() == ty,
    ensures
        gen_cases(states[0], value, ty, branches, 0, Seq::empty()) == gen_cases(
            states[k as int],
            value,
            ty,
            branches,
            k,
            cases,
        ),
    decreases k,
{
    if k > 0 {
        let j = (k - 1) as nat;
        let front = branches@.take(k as int);
        lemma_cases_front(states, value, front, cases);
        assert(front.drop_last() =~= branches@.take(j as int));
        assert forall|i: int| 0 <= i < cases.drop_last().len() implies (
        #[trigger] cases.drop_last()[i]).1.ty() == ty by {
            assert(cases.drop_last()[i] == cases[i]);
        }
        lemma_cases_upto(states.drop_last(), value, ty, branches, cases.drop_last(), j);
        assert(front[j as int] == branches@[j as int]);
        let (condition, branch) = branches@[j as int];
        let s = states[j as int];
        let s1 = after(s, condition);
        let c = code(s, condition);
        let case = cases[j as int];
        assert(is_case(s, value, condition, branch, case));
        let operator = TokenView {
            t_type: if c.ty() is Type {
                TType::Is
            } else {
                TType::EqualEqual
            },
            ..condition.token()@
        };
        lemma_operates_once(s1, value, operator, c, case.0);
        assert(gen_branch(s1, case.0, branch) == (states[k as int], Ok::<_, Failure>(case.1)));
        assert(cases.drop_last().push(case) =~= cases);
    } else {
        assert(cases =~= Seq::empty());
    }
}

/// A choice whose value, branches and tests can all be generated, with branches of
/// one type, is generated, and consists of just these.
pub proof fn law_choices_with_all_their_parts_are_generated(
    s: GenView,
    value: Expression,
    branches: Vec<(Expression, Expression)>,
    else_branch: Expression,
    states: Seq<GenView>,
    cases: Seq<(ExprView, ExprView)>,
)
    requires
        works(s, value),
        works(after(s, value), else_branch),
        cases_in_row(states, code(s, value), branches@, cases),
        states[0] == after(after(s, value), else_branch),
        forall|j: int|
            0 <= j < cases.len() ==> (#[trigger] cases[j]).1.ty() == code(
                after(s, value),
                else_branch,
            ).ty(),
    ensures
        ({
            let e = Expression::When {
                value: Box::new(value),
                branches,
                else_branch: Box::new(else_branch),
            };
            let other = code(after(s, value), else_branch);
            &&& works(s, e)
            &&& code(s, e) == (ExprView::Switch {
                cases,
                else_branch: Some(Box::new(other)),
                ty: Some(other.ty()),
            })
            &&& after(s, e) == states.last()
        }),
{
    let e = Expression::When {
        value: Box::new(value),
        branches,
        else_branch: Box::new(else_branch),
    };
    let s2 = after(after(s, value), else_branch);
    let other = code(after(s, value), else_branch);
    assert(gen_expr(s, e) == gen_when(s, value, branches, else_branch));
    assert(branches@.take(branches@.len() as int) =~= branches@);
    lemma_cases_upto(states, code(s, value), other.ty(), branches, cases, branches@.len());
    assert(gen_cases(s2, code(s, value), other.ty(), branches, 0, Seq::empty()) == (
        states.last(),
        Ok::<_, Failure>(cases),
    ));
}

/// A choice fails by its value, or else by the branch for no case, if one of them
/// fails.
pub proof fn law_choices_fail_by_their_parts(
    s: GenView,
    value: Expression,
    branches: Vec<(Expression, Expression)>,
    else_branch: Expression,
)
    ensures
        ({
            let e = Expression::When {
                value: Box::new(value),
                branches,
                else_branch: Box::new(else_branch),
            };
            &&& !works(s, value) ==> gen_expr(s, e) == gen_expr(s, value)
            &&& works(s, value) && !works(after(s, value), else_branch) ==> gen_expr(s, e)
                == gen_expr(after(s, value), else_branch)
        }),
{
    let e = Expression::When {
        value: Box::new(value),
        branches,
        else_branch: Box::new(else_branch),
    };
    assert(gen_expr(s, e) == gen_when(s, value, branches, else_branch));
}

/// A loop whose parts can all be generated, with a boolean condition and values of
/// one type, is generated.
pub proof fn law_loops_with_all_their_parts_are_generated(
    s: GenView,
    condition: Expression,
    body: Expression,
    else_b: Option<Box<Expression>>,
)
    requires
        ({
            let s0 = s.with_loop(Some(None));
            let s1 = after(s0, condition);
            let ty = code(s1, body).ty();
            let s2 = after(s1, body).loop_var(ty).0;
            &&& works(s0, condition) && code(s0, condition).ty() is Bool
            &&& works(s1, body)
            &&& after(s1, body).cur.current_loop matches Some(Some(var)) ==> var.ty == ty
            &&& else_b matches Some(other) ==> works(s2, *other) && (code(s2, *other).ty() == ty
                ==> after(s2, *other).loop_var(ty).1 is Ok)
        }),
    ensures
        works(s, Expression::For { condition: Box::new(condition), body: Box::new(body), else_b }),
{
    let e = Expression::For { condition: Box::new(condition), body: Box::new(body), else_b };
    let s0 = s.with_loop(Some(None));
    let s1 = after(s0, condition);
    let ty = code(s1, body).ty();
    let s2 = after(s1, body).loop_var(ty).0;
    assert(gen_expr(s, e) == gen_for(s, condition, body, else_b));
    assert(gen_for_else(s2, else_b, ty).1 is Ok);
}

/// A loop keeps its parts in their places: the condition, which is generated first
/// and is a boolean, the body, and the branch for no run of the body. In the
/// condition and the body a break belongs to this loop; behind it, to the loop
/// around it.
pub proof fn law_loops_keep_their_parts(
    s: GenView,
    condition: Expression,
    body: Expression,
    else_b: Option<Box<Expression>>,
)
    requires
        works(
            s,
            Expression::For { condition: Box::new(condition), body: Box::new(body), else_b },
        ),
    ensures
        ({
            let e = Expression::For {
                condition: Box::new(condition),
                body: Box::new(body),
                else_b,
            };
            let s0 = s.with_loop(Some(None));
            let s1 = after(s0, condition);
            let ty = code(s1, body).ty();
            let s2 = after(s1, body).loop_var(ty).0;
            &&& works(s0, condition) && code(s0, condition).ty() is Bool
            &&& works(s1, body)
            &&& after(s, e).cur.current_loop == s.cur.current_loop
            &&& code(s, e) matches ExprView::Loop {
                condition: c,
                body: b,
                else_branch: o,
                result_store,
            } && {
                &&& *c == code(s0, condition)
                &&& *b == code(s1, body)
                &&& else_b is None ==> o is None && result_store is None && after(s, e).module
                    == s2.module
                &&& else_b matches Some(other) ==> {
                    &&& works(s2, *other)
                    &&& o == Some(Box::new(code(s2, *other)))
                    &&& result_store is Some <==> code(s2, *other).ty() == ty
                    &&& result_store matches Some(var) ==> var.ty == ty && after(
                        s2,
                        *other,
                    ).loop_var(ty).1 == Ok::<_, Failure>(var)
                }
            }
        }),
{
    let e = Expression::For { condition: Box::new(condition), body: Box::new(body), else_b };
    let s0 = s.with_loop(Some(None));
    let s1 = after(s0, condition);
    assert(gen_expr(s, e) == gen_for(s, condition, body, else_b));
    assert(works(s0, condition) && works(s1, body));
    let ty = code(s1, body).ty();
    let s2 = after(s1, body).loop_var(ty).0;
    let out = gen_for_else(s2, else_b, ty);
    assert(out.1 is Ok);
    if let Some(other) = else_b {
        assert(works(s2, *other));
    }
}

/// The condition of a loop is a boolean.
pub proof fn law_loop_conditions_are_booleans(
    s: GenView,
    condition: Expression,
    body: Expression,
    else_b: Option<Box<Expression>>,
)
    requires
        works(s.with_loop(Some(None)), condition),
        !(code(s.with_loop(Some(None)), condition).ty() is Bool),
    ensures
        ({
            let e = Expression::For {
                condition: Box::new(condition),
                body: Box::new(body),
                else_b,
            };
            let s1 = after(s.with_loop(Some(None)), condition);
            gen_expr(s, e).1 == Err::<ExprView, Failure>(
                s1.error(condition.token()@, "For condition must be a boolean."@),
            )
        }),
{
    let e = Expression::For { condition: Box::new(condition), body: Box::new(body), else_b };
    assert(gen_expr(s, e) == gen_for(s, condition, body, else_b));
}

} // verus!
