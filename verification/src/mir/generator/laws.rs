//! What holds of the code that is generated.

use crate::ast::Expression;
use crate::gir::declaration::{FunctionView, LocalView, VariableView};
use crate::gir::expression::{CastType, ExprView};
use crate::gir::module::{Member, ModuleView};
use crate::gir::types::Type;
use crate::lexer::token::{TType, Token, TokenView};
use crate::mir::generator::model::{in_outer, in_scopes, with_captured, Failure, FrameView, GenView};
use crate::mir::generator::rules::{
    binary_of, casts_of, gen_args, gen_args_from, gen_assignment, gen_branch, gen_cases, gen_expr,
    gen_get, gen_if, gen_member, gen_return, gen_set, gen_values, gen_when, loaded_name,
};
use crate::mir::generator::vars::{function_ok, lemma_exprs_grow, module_ok, row_ok, var_ok};
use vstd::prelude::*;

verus! {

/// A variable is found under its name as soon as it is defined, and nothing
/// changes by that.
pub proof fn law_defined_variable_is_found(s: GenView, name: Seq<char>, mutable: bool, ty: Type)
    requires
        s.wf(),
    ensures
        ({
            let (after, var) = s.define(name, mutable, ty);
            after.find_var(name) == (after, Some(VariableView::Local(var)))
        }),
{
}

/// A definition changes what no other name stands for.
pub proof fn law_other_variables_stay(
    s: GenView,
    name: Seq<char>,
    mutable: bool,
    ty: Type,
    other: Seq<char>,
)
    requires
        s.wf(),
        other != name,
    ensures
        s.define(name, mutable, ty).0.find_var(other).1 == s.find_var(other).1,
{
    let after = s.define(name, mutable, ty).0;
    assert(after.cur.scopes.drop_last() =~= s.cur.scopes.drop_last());
}

/// Inside a new scope, all names stand for what they do outside.
pub proof fn law_scope_sees_outside(s: GenView, name: Seq<char>)
    ensures
        s.begin_scope().find_var(name).1 == s.find_var(name).1,
{
    assert(s.begin_scope().cur.scopes.drop_last() =~= s.cur.scopes);
}

/// Behind a scope, all names stand for what they did in front of it, whatever was
/// defined inside.
pub proof fn law_scope_is_left(
    s: GenView,
    name: Seq<char>,
    mutable: bool,
    ty: Type,
    other: Seq<char>,
)
    requires
        s.wf(),
    ensures
        s.begin_scope().define(name, mutable, ty).0.end_scope().find_var(other).1 == s.find_var(
            other,
        ).1,
{
    let inside = s.begin_scope().define(name, mutable, ty).0;
    assert(inside.end_scope().cur.scopes =~= s.cur.scopes);
}

/// A variable that is used again is not captured again.
pub proof fn law_captured_once(s: GenView, name: Seq<char>)
    ensures
        ({
            let (after, var) = s.find_var(name);
            after.find_var(name) == (after, var)
        }),
{
    let (after, found) = s.find_var(name);
    if in_scopes(s.cur.scopes, name) is None && in_outer(s.outer, name) is Some {
        let (place, var) = in_outer(s.outer, name)->0;
        lemma_in_outer(s.outer, after.outer, name);
        lemma_captured_again(s.cur.captured, var);
        assert forall|i: int| 0 <= i < s.outer.len() && i > place implies (
        #[trigger] after.outer[i]).capture(var) == after.outer[i] by {
            lemma_captured_again(s.outer[i].captured, var);
        }
        assert(after.find_var(name).0.outer =~= after.outer);
    }
}

proof fn lemma_captured_again(captured: Seq<LocalView>, var: LocalView)
    ensures
        with_captured(with_captured(captured, var), var) == with_captured(captured, var),
{
    if !(exists|i: int| 0 <= i < captured.len() && #[trigger] captured[i].id == var.id) {
        assert(captured.push(var)[captured.len() as int].id == var.id);
    }
}

/// What is captured has no part in where a variable is found.
proof fn lemma_in_outer(a: Seq<FrameView>, b: Seq<FrameView>, name: Seq<char>)
    requires
        a.len() == b.len(),
        forall|i: int| 0 <= i < a.len() ==> (#[trigger] a[i]).scopes == b[i].scopes,
    ensures
        in_outer(a, name) == in_outer(b, name),
    decreases a.len(),
{
    if a.len() > 0 {
        assert(a.last().scopes == b.last().scopes);
        assert forall|i: int| 0 <= i < a.drop_last().len() implies (
        #[trigger] a.drop_last()[i]).scopes == b.drop_last()[i].scopes by {
            assert(a[i].scopes == b[i].scopes);
        }
        lemma_in_outer(a.drop_last(), b.drop_last(), name);
    }
}

/// Operations on numbers of one type always exist. Comparisons give a boolean, all
/// others a number of that type.
pub proof fn law_numbers_need_no_method(
    s: GenView,
    left: ExprView,
    operator: TokenView,
    right: ExprView,
)
    requires
        left.ty() == right.ty(),
        left.ty().number(),
    ensures
        binary_of(s, left, operator, right) matches Ok(expr) && expr.ty() == (
        if operator.t_type.logical() {
            Type::Bool
        } else {
            left.ty()
        }),
{
}

/// For types with a method for `==`, `!=` is its negation.
pub proof fn law_inequality_negates_equality(
    s: GenView,
    left: ExprView,
    token: TokenView,
    right: ExprView,
)
    requires
        !(left.ty() == right.ty() && left.ty().number()),
        s.module.operator_method(TType::EqualEqual, left.ty(), right.ty()) is Some,
    ensures
        ({
            let eq = TokenView { t_type: TType::EqualEqual, ..token };
            let ne = TokenView { t_type: TType::BangEqual, ..token };
            binary_of(s, left, eq, right) matches Ok(equal) && binary_of(s, left, ne, right) == Ok::<
                ExprView,
                Failure,
            >(ExprView::Unary { operator: TType::Bang, right: Box::new(equal) })
        }),
{
}

/// What is assigned goes to a variable that may change and has the type of the
/// value.
pub proof fn law_assignments_are_typed(s: GenView, name: Token, value: Expression)
    ensures
        gen_assignment(s, name, value).1 matches Ok(expr) ==> {
            expr matches ExprView::Store { var, value, first_store } && var.mutable && var.ty
                == value.ty() && !first_store
        },
{
}

/// A return is generated only for values of the type that the function returns.
pub proof fn law_returns_are_typed(s: GenView, value: Option<Box<Expression>>, token: Token)
    ensures
        gen_return(s, value, token).1 matches Ok(expr) ==> {
            expr matches ExprView::Return(returned) && returned.ty() == gen_return(
                s,
                value,
                token,
            ).0.function().ret_type
        },
{
}

/// A condition is a boolean, and there is a value only if both branches have one
/// of the same type.
pub proof fn law_conditions_are_booleans(
    s: GenView,
    condition: Expression,
    then_branch: Expression,
    else_branch: Option<Box<Expression>>,
)
    ensures
        gen_if(s, condition, then_branch, else_branch).1 matches Ok(expr) ==> {
            expr matches ExprView::If { condition, then_branch, else_branch, phi }
                && condition.ty() is Bool && (phi ==> then_branch.ty() == else_branch.ty()
                && expr.ty() == then_branch.ty() && !(expr.ty() is NoneType)) && (!phi
                ==> expr.ty() is NoneType)
        },
{
}

/// A field without a value is never read.
pub proof fn law_reads_are_initialized(s: GenView, object: Expression, name: Token)
    ensures
        gen_get(s, object, name).1 is Ok ==> !gen_get(s, object, name).0.cur.uninitialized.contains(
            name.lexeme@,
        ),
{
}

/// A field has a value once it was set, and an immutable field is set only as
/// long as it has none.
pub proof fn law_writes_initialize(s: GenView, object: Expression, name: Token, value: Expression)
    ensures
        gen_set(s, object, name, value).1 matches Ok(expr) ==> {
            &&& expr is StoreField
            &&& gen_member(s, object, name).1 matches Ok((_, Member::Field { mutable, .. }))
                && (!mutable ==> expr->first_set)
        },
        gen_set(s, object, name, value).1 is Ok ==> !gen_set(
            s,
            object,
            name,
            value,
        ).0.cur.uninitialized.contains(name.lexeme@),
{
}

/// The arguments of a call are as many as the parameters, or more if that is
/// allowed, and have their types. Those in front were checked before.
pub proof fn law_arguments_are_typed(
    s: GenView,
    parameters: Seq<Type>,
    arguments: Vec<Expression>,
    first: Seq<ExprView>,
    variadic: bool,
    token: TokenView,
)
    ensures
        gen_args(s, parameters, arguments, first, variadic, token).1 matches Ok(args) ==> {
            &&& args.len() == first.len() + arguments@.len()
            &&& args.len() >= parameters.len()
            &&& !variadic ==> args.len() == parameters.len()
            &&& forall|i: int|
                first.len() <= i < parameters.len() ==> (#[trigger] args[i]).ty() == parameters[i]
        },
{
    lemma_args_from(s, parameters, arguments, 0, first);
}

proof fn lemma_args_from(
    s: GenView,
    parameters: Seq<Type>,
    arguments: Vec<Expression>,
    i: nat,
    done: Seq<ExprView>,
)
    requires
        i <= arguments@.len(),
    ensures
        gen_args_from(s, parameters, arguments, i, done).1 matches Ok(args) ==> {
            &&& args.len() == done.len() + arguments@.len() - i
            &&& forall|j: int| 0 <= j < done.len() ==> #[trigger] args[j] == done[j]
            &&& forall|j: int|
                done.len() <= j < args.len() && j < parameters.len() ==> (#[trigger] args[j]).ty()
                    == parameters[j]
        },
    decreases arguments@.len() - i,
{
    if i < arguments@.len() {
        let (s1, r) = gen_expr(s, arguments@[i as int]);
        if r is Ok {
            let arg = r->Ok_0;
            lemma_args_from(s1, parameters, arguments, i + 1, done.push(arg));
            if gen_args_from(s, parameters, arguments, i, done).1 is Ok {
                let args = gen_args_from(s, parameters, arguments, i, done).1->Ok_0;
                assert(args[done.len() as int] == done.push(arg)[done.len() as int]);
                assert forall|j: int| 0 <= j < done.len() implies #[trigger] args[j]
                    == done[j] by {
                    assert(args[j] == done.push(arg)[j]);
                }
            }
        }
    }
}

/// All values of an array have one type.
pub proof fn law_arrays_have_one_type(s: GenView, values: Vec<Expression>)
    ensures
        gen_values(s, values, 0, Seq::empty()).1 matches Ok(done) ==> {
            &&& done.len() == values@.len()
            &&& forall|i: int| 0 <= i < done.len() ==> (#[trigger] done[i]).ty() == done[0].ty()
        },
{
    lemma_values_from(s, values, 0, Seq::empty());
}

proof fn lemma_values_from(s: GenView, values: Vec<Expression>, i: nat, done: Seq<ExprView>)
    requires
        i <= values@.len(),
        forall|j: int| 0 <= j < done.len() ==> (#[trigger] done[j]).ty() == done[0].ty(),
    ensures
        gen_values(s, values, i, done).1 matches Ok(all) ==> {
            &&& all.len() == done.len() + values@.len() - i
            &&& forall|j: int| 0 <= j < all.len() ==> (#[trigger] all[j]).ty() == all[0].ty()
        },
    decreases values@.len() - i,
{
    if i < values@.len() {
        let (s1, r) = gen_expr(s, values@[i as int]);
        if r is Ok && (done.len() == 0 || r->Ok_0.ty() == done[0].ty()) {
            let value = r->Ok_0;
            assert forall|j: int| 0 <= j < done.push(value).len() implies (
            #[trigger] done.push(value)[j]).ty() == done.push(value)[0].ty() by {
                if j < done.len() {
                    assert(done[j].ty() == done[0].ty());
                }
            }
            lemma_values_from(s1, values, i + 1, done.push(value));
        }
    }
}

/// All branches of a choice have the type of the choice.
pub proof fn law_choices_have_one_type(
    s: GenView,
    value: Expression,
    branches: Vec<(Expression, Expression)>,
    else_branch: Expression,
)
    ensures
        gen_when(s, value, branches, else_branch).1 matches Ok(expr) ==> {
            expr matches ExprView::Switch { cases, else_branch, ty } && cases.len()
                == branches@.len() && else_branch is Some && ty == Some(else_branch->0.ty())
                && expr.ty() == else_branch->0.ty() && forall|i: int|
                0 <= i < cases.len() ==> (#[trigger] cases[i]).1.ty() == expr.ty()
        },
{
    let (s1, r1) = gen_expr(s, value);
    if r1 is Ok {
        let (s2, r2) = gen_expr(s1, else_branch);
        if r2 is Ok {
            lemma_cases_from(s2, r1->Ok_0, r2->Ok_0.ty(), branches, 0, Seq::empty());
        }
    }
}

proof fn lemma_cases_from(
    s: GenView,
    value: ExprView,
    branch_type: Type,
    branches: Vec<(Expression, Expression)>,
    i: nat,
    done: Seq<(ExprView, ExprView)>,
)
    requires
        i <= branches@.len(),
        forall|j: int| 0 <= j < done.len() ==> (#[trigger] done[j]).1.ty() == branch_type,
    ensures
        gen_cases(s, value, branch_type, branches, i, done).1 matches Ok(cases) ==> {
            &&& cases.len() == done.len() + branches@.len() - i
            &&& forall|j: int| 0 <= j < cases.len() ==> (#[trigger] cases[j]).1.ty() == branch_type
        },
    decreases branches@.len() - i,
{
    if i < branches@.len() && gen_cases(s, value, branch_type, branches, i, done).1 is Ok {
        let condition = branches@[i as int].0;
        let (s1, r1) = gen_expr(s, condition);
        let cond = r1->Ok_0;
        let operator = TokenView {
            t_type: if cond.ty() is Type {
                TType::Is
            } else {
                TType::EqualEqual
            },
            ..condition.token()@
        };
        let test = binary_of(s1, value, operator, cond)->Ok_0;
        let (s2, r2) = gen_branch(
            s1,
            test,
            branches@[i as int].1,
        );
        let case = (test, r2->Ok_0);
        assert forall|j: int| 0 <= j < done.push(case).len() implies (
        #[trigger] done.push(case)[j]).1.ty() == branch_type by {
            if j < done.len() {
                assert(done[j].1.ty() == branch_type);
            }
        }
        lemma_cases_from(s2, value, branch_type, branches, i + 1, done.push(case));
    }
}

/// All variables of a module exist when it is new, and still do when a variable,
/// or a function that uses variables which exist, was added.
pub proof fn law_variables_of_a_module_exist(
    module: ModuleView,
    name: Seq<char>,
    ty: Type,
    mutable: bool,
    function: FunctionView,
)
    requires
        module.locals.len() < usize::MAX,
    ensures
        module.functions.len() == 0 && module.captures.len() == 0 ==> module_ok(module),
        module_ok(module) ==> module_ok(
            (ModuleView { locals: module.locals.push(ty), ..module }),
        ),
        var_ok(
            module.locals.push(ty),
            (LocalView { name, ty, mutable, id: module.locals.len() as usize }),
        ),
        module_ok(module) && function_ok(module.locals, function) ==> module_ok(
            (ModuleView { functions: module.functions.push(function), ..module }),
        ),
{
    let more = module.locals.push(ty);
    assert(module.locals =~= more.subrange(0, module.locals.len() as int));
    if module_ok(module) {
        assert forall|i: int| 0 <= i < module.functions.len() implies function_ok(
            more,
            #[trigger] module.functions[i],
        ) by {
            lemma_exprs_grow(module.locals, more, module.functions[i].exprs);
        }
        assert forall|i: int| 0 <= i < module.captures.len() implies row_ok(
            more,
            #[trigger] module.captures[i],
        ) by {
            assert(row_ok(module.locals, module.captures[i]));
        }
    }
}

/// The casts that a condition allows go behind what the list held, and do not
/// depend on it.
pub proof fn law_casts_go_behind(s: GenView, condition: ExprView, list: Seq<ExprView>)
    ensures
        casts_of(s, condition, list) == (
            casts_of(s, condition, Seq::empty()).0,
            list + casts_of(s, condition, Seq::empty()).1,
        ),
    decreases condition,
{
    let casts = casts_of(s, condition, Seq::empty()).1;
    match condition {
        ExprView::Binary { left, operator, right } => match operator {
            TType::And => {
                let (s1, own) = casts_of(s, *left, Seq::empty());
                law_casts_go_behind(s, *left, list);
                law_casts_go_behind(s1, *right, list + own);
                law_casts_go_behind(s1, *right, own);
                let last = casts_of(s1, *right, Seq::empty()).1;
                assert(list + own + last =~= list + (own + last));
            },
            _ => {
                assert(casts_of(s, condition, list).1 =~= list + casts);
            },
        },
        _ => {
            assert(list + casts =~= list);
        },
    }
}

/// The casts that a conjunction allows are those of its two sides in a row.
pub proof fn law_casts_of_a_conjunction(s: GenView, left: ExprView, right: ExprView)
    ensures
        ({
            let both = ExprView::Binary {
                left: Box::new(left),
                operator: TType::And,
                right: Box::new(right),
            };
            let (s1, first) = casts_of(s, left, Seq::empty());
            let (s2, second) = casts_of(s1, right, Seq::empty());
            casts_of(s, both, Seq::empty()) == (s2, first + second)
        }),
{
    let (s1, first) = casts_of(s, left, Seq::empty());
    law_casts_go_behind(s1, right, first);
}

/// A check of the type of a variable allows one cast: the variable, as that type,
/// is the first value of a new immutable variable of its name. Everything else but
/// a conjunction allows none, and changes nothing.
pub proof fn law_casts_of_a_type_check(
    s: GenView,
    left: ExprView,
    operator: TType,
    right: ExprView,
)
    requires
        !(operator is And),
    ensures
        ({
            let condition = ExprView::Binary {
                left: Box::new(left),
                operator,
                right: Box::new(right),
            };
            match (operator, loaded_name(left), right.ty()) {
                (TType::Is, Some(name), Type::Type(ty)) => {
                    let (s1, var) = s.define(name, false, *ty);
                    let cast = ExprView::Cast {
                        inner: Box::new(left),
                        to: *ty,
                        method: CastType::Bitcast,
                    };
                    let store = ExprView::Store {
                        var,
                        value: Box::new(cast),
                        first_store: true,
                    };
                    casts_of(s, condition, Seq::empty()) == (s1, seq![store])
                },
                _ => casts_of(s, condition, Seq::empty()) == (s, Seq::<ExprView>::empty()),
            }
        }),
{
    let condition = ExprView::Binary { left: Box::new(left), operator, right: Box::new(right) };
    let list = casts_of(s, condition, Seq::empty()).1;
    if list.len() > 0 {
        assert(list =~= seq![list[0]]);
    }
}

} // verus!
