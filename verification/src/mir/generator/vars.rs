//! Variables in the state and in the code: all of them exist, and have the type
//! they were defined with.

use crate::ast::Closure;
use crate::gir::declaration::{FunctionView, LocalView, VariableView};
use crate::gir::expression::ExprView;
use crate::gir::module::{Member, ModuleView};
use crate::gir::types::Type;
use crate::lexer::token::Token;
use crate::mir::generator::model::{in_outer, in_scopes, Failure, FrameView, GenView};
use crate::mir::generator::rules::{
    closure_parameters, enter_closure, leave_closure, parameter_scope,
};
use vstd::prelude::*;

verus! {

/// Does the variable exist, with its type?
pub open spec fn var_ok(locals: Seq<Type>, var: LocalView) -> bool {
    var.id < locals.len() && locals[var.id as int] == var.ty
}

/// Do all variables of a table exist?
pub open spec fn table_ok(locals: Seq<Type>, table: Map<Seq<char>, LocalView>) -> bool {
    forall|name: Seq<char>| #[trigger] table.contains_key(name) ==> var_ok(locals, table[name])
}

/// Do all variables of a row exist?
pub open spec fn row_ok(locals: Seq<Type>, row: Seq<LocalView>) -> bool {
    forall|i: int| 0 <= i < row.len() ==> var_ok(locals, #[trigger] row[i])
}

/// Do all variables that the code uses exist?
pub open spec fn expr_ok(locals: Seq<Type>, expr: ExprView) -> bool
    decreases expr,
{
    match expr {
        ExprView::Allocate { args, .. } => forall|i: int|
            0 <= i < args.len() ==> expr_ok(locals, #[trigger] args[i]),
        ExprView::Binary { left, right, .. } => expr_ok(locals, *left) && expr_ok(locals, *right),
        ExprView::Block(exprs) => forall|i: int|
            0 <= i < exprs.len() ==> expr_ok(locals, #[trigger] exprs[i]),
        ExprView::Break(value) => match value {
            Some(value) => expr_ok(locals, *value),
            None => true,
        },
        ExprView::Call { callee, arguments, .. } => expr_ok(locals, *callee) && forall|i: int|
            0 <= i < arguments.len() ==> expr_ok(locals, #[trigger] arguments[i]),
        ExprView::CallDyn { arguments, .. } => forall|i: int|
            0 <= i < arguments.len() ==> expr_ok(locals, #[trigger] arguments[i]),
        ExprView::Cast { inner, .. } => expr_ok(locals, *inner),
        ExprView::Closure { .. } => true,
        ExprView::If { condition, then_branch, else_branch, .. } => expr_ok(locals, *condition)
            && expr_ok(locals, *then_branch) && expr_ok(locals, *else_branch),
        ExprView::Literal(_) => true,
        ExprView::Load { object, .. } => expr_ok(locals, *object),
        ExprView::Loop { condition, body, else_branch, result_store } => {
            &&& expr_ok(locals, *condition)
            &&& expr_ok(locals, *body)
            &&& match else_branch {
                Some(e) => expr_ok(locals, *e),
                None => true,
            }
            &&& match result_store {
                Some(var) => var_ok(locals, var),
                None => true,
            }
        },
        ExprView::Return(value) => expr_ok(locals, *value),
        ExprView::Store { var, value, .. } => var_ok(locals, var) && expr_ok(locals, *value),
        ExprView::StoreField { object, value, .. } => expr_ok(locals, *object) && expr_ok(
            locals,
            *value,
        ),
        ExprView::Switch { cases, else_branch, .. } => {
            &&& forall|i: int|
                0 <= i < cases.len() ==> expr_ok(locals, (#[trigger] cases[i]).0) && expr_ok(
                    locals,
                    cases[i].1,
                )
            &&& match else_branch {
                Some(e) => expr_ok(locals, *e),
                None => true,
            }
        },
        ExprView::TypeGet(_) => true,
        ExprView::Unary { right, .. } => expr_ok(locals, *right),
        ExprView::Variable(var) => match var {
            VariableView::Local(local) => var_ok(locals, local),
            VariableView::Function { .. } => true,
        },
    }
}

/// Do all variables that the expressions use exist?
pub open spec fn exprs_ok(locals: Seq<Type>, exprs: Seq<ExprView>) -> bool {
    forall|i: int| 0 <= i < exprs.len() ==> expr_ok(locals, #[trigger] exprs[i])
}

/// Do all variables that the cases use exist?
pub open spec fn cases_ok(locals: Seq<Type>, cases: Seq<(ExprView, ExprView)>) -> bool {
    forall|i: int|
        0 <= i < cases.len() ==> expr_ok(locals, (#[trigger] cases[i]).0) && expr_ok(
            locals,
            cases[i].1,
        )
}

/// Do all variables of a function exist, and all that its code uses?
pub open spec fn function_ok(locals: Seq<Type>, function: FunctionView) -> bool {
    &&& row_ok(locals, function.parameters)
    &&& table_ok(locals, function.variables)
    &&& exprs_ok(locals, function.exprs)
}

/// Do all variables exist that can be used where code is generated?
pub open spec fn frame_ok(locals: Seq<Type>, frame: FrameView) -> bool {
    &&& forall|i: int|
        0 <= i < frame.scopes.len() ==> table_ok(locals, #[trigger] frame.scopes[i])
    &&& frame.current_loop matches Some(Some(var)) ==> var_ok(locals, var)
    &&& row_ok(locals, frame.captured)
}

/// Do all variables of the module exist?
pub open spec fn module_ok(module: ModuleView) -> bool {
    &&& forall|i: int|
        0 <= i < module.functions.len() ==> function_ok(
            module.locals,
            #[trigger] module.functions[i],
        )
    &&& forall|i: int|
        0 <= i < module.captures.len() ==> row_ok(module.locals, #[trigger] module.captures[i])
}

/// Do all variables of the state exist?
#[verifier::opaque]
pub open spec fn state_ok(s: GenView) -> bool {
    &&& module_ok(s.module)
    &&& frame_ok(s.module.locals, s.cur)
    &&& forall|i: int|
        0 <= i < s.outer.len() ==> frame_ok(s.module.locals, #[trigger] s.outer[i])
}

/// Code that uses variables that exist goes on doing so when there are more.
pub proof fn lemma_expr_grow(fewer: Seq<Type>, more: Seq<Type>, expr: ExprView)
    requires
        fewer.is_prefix_of(more),
        expr_ok(fewer, expr),
    ensures
        expr_ok(more, expr),
    decreases expr,
{
    match expr {
        ExprView::Allocate { args, .. } => {
            assert forall|i: int| 0 <= i < args.len() implies expr_ok(
                more,
                #[trigger] args[i],
            ) by {
                lemma_expr_grow(fewer, more, args[i]);
            }
        },
        ExprView::Binary { left, right, .. } => {
            lemma_expr_grow(fewer, more, *left);
            lemma_expr_grow(fewer, more, *right);
        },
        ExprView::Block(exprs) => {
            assert forall|i: int| 0 <= i < exprs.len() implies expr_ok(
                more,
                #[trigger] exprs[i],
            ) by {
                lemma_expr_grow(fewer, more, exprs[i]);
            }
        },
        ExprView::Break(value) => match value {
            Some(value) => lemma_expr_grow(fewer, more, *value),
            None => {},
        },
        ExprView::Call { callee, arguments, .. } => {
            lemma_expr_grow(fewer, more, *callee);
            assert forall|i: int| 0 <= i < arguments.len() implies expr_ok(
                more,
                #[trigger] arguments[i],
            ) by {
                lemma_expr_grow(fewer, more, arguments[i]);
            }
        },
        ExprView::CallDyn { arguments, .. } => {
            assert forall|i: int| 0 <= i < arguments.len() implies expr_ok(
                more,
                #[trigger] arguments[i],
            ) by {
                lemma_expr_grow(fewer, more, arguments[i]);
            }
        },
        ExprView::Cast { inner, .. } => lemma_expr_grow(fewer, more, *inner),
        ExprView::If { condition, then_branch, else_branch, .. } => {
            lemma_expr_grow(fewer, more, *condition);
            lemma_expr_grow(fewer, more, *then_branch);
            lemma_expr_grow(fewer, more, *else_branch);
        },
        ExprView::Load { object, .. } => lemma_expr_grow(fewer, more, *object),
        ExprView::Loop { condition, body, else_branch, .. } => {
            lemma_expr_grow(fewer, more, *condition);
            lemma_expr_grow(fewer, more, *body);
            match else_branch {
                Some(e) => lemma_expr_grow(fewer, more, *e),
                None => {},
            }
        },
        ExprView::Return(value) => lemma_expr_grow(fewer, more, *value),
        ExprView::Store { value, .. } => lemma_expr_grow(fewer, more, *value),
        ExprView::StoreField { object, value, .. } => {
            lemma_expr_grow(fewer, more, *object);
            lemma_expr_grow(fewer, more, *value);
        },
        ExprView::Switch { cases, else_branch, .. } => {
            assert forall|i: int| 0 <= i < cases.len() implies expr_ok(
                more,
                (#[trigger] cases[i]).0,
            ) && expr_ok(more, cases[i].1) by {
                lemma_expr_grow(fewer, more, cases[i].0);
                lemma_expr_grow(fewer, more, cases[i].1);
            }
            match else_branch {
                Some(e) => lemma_expr_grow(fewer, more, *e),
                None => {},
            }
        },
        ExprView::Unary { right, .. } => lemma_expr_grow(fewer, more, *right),
        _ => {},
    }
}

/// The same of expressions in a row.
pub proof fn lemma_exprs_grow(fewer: Seq<Type>, more: Seq<Type>, exprs: Seq<ExprView>)
    requires
        fewer.is_prefix_of(more),
        exprs_ok(fewer, exprs),
    ensures
        exprs_ok(more, exprs),
{
    assert forall|i: int| 0 <= i < exprs.len() implies expr_ok(more, #[trigger] exprs[i]) by {
        lemma_expr_grow(fewer, more, exprs[i]);
    }
}

/// The same of cases in a row.
pub proof fn lemma_cases_grow(fewer: Seq<Type>, more: Seq<Type>, cases: Seq<(ExprView, ExprView)>)
    requires
        fewer.is_prefix_of(more),
        cases_ok(fewer, cases),
    ensures
        cases_ok(more, cases),
{
    assert forall|i: int| 0 <= i < cases.len() implies expr_ok(more, (#[trigger] cases[i]).0)
        && expr_ok(more, cases[i].1) by {
        lemma_expr_grow(fewer, more, cases[i].0);
        lemma_expr_grow(fewer, more, cases[i].1);
    }
}

proof fn lemma_function_grow(fewer: Seq<Type>, more: Seq<Type>, function: FunctionView)
    requires
        fewer.is_prefix_of(more),
        function_ok(fewer, function),
    ensures
        function_ok(more, function),
{
    lemma_exprs_grow(fewer, more, function.exprs);
}

proof fn lemma_frame_grow(fewer: Seq<Type>, more: Seq<Type>, frame: FrameView)
    requires
        fewer.is_prefix_of(more),
        frame_ok(fewer, frame),
    ensures
        frame_ok(more, frame),
{
    assert forall|i: int| 0 <= i < frame.scopes.len() implies table_ok(
        more,
        #[trigger] frame.scopes[i],
    ) by {
        assert(table_ok(fewer, frame.scopes[i]));
    }
}

/// A new scope is empty.
pub proof fn lemma_begin_ok(s: GenView)
    requires
        state_ok(s),
    ensures
        state_ok(s.begin_scope()),
{
    reveal(state_ok);
}

/// The end of a scope takes variables away only.
pub proof fn lemma_end_ok(s: GenView)
    requires
        state_ok(s),
        s.cur.scopes.len() > 0,
    ensures
        state_ok(s.end_scope()),
{
    reveal(state_ok);
}

/// A loop whose variable exists.
pub proof fn lemma_loop_ok(s: GenView, l: Option<Option<LocalView>>)
    requires
        state_ok(s),
        l matches Some(Some(var)) ==> var_ok(s.module.locals, var),
    ensures
        state_ok(s.with_loop(l)),
{
    reveal(state_ok);
}

/// The variable of the current loop exists.
pub proof fn lemma_current_loop_ok(s: GenView)
    requires
        state_ok(s),
    ensures
        s.cur.current_loop matches Some(Some(var)) ==> var_ok(s.module.locals, var),
{
    reveal(state_ok);
}

/// The state with the type of one more variable.
proof fn lemma_local_ok(s: GenView, ty: Type)
    requires
        state_ok(s),
    ensures
        state_ok(s.with_local(ty)),
        s.module.locals.is_prefix_of(s.with_local(ty).module.locals),
{
    reveal(state_ok);
    let t = s.with_local(ty);
    assert(s.module.locals =~= t.module.locals.subrange(0, s.module.locals.len() as int));
    lemma_frame_grow(s.module.locals, t.module.locals, s.cur);
    assert forall|i: int| 0 <= i < t.outer.len() implies frame_ok(
        t.module.locals,
        #[trigger] t.outer[i],
    ) by {
        lemma_frame_grow(s.module.locals, t.module.locals, s.outer[i]);
    }
    assert forall|i: int| 0 <= i < t.module.functions.len() implies function_ok(
        t.module.locals,
        #[trigger] t.module.functions[i],
    ) by {
        lemma_function_grow(s.module.locals, t.module.locals, s.module.functions[i]);
    }
    assert forall|i: int| 0 <= i < t.module.captures.len() implies row_ok(
        t.module.locals,
        #[trigger] t.module.captures[i],
    ) by {
        assert(row_ok(s.module.locals, s.module.captures[i]));
    }
}

/// The state with a current function of which all variables exist.
proof fn lemma_with_function_ok(s: GenView, function: FunctionView)
    requires
        state_ok(s),
        s.wf(),
        function_ok(s.module.locals, function),
    ensures
        state_ok(s.with_function(function)),
{
    reveal(state_ok);
}

/// A variable that is defined exists from then on, and no variable that existed
/// before has its number.
pub proof fn lemma_define_ok(s: GenView, name: Seq<char>, mutable: bool, ty: Type)
    requires
        s.wf(),
        state_ok(s),
        s.module.locals.len() < usize::MAX,
    ensures
        state_ok(s.define(name, mutable, ty).0),
        var_ok(s.define(name, mutable, ty).0.module.locals, s.define(name, mutable, ty).1),
        s.module.locals.is_prefix_of(s.define(name, mutable, ty).0.module.locals),
{
    let var = s.next_local(name, mutable, ty);
    let s1 = s.with_local(ty);
    lemma_local_ok(s, ty);
    let function = s.function().with_variable(name, var);
    assert(function_ok(s1.module.locals, s1.function())) by {
        reveal(state_ok);
    }
    assert(function_ok(s1.module.locals, function));
    lemma_with_function_ok(s1, function);
    let s2 = s1.with_function(function);
    let t = GenView { cur: s2.cur.bind(name, var), ..s2 };
    assert(state_ok(t)) by {
        reveal(state_ok);
        assert forall|i: int| 0 <= i < t.cur.scopes.len() implies table_ok(
            t.module.locals,
            #[trigger] t.cur.scopes[i],
        ) by {
            assert(table_ok(s2.module.locals, s2.cur.scopes[i]));
        }
    }
}

/// An expression of which all variables exist, at the end of the current function.
pub proof fn lemma_insert_ok(s: GenView, expr: ExprView)
    requires
        s.wf(),
        state_ok(s),
        expr_ok(s.module.locals, expr),
    ensures
        state_ok(s.insert_at_ptr(expr)),
{
    assert(function_ok(s.module.locals, s.function())) by {
        reveal(state_ok);
    }
    assert(function_ok(s.module.locals, s.function().with_expr(expr)));
    lemma_with_function_ok(s, s.function().with_expr(expr));
}

proof fn lemma_in_scopes_ok(
    locals: Seq<Type>,
    scopes: Seq<Map<Seq<char>, LocalView>>,
    name: Seq<char>,
)
    requires
        forall|i: int| 0 <= i < scopes.len() ==> table_ok(locals, #[trigger] scopes[i]),
    ensures
        in_scopes(scopes, name) matches Some(var) ==> var_ok(locals, var),
    decreases scopes.len(),
{
    if scopes.len() > 0 {
        assert(table_ok(locals, scopes[scopes.len() - 1]));
        lemma_in_scopes_ok(locals, scopes.drop_last(), name);
    }
}

proof fn lemma_in_outer_ok(locals: Seq<Type>, outer: Seq<FrameView>, name: Seq<char>)
    requires
        forall|i: int| 0 <= i < outer.len() ==> frame_ok(locals, #[trigger] outer[i]),
    ensures
        in_outer(outer, name) matches Some((_, var)) ==> var_ok(locals, var),
    decreases outer.len(),
{
    if outer.len() > 0 {
        assert(frame_ok(locals, outer[outer.len() - 1]));
        lemma_in_scopes_ok(locals, outer.last().scopes, name);
        lemma_in_outer_ok(locals, outer.drop_last(), name);
    }
}

/// A variable that is found exists.
pub proof fn lemma_find_ok(s: GenView, name: Seq<char>)
    requires
        state_ok(s),
    ensures
        state_ok(s.find_var(name).0),
        s.find_var(name).1 matches Some(var) ==> expr_ok(
            s.module.locals,
            ExprView::Variable(var),
        ),
{
    reveal(state_ok);
    lemma_in_scopes_ok(s.module.locals, s.cur.scopes, name);
    lemma_in_outer_ok(s.module.locals, s.outer, name);
    let t = s.find_var(name).0;
    assert forall|i: int| 0 <= i < t.outer.len() implies frame_ok(
        t.module.locals,
        #[trigger] t.outer[i],
    ) by {
        assert(frame_ok(s.module.locals, s.outer[i]));
    }
}

/// Which fields have a value has no part in which variables exist.
pub proof fn lemma_uninitialized_ok(s: GenView, uninitialized: Set<Seq<char>>)
    requires
        state_ok(s),
    ensures
        state_ok(GenView { cur: FrameView { uninitialized, ..s.cur }, ..s }),
{
    reveal(state_ok);
}

/// Inside a closure, its parameters exist.
pub proof fn lemma_enter_ok(
    s: GenView,
    closure: Closure,
    token: Token,
    types: Seq<Type>,
    ret_type: Type,
)
    requires
        s.wf(),
        state_ok(s),
        s.module.locals.len() + 1 + types.len() <= usize::MAX,
    ensures
        state_ok(enter_closure(s, closure, token, types, ret_type)),
{
    reveal(state_ok);
    let t = enter_closure(s, closure, token, types, ret_type);
    let parameters = closure_parameters(s, closure, types);
    let (fewer, more) = (s.module.locals, t.module.locals);
    assert(fewer =~= more.subrange(0, fewer.len() as int));
    assert forall|i: int| 0 <= i < parameters.len() implies var_ok(
        more,
        #[trigger] parameters[i],
    ) by {
        if i > 0 {
            assert(parameters[i].ty == types[i - 1]);
            assert(more[fewer.len() + i] == types[i - 1]);
        }
    }
    lemma_parameter_scope_ok(more, parameters, parameters.len());
    assert(t.cur.scopes[0] == parameter_scope(parameters, parameters.len()));
    assert forall|i: int| 0 <= i < t.outer.len() implies frame_ok(more, #[trigger] t.outer[i]) by {
        if i < s.outer.len() {
            lemma_frame_grow(fewer, more, s.outer[i]);
        } else {
            lemma_frame_grow(fewer, more, s.cur);
        }
    }
    assert forall|i: int| 0 <= i < t.module.functions.len() implies function_ok(
        more,
        #[trigger] t.module.functions[i],
    ) by {
        if i < s.module.functions.len() {
            lemma_function_grow(fewer, more, s.module.functions[i]);
        }
    }
    assert forall|i: int| 0 <= i < t.module.captures.len() implies row_ok(
        more,
        #[trigger] t.module.captures[i],
    ) by {
        assert(row_ok(fewer, s.module.captures[i]));
    }
}

/// The scope of parameters that exist.
pub proof fn lemma_parameter_scope_ok(locals: Seq<Type>, parameters: Seq<LocalView>, n: nat)
    requires
        row_ok(locals, parameters),
        n <= parameters.len(),
    ensures
        table_ok(locals, parameter_scope(parameters, n)),
    decreases n,
{
    if n > 0 {
        lemma_parameter_scope_ok(locals, parameters, (n - 1) as nat);
        assert(var_ok(locals, parameters[n - 1]));
    }
}

/// Behind a closure, all variables of the function around it exist.
pub proof fn lemma_leave_ok(s: GenView)
    requires
        s.wf(),
        state_ok(s),
        s.outer.len() > 0,
        s.function().parameters.len() > 0,
        s.module.locals.len() < usize::MAX,
    ensures
        state_ok(leave_closure(s)),
{
    let captured = Type::ClosureCaptured(s.module.captures.len() as usize);
    let s1 = s.with_local(captured);
    lemma_local_ok(s, captured);
    let var = s.next_local("CLOSURE-CAPTURED"@, false, captured);
    let function = FunctionView {
        parameters: s.function().parameters.update(0, var),
        ..s.function()
    };
    assert(function_ok(s1.module.locals, s1.function())) by {
        reveal(state_ok);
    }
    assert forall|i: int| 0 <= i < function.parameters.len() implies var_ok(
        s1.module.locals,
        #[trigger] function.parameters[i],
    ) by {
        if i > 0 {
            assert(var_ok(s1.module.locals, s1.function().parameters[i]));
        }
    }
    lemma_with_function_ok(s1, function);
    let s2 = s1.with_function(function);
    let t = leave_closure(s);
    assert(state_ok(t)) by {
        reveal(state_ok);
        assert(frame_ok(s2.module.locals, s2.outer[s2.outer.len() - 1]));
        assert forall|i: int| 0 <= i < t.outer.len() implies frame_ok(
            t.module.locals,
            #[trigger] t.outer[i],
        ) by {
            assert(frame_ok(s2.module.locals, s2.outer[i]));
        }
        assert forall|i: int| 0 <= i < t.module.captures.len() implies row_ok(
            t.module.locals,
            #[trigger] t.module.captures[i],
        ) by {
            if i < s2.module.captures.len() {
                assert(row_ok(s2.module.locals, s2.module.captures[i]));
            }
        }
    }
}

/// Code stays right while more code is generated.
pub proof fn lemma_keep_expr(a: GenView, b: GenView, expr: ExprView)
    requires
        b.kept(a),
    ensures
        expr_ok(a.module.locals, expr) ==> expr_ok(b.module.locals, expr),
{
    if expr_ok(a.module.locals, expr) {
        lemma_expr_grow(a.module.locals, b.module.locals, expr);
    }
}

/// Expressions in a row stay right while more code is generated.
pub proof fn lemma_keep_exprs(a: GenView, b: GenView, exprs: Seq<ExprView>)
    requires
        b.kept(a),
    ensures
        exprs_ok(a.module.locals, exprs) ==> exprs_ok(b.module.locals, exprs),
{
    if exprs_ok(a.module.locals, exprs) {
        lemma_exprs_grow(a.module.locals, b.module.locals, exprs);
    }
}

/// Cases in a row stay right while more code is generated.
pub proof fn lemma_keep_cases(a: GenView, b: GenView, cases: Seq<(ExprView, ExprView)>)
    requires
        b.kept(a),
    ensures
        cases_ok(a.module.locals, cases) ==> cases_ok(b.module.locals, cases),
{
    if cases_ok(a.module.locals, cases) {
        lemma_cases_grow(a.module.locals, b.module.locals, cases);
    }
}

/// Where all variables existed before, they do behind a step, and so do those
/// that the generated code uses.
pub open spec fn sound(before: GenView, after: GenView, r: Result<ExprView, Failure>) -> bool {
    state_ok(before) ==> state_ok(after) && (r matches Ok(expr) ==> expr_ok(
        after.module.locals,
        expr,
    ))
}

/// The same of a step that may not apply.
pub open spec fn sound_option(
    before: GenView,
    after: GenView,
    r: Result<Option<ExprView>, Failure>,
) -> bool {
    state_ok(before) ==> state_ok(after) && (r matches Ok(Some(expr)) ==> expr_ok(
        after.module.locals,
        expr,
    ))
}

/// The same of expressions in a row.
pub open spec fn sound_all(
    before: GenView,
    after: GenView,
    r: Result<Seq<ExprView>, Failure>,
) -> bool {
    state_ok(before) ==> state_ok(after) && (r matches Ok(exprs) ==> exprs_ok(
        after.module.locals,
        exprs,
    ))
}

/// The same of an object with its member.
pub open spec fn sound_member(
    before: GenView,
    after: GenView,
    r: Result<(ExprView, Member), Failure>,
) -> bool {
    state_ok(before) ==> state_ok(after) && (r matches Ok(pair) ==> expr_ok(
        after.module.locals,
        pair.0,
    ))
}

/// The same of the branch behind a loop.
pub open spec fn sound_else(
    before: GenView,
    after: GenView,
    r: Result<(Option<ExprView>, Option<LocalView>), Failure>,
) -> bool {
    state_ok(before) ==> state_ok(after) && (r matches Ok(pair) ==> {
        &&& pair.0 matches Some(expr) ==> expr_ok(after.module.locals, expr)
        &&& pair.1 matches Some(var) ==> var_ok(after.module.locals, var)
    })
}

/// The same of the cases of a choice.
pub open spec fn sound_cases(
    before: GenView,
    after: GenView,
    r: Result<Seq<(ExprView, ExprView)>, Failure>,
) -> bool {
    state_ok(before) ==> state_ok(after) && (r matches Ok(cases) ==> cases_ok(
        after.module.locals,
        cases,
    ))
}

/// At the start, the parameters of the function are in scope.
pub proof fn lemma_new_ok(s: GenView)
    requires
        module_ok(s.module),
        s.wf(),
        s.cur == (FrameView {
            function: s.cur.function,
            scopes: seq![parameter_scope(s.function().parameters, s.function().parameters.len())],
            uninitialized: Set::empty(),
            current_loop: None,
            captured: Seq::empty(),
        }),
        s.outer.len() == 0,
    ensures
        state_ok(s),
{
    reveal(state_ok);
    assert(function_ok(s.module.locals, s.function()));
    lemma_parameter_scope_ok(
        s.module.locals,
        s.function().parameters,
        s.function().parameters.len(),
    );
    assert(s.cur.scopes[0] == parameter_scope(
        s.function().parameters,
        s.function().parameters.len(),
    ));
}

} // verus!
