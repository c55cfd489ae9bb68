//! Proofs that the steps of the generator keep what they should not touch.

use crate::gir::declaration::{FunctionView, LocalView};
use crate::gir::expression::ExprView;
use crate::gir::types::{Instance, Type};
use crate::mir::generator::model::{FrameView, GenView};
use crate::mir::generator::rules::{
    call_function, casts_of, enter_closure, finish_closure, leave_closure, loaded_name, push_values,
};
use crate::ast::Closure;
use crate::lexer::token::{TType, Token};
use vstd::prelude::*;

verus! {

/// What two steps in a row keep.
pub proof fn lemma_kept_trans(a: GenView, b: GenView, c: GenView)
    requires
        a.wf(),
        b.kept(a),
        c.kept(b),
    ensures
        c.kept(a),
{
    let f = a.cur.function as int;
    let n = a.module.locals.len() as int;
    assert(b.module.locals.subrange(0, n) =~= c.module.locals.subrange(0, n));
    assert(c.module.functions[f] == (FunctionView {
        exprs: c.module.functions[f].exprs,
        variables: c.module.functions[f].variables,
        ..a.module.functions[f]
    }));
    assert forall|i: int| 0 <= i < a.module.functions.len() && i != f implies #[trigger]
        c.module.functions[i] == a.module.functions[i] by {
        assert(b.module.functions[i] == a.module.functions[i]);
    }
    assert forall|i: int| 0 <= i < a.outer.len() implies #[trigger] c.outer[i] == (FrameView {
        captured: c.outer[i].captured,
        ..a.outer[i]
    }) by {
        assert(b.outer[i] == (FrameView { captured: b.outer[i].captured, ..a.outer[i] }));
    }
}

/// A state that was kept is well-formed and ready for arrays if the one before
/// it was.
pub proof fn lemma_kept_wf(a: GenView, b: GenView)
    requires
        a.wf(),
        b.kept(a),
    ensures
        b.wf(),
        b.array_ready() == a.array_ready(),
{
    assert forall|i: int| 0 <= i < b.outer.len() implies (#[trigger] b.outer[i]).wf(
        b.module.functions.len(),
    ) by {
        assert(b.outer[i] == (FrameView { captured: b.outer[i].captured, ..a.outer[i] }));
        assert(a.outer[i].wf(a.module.functions.len()));
    }
}

/// What is kept inside a scope of its own is kept behind it, and the variables
/// in scope are those before it.
pub proof fn lemma_kept_scope(a: GenView, b: GenView)
    requires
        a.wf(),
        b.kept(a.begin_scope()),
    ensures
        b.end_scope().kept(a),
        b.end_scope().cur.scopes == a.cur.scopes,
        b.cur.scopes.len() > 1,
{
    assert(a.begin_scope().cur.scopes.drop_last() =~= a.cur.scopes);
}

/// A new scope leaves a well-formed state.
pub proof fn lemma_begin_scope(s: GenView)
    requires
        s.wf(),
    ensures
        s.begin_scope().wf(),
        s.begin_scope().array_ready() == s.array_ready(),
{
}

/// Another current loop keeps all but the loop.
pub proof fn lemma_kept_loop(a: GenView, b: GenView, l: Option<Option<LocalView>>)
    requires
        a.wf(),
        b.kept(a.with_loop(l)),
    ensures
        b.with_loop(a.cur.current_loop).kept(a),
{
}

/// A definition of a variable keeps all but the innermost scope.
pub proof fn lemma_define(s: GenView, name: Seq<char>, mutable: bool, ty: Type)
    requires
        s.wf(),
    ensures
        s.define(name, mutable, ty).0.kept(s),
        s.define(name, mutable, ty).0.wf(),
{
    let t = s.define(name, mutable, ty).0;
    assert(t.cur.scopes.drop_last() =~= s.cur.scopes.drop_last());
    assert(s.module.locals =~= t.module.locals.subrange(0, s.module.locals.len() as int));
    lemma_kept_wf(s, t);
}

/// An expression at the end of the current function keeps everything else.
pub proof fn lemma_insert(s: GenView, expr: ExprView)
    requires
        s.wf(),
    ensures
        s.insert_at_ptr(expr).kept(s),
        s.insert_at_ptr(expr).wf(),
{
    lemma_kept_wf(s, s.insert_at_ptr(expr));
}

/// A search for a variable changes only what is captured.
pub proof fn lemma_find_var(s: GenView, name: Seq<char>)
    requires
        s.wf(),
    ensures
        s.find_var(name).0.kept(s),
        s.find_var(name).0.wf(),
{
    let t = s.find_var(name).0;
    assert(t.cur.scopes == s.cur.scopes);
    lemma_kept_wf(s, t);
}

/// The variable of a loop keeps the loop.
pub proof fn lemma_loop_var(s: GenView, ty: Type)
    requires
        s.wf(),
    ensures
        s.loop_var(ty).0.wf(),
        s.cur.current_loop is Some ==> s.loop_var(ty).0.kept(s),
{
    lemma_define(s, "for-body"@, true, ty);
}

/// Casts define variables, and do nothing else.
pub proof fn lemma_casts(s: GenView, condition: ExprView, list: Seq<ExprView>)
    requires
        s.wf(),
    ensures
        casts_of(s, condition, list).0.kept(s),
        casts_of(s, condition, list).0.wf(),
    decreases condition,
{
    match condition {
        ExprView::Binary { left, operator, right } => match operator {
            TType::And => {
                let (s1, list1) = casts_of(s, *left, list);
                lemma_casts(s, *left, list);
                lemma_casts(s1, *right, list1);
                lemma_kept_trans(s, s1, casts_of(s1, *right, list1).0);
            },
            TType::Is => match (loaded_name(*left), right.ty()) {
                (Some(name), Type::Type(ty)) => {
                    lemma_define(s, name, false, *ty);
                },
                _ => {},
            },
            _ => {},
        },
        _ => {},
    }
}

/// Calls that fill an array go to the end of the current function.
pub proof fn lemma_push_values(
    s: GenView,
    push: Instance,
    array: ExprView,
    values: Seq<ExprView>,
    n: nat,
)
    requires
        s.wf(),
    ensures
        push_values(s, push, array, values, n).kept(s),
        push_values(s, push, array, values, n).wf(),
    decreases n,
{
    if n > 0 {
        let s1 = push_values(s, push, array, values, (n - 1) as nat);
        lemma_push_values(s, push, array, values, (n - 1) as nat);
        let call = call_function(s1.module, push, seq![array, values[n - 1]]);
        lemma_insert(s1, call);
        lemma_kept_trans(s, s1, s1.insert_at_ptr(call));
    }
}

/// Inside a closure there is a function and a scope.
pub proof fn lemma_enter_closure(
    s: GenView,
    closure: Closure,
    token: Token,
    types: Seq<Type>,
    ret_type: Type,
)
    requires
        s.wf(),
        s.module.functions.len() < usize::MAX,
    ensures
        enter_closure(s, closure, token, types, ret_type).wf(),
        enter_closure(s, closure, token, types, ret_type).array_ready() == s.array_ready(),
{
    let t = enter_closure(s, closure, token, types, ret_type);
    assert forall|i: int| 0 <= i < t.outer.len() implies (#[trigger] t.outer[i]).wf(
        t.module.functions.len(),
    ) by {
        if i < s.outer.len() {
            assert(t.outer[i] == s.outer[i]);
            assert(s.outer[i].wf(s.module.functions.len()));
        }
    }
}

/// Behind a closure, the function around it goes on where it was.
pub proof fn lemma_finish_closure(
    a: GenView,
    closure: Closure,
    token: Token,
    types: Seq<Type>,
    ret_type: Type,
    b: GenView,
)
    requires
        a.wf(),
        a.module.functions.len() < usize::MAX,
        b.kept(enter_closure(a, closure, token, types, ret_type)),
    ensures
        leave_closure(b).kept(a),
        leave_closure(b).wf(),
        finish_closure(b).0.kept(a),
        finish_closure(b).0.wf(),
        b.outer.len() > 0,
{
    let inside = enter_closure(a, closure, token, types, ret_type);
    let left = leave_closure(b);
    let f = a.cur.function as int;
    assert(b.outer[a.outer.len() as int] == (FrameView {
        captured: b.outer[a.outer.len() as int].captured,
        ..inside.outer[a.outer.len() as int]
    }));
    assert forall|i: int| 0 <= i < a.module.functions.len() implies #[trigger]
        left.module.functions[i] == a.module.functions[i] by {
        assert(b.module.functions[i] == inside.module.functions[i]);
    }
    assert forall|i: int| 0 <= i < a.outer.len() implies #[trigger] left.outer[i] == (FrameView {
        captured: left.outer[i].captured,
        ..a.outer[i]
    }) by {
        assert(b.outer[i] == (FrameView { captured: b.outer[i].captured, ..inside.outer[i] }));
    }
    let n = a.module.locals.len() as int;
    assert(a.module.locals =~= inside.module.locals.subrange(0, n));
    assert(inside.module.locals.subrange(0, n) =~= b.module.locals.subrange(0, n));
    assert(b.module.locals.subrange(0, n) =~= left.module.locals.subrange(0, n));
    assert(left.kept(a));
    lemma_kept_wf(a, left);
    let ty = left.module.functions[b.cur.function as int].closure_type();
    lemma_define(left, "closure-literal"@, false, ty);
    lemma_kept_trans(a, left, finish_closure(b).0);
}

} // verus!
