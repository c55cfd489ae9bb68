//! What closures, types and names of the source stand for.

use crate::ast::{ASTType, Closure, Expression, Literal};
use crate::gir::declaration::{Declaration, LocalView, VariableView};
use crate::gir::expression::ExprView;
use crate::gir::types::{lemma_type_list, Instance, Type};
use crate::lexer::token::Token;
use crate::mir::generator::code::{after, code, works};
use crate::mir::generator::model::{in_outer, in_scopes, Failure, FrameView, GenView};
use crate::mir::generator::rules::{
    enter_closure, finish_closure, function_body, gen_closure, gen_expr, gen_literal,
    gen_var_with_generics, parameter_scope, parameter_types, resolve, resolve_all, return_type,
};
use crate::text::decimal;
use vstd::prelude::*;

verus! {

/// A name stands for the variable of the innermost scope that has one, and for
/// none only if no scope has one.
pub proof fn law_innermost_scope_wins(scopes: Seq<Map<Seq<char>, LocalView>>, name: Seq<char>)
    ensures
        match in_scopes(scopes, name) {
            Some(var) => exists|k: int|
                0 <= k < scopes.len() && (#[trigger] scopes[k]).contains_key(name)
                    && scopes[k][name] == var && forall|j: int|
                    k < j < scopes.len() ==> !(#[trigger] scopes[j]).contains_key(name),
            None => forall|j: int|
                0 <= j < scopes.len() ==> !(#[trigger] scopes[j]).contains_key(name),
        },
    decreases scopes.len(),
{
    if scopes.len() > 0 {
        let rest = scopes.drop_last();
        let last = scopes.len() - 1;
        if scopes.last().contains_key(name) {
            assert(scopes[last].contains_key(name));
        } else {
            law_innermost_scope_wins(rest, name);
            if let Some(var) = in_scopes(scopes, name) {
                let k = choose|k: int|
                    0 <= k < rest.len() && (#[trigger] rest[k]).contains_key(name)
                        && rest[k][name] == var && forall|j: int|
                        k < j < rest.len() ==> !(#[trigger] rest[j]).contains_key(name);
                assert(scopes[k].contains_key(name));
                assert forall|j: int| k < j < scopes.len() implies !(
                #[trigger] scopes[j]).contains_key(name) by {
                    if j < last {
                        assert(rest[j] == scopes[j]);
                    }
                }
            } else {
                assert forall|j: int| 0 <= j < scopes.len() implies !(
                #[trigger] scopes[j]).contains_key(name) by {
                    if j < last {
                        assert(rest[j] == scopes[j]);
                    }
                }
            }
        }
    }
}

/// Of the functions around the current one, the innermost that has a variable of a
/// name gives it.
pub proof fn law_innermost_function_wins(outer: Seq<FrameView>, name: Seq<char>)
    ensures
        match in_outer(outer, name) {
            Some((place, var)) => 0 <= place < outer.len() && in_scopes(outer[place].scopes, name)
                == Some(var) && forall|j: int|
                place < j < outer.len() ==> in_scopes((#[trigger] outer[j]).scopes, name) is None,
            None => forall|j: int|
                0 <= j < outer.len() ==> in_scopes((#[trigger] outer[j]).scopes, name) is None,
        },
    decreases outer.len(),
{
    if outer.len() > 0 {
        let rest = outer.drop_last();
        law_innermost_function_wins(rest, name);
        assert forall|j: int| 0 <= j < rest.len() implies #[trigger] outer[j] == rest[j] by {}
    }
}

/// Does a function capture the variable?
pub open spec fn captures(frame: FrameView, var: LocalView) -> bool {
    exists|i: int| 0 <= i < frame.captured.len() && (#[trigger] frame.captured[i]).id == var.id
}

/// Does a function capture what it did, and at most the variable as well?
pub open spec fn captures_more(before: FrameView, now: FrameView, var: LocalView) -> bool {
    &&& captures(now, var)
    &&& now.captured == if captures(before, var) {
        before.captured
    } else {
        before.captured.push(var)
    }
    &&& now.scopes == before.scopes
    &&& now.function == before.function
    &&& now.current_loop == before.current_loop
    &&& now.uninitialized == before.uninitialized
}

/// A name stands for a variable of the current function, or else for one of a
/// function around it, or else for a declared function. A variable of a function
/// around it is captured by the functions from the current one out to that one, and
/// by no others; nothing else changes.
pub proof fn law_names_are_found_from_the_inside(s: GenView, name: Seq<char>)
    ensures
        ({
            let (t, found) = s.find_var(name);
            match (in_scopes(s.cur.scopes, name), in_outer(s.outer, name)) {
                (Some(var), _) => t == s && found == Some(VariableView::Local(var)),
                (None, Some((place, var))) => {
                    &&& found == Some(VariableView::Local(var))
                    &&& captures_more(s.cur, t.cur, var)
                    &&& t.outer.len() == s.outer.len()
                    &&& forall|i: int|
                        place < i < s.outer.len() ==> captures_more(
                            s.outer[i],
                            #[trigger] t.outer[i],
                            var,
                        )
                    &&& forall|i: int|
                        0 <= i <= place && i < s.outer.len() ==> s.outer[i]
                            == #[trigger] t.outer[i]
                    &&& t.module == s.module && t.builder == s.builder && t.environments
                        == s.environments
                },
                (None, None) => {
                    &&& t == s
                    &&& found matches Some(var) ==> s.module.declarations.contains_key(name) && (
                    s.module.declarations[name] matches Declaration::Function(f) && (var
                        matches VariableView::Function { func, name: own } && func
                        == Instance::plain(f) && (f < s.module.functions.len() ==> own
                        == s.module.functions[f as int].name)))
                    &&& found is None ==> s.module.declarations.contains_key(name)
                        ==> s.module.declarations[name] is Adt
                },
            }
        }),
{
    if in_scopes(s.cur.scopes, name) is None && in_outer(s.outer, name) is Some {
        let (place, var) = in_outer(s.outer, name)->0;
        let t = s.find_var(name).0;
        law_innermost_function_wins(s.outer, name);
        lemma_capture(s.cur, var);
        assert forall|i: int| place < i < s.outer.len() implies captures_more(
            s.outer[i],
            #[trigger] t.outer[i],
            var,
        ) by {
            lemma_capture(s.outer[i], var);
        }
    }
}

proof fn lemma_capture(frame: FrameView, var: LocalView)
    ensures
        captures_more(frame, frame.capture(var), var),
{
    if !captures(frame, var) {
        assert(frame.captured.push(var)[frame.captured.len() as int].id == var.id);
    }
}

/// The types of a list are resolved one by one, in their order.
proof fn lemma_resolve_all(s: GenView, types: Vec<ASTType>, i: nat, done: Seq<Type>)
    requires
        i <= types@.len(),
    ensures
        resolve_all(s, types, i, done) matches Ok(all) ==> all.len() == done.len() + types@.len()
            - i && (forall|j: int| 0 <= j < done.len() ==> #[trigger] all[j] == done[j]) && (
        forall|j: int|
            i <= j < types@.len() ==> resolve(s, #[trigger] types@[j]) == Ok::<Type, Failure>(
                all[done.len() + j - i],
            )),
        (forall|j: int| i <= j < types@.len() ==> resolve(s, #[trigger] types@[j]) is Ok)
            ==> resolve_all(s, types, i, done) is Ok,
    decreases types@.len() - i,
{
    if i < types@.len() && resolve(s, types@[i as int]) is Ok {
        let ty = resolve(s, types@[i as int])->Ok_0;
        lemma_resolve_all(s, types, i + 1, done.push(ty));
        if let Ok(all) = resolve_all(s, types, i, done) {
            assert(resolve_all(s, types, i + 1, done.push(ty)) == Ok::<_, Failure>(all));
            assert forall|j: int| 0 <= j < done.len() implies #[trigger] all[j] == done[j] by {
                assert(all[j] == done.push(ty)[j]);
            }
            assert(all[done.len() as int] == done.push(ty)[done.len() as int]);
        }
    }
}

/// A type with type arguments is the declaration of its name, with the types that
/// its arguments stand for, in their order. There have to be as many as the
/// declaration has type parameters.
pub proof fn law_type_arguments_keep_their_order(
    s: GenView,
    token: Token,
    types: Vec<ASTType>,
    args: Seq<Type>,
)
    requires
        args.len() == types@.len(),
        forall|i: int|
            0 <= i < types@.len() ==> resolve(s, #[trigger] types@[i]) == Ok::<Type, Failure>(
                args[i],
            ),
    ensures
        ({
            let r = resolve(s, ASTType::Generic { token, types });
            if !s.module.prototypes.contains_key(token.lexeme@) {
                r is Err
            } else {
                match s.module.prototypes[token.lexeme@] {
                    Declaration::Adt(a) => {
                        &&& r is Ok <==> a < s.module.adts.len()
                            && s.module.adts[a as int].type_parameters@.len() == args.len()
                        &&& r is Ok ==> (r->Ok_0 matches Type::Adt(inst) && inst.ty == a
                            && inst.args@ == args)
                    },
                    Declaration::Function(f) => {
                        &&& r is Ok <==> f < s.module.functions.len()
                            && s.module.functions[f as int].type_parameters.len() == args.len()
                        &&& r is Ok ==> (r->Ok_0 matches Type::Function(inst) && inst.ty == f
                            && inst.args@ == args)
                    },
                }
            }
        }),
{
    lemma_resolve_all(s, types, 0, Seq::empty());
    let all = resolve_all(s, types, 0, Seq::empty())->Ok_0;
    assert forall|j: int| 0 <= j < args.len() implies all[j] == args[j] by {
        assert(resolve(s, types@[j]) is Ok);
    }
    assert(all =~= args);
    lemma_type_list(args);
    assert(resolve(s, ASTType::Generic { token, types }) is Ok ==> resolve_all(
        s,
        types,
        0,
        Seq::empty(),
    ) is Ok);
}

/// A name with type arguments is the function or the type that it stands for with
/// these arguments; nothing changes.
pub proof fn law_generic_names_stand_for_their_declaration(
    s: GenView,
    name: Token,
    generics: Vec<ASTType>,
)
    ensures
        ({
            let e = Expression::VarWithGenerics { name, generics };
            &&& after(s, e) == s
            &&& match resolve(s, ASTType::Generic { token: name, types: generics }) {
                Err(f) => gen_expr(s, e).1 == Err::<ExprView, Failure>(f),
                Ok(Type::Function(inst)) => works(s, e) && (code(s, e) matches ExprView::Variable(
                    VariableView::Function { func, name: own },
                ) && func == inst && (inst.ty < s.module.functions.len() ==> own
                    == s.module.functions[inst.ty as int].name)),
                Ok(ty) => works(s, e) && code(s, e) == ExprView::TypeGet(ty),
            }
        }),
{
    let e = Expression::VarWithGenerics { name, generics };
    assert(gen_expr(s, e) == gen_var_with_generics(s, name, generics));
}

/// The type of a parameter of a closure.
pub open spec fn parameter_type(s: GenView, closure: Closure, i: int) -> Result<Type, Failure> {
    resolve(s, closure.parameters@[i].type_->0)
}

/// The state at the start of the body of a closure.
pub open spec fn inside_closure(s: GenView, closure: Closure, token: Token) -> GenView {
    enter_closure(
        s,
        closure,
        token,
        Seq::new(closure.parameters@.len(), |i: int| parameter_type(s, closure, i)->Ok_0),
        return_type(s, closure)->Ok_0,
    )
}

pub proof fn lemma_parameter_types(s: GenView, closure: Closure, i: nat, done: Seq<Type>)
    requires
        i <= closure.parameters@.len(),
    ensures
        parameter_types(s, closure, i, done) is Ok <==> forall|j: int|
            i <= j < closure.parameters@.len() ==> (#[trigger] parameter_type(s, closure, j)) is Ok,
        parameter_types(s, closure, i, done) matches Ok(all) ==> all =~= done + Seq::new(
            (closure.parameters@.len() - i) as nat,
            |j: int| parameter_type(s, closure, i + j)->Ok_0,
        ),
    decreases closure.parameters@.len() - i,
{
    if i < closure.parameters@.len() {
        let ty = parameter_type(s, closure, i as int);
        if ty is Ok {
            lemma_parameter_types(s, closure, i + 1, done.push(ty->Ok_0));
        }
    }
}

proof fn lemma_parameter_scope(parameters: Seq<LocalView>, n: nat, k: int)
    requires
        0 <= k < n <= parameters.len(),
        forall|j: int| k < j < n ==> (#[trigger] parameters[j]).name != parameters[k].name,
    ensures
        parameter_scope(parameters, n).contains_key(parameters[k].name),
        parameter_scope(parameters, n)[parameters[k].name] == parameters[k],
    decreases n,
{
    if k < n - 1 {
        assert(parameters[n - 1].name != parameters[k].name);
        lemma_parameter_scope(parameters, (n - 1) as nat, k);
    }
}

/// In the body of a closure, its function is a new one: it has the parameters of
/// the literal in their order, behind one for what is captured, and the type that
/// the literal returns. The name of a parameter stands for that parameter. Nothing
/// is captured yet, no loop is open, and the functions outside are those around the
/// literal.
pub proof fn law_closures_start_with_their_parameters(s: GenView, closure: Closure, token: Token)
    requires
        s.module.functions.len() < usize::MAX,
        s.module.locals.len() + closure.parameters@.len() < usize::MAX,
    ensures
        ({
            let t = inside_closure(s, closure, token);
            let function = t.function();
            &&& t.cur.function == s.module.functions.len()
            &&& t.module.functions.len() == s.module.functions.len() + 1
            &&& t.outer == s.outer.push(s.cur)
            &&& t.cur.captured.len() == 0
            &&& t.cur.current_loop is None
            &&& t.cur.uninitialized.is_empty()
            &&& function.name == "closure-"@ + decimal(token.line as nat) + ":"@ + decimal(
                token.index as nat,
            )
            &&& closure.ret_ty is None ==> function.ret_type is NoneType
            &&& closure.ret_ty matches Some(ty) ==> resolve(s, ty) is Ok ==> function.ret_type
                == resolve(s, ty)->Ok_0
            &&& function.exprs.len() == 0
            &&& function.variables.dom().is_empty()
            &&& function.module == s.function().module
            &&& function.visibility is Public
            &&& function.type_parameters.len() == 0
            &&& function.parameters[0].name == "this"@
            &&& function.parameters[0].ty is I64
            &&& function.parameters[0].id == s.module.locals.len()
            &&& t.module.declarations == s.module.declarations.insert(
                function.name,
                Declaration::Function(t.cur.function),
            )
            &&& t.module.captures == s.module.captures
            &&& t.module.locals.len() == s.module.locals.len() + 1 + closure.parameters@.len()
            &&& forall|f: int|
                0 <= f < s.module.functions.len() ==> #[trigger] t.module.functions[f]
                    == s.module.functions[f]
            &&& !function.variadic
            &&& function.parameters.len() == closure.parameters@.len() + 1
            &&& forall|i: int|
                0 <= i < closure.parameters@.len() ==> {
                    let parameter = #[trigger] function.parameters[i + 1];
                    &&& parameter.name == closure.parameters@[i].name.lexeme@
                    &&& parameter_type(s, closure, i) is Ok ==> parameter.ty == parameter_type(
                        s,
                        closure,
                        i,
                    )->Ok_0
                    &&& !parameter.mutable
                    &&& parameter.id == s.module.locals.len() + i + 1
                    &&& t.module.locals[parameter.id as int] == parameter.ty
                }
            &&& forall|i: int|
                0 <= i < function.parameters.len() && (forall|j: int|
                    i < j < function.parameters.len() ==> (#[trigger] function.parameters[j]).name
                        != function.parameters[i].name) ==> t.find_var(
                    (#[trigger] function.parameters[i]).name,
                ).1 == Some(VariableView::Local(function.parameters[i]))
        }),
{
    let t = inside_closure(s, closure, token);
    let parameters = t.function().parameters;
    assert forall|i: int|
        0 <= i < parameters.len() && (forall|j: int|
            i < j < parameters.len() ==> (#[trigger] parameters[j]).name
                != parameters[i].name) implies t.find_var((#[trigger] parameters[i]).name).1 == Some(
        VariableView::Local(parameters[i]),
    ) by {
        lemma_parameter_scope(parameters, parameters.len(), i);
    }
}

/// A closure literal is a new function that ends with the code of its body, which
/// it returns if it returns anything, together with the variables that the body
/// captured. It is stored in a new variable of the function around it, which is the
/// current one again.
pub proof fn law_closures_hold_their_body(s: GenView, closure: Closure, token: Token)
    requires
        s.wf(),
        closure.typed(),
        return_type(s, closure) is Ok,
        forall|i: int|
            0 <= i < closure.parameters@.len() ==> (#[trigger] parameter_type(s, closure, i)) is Ok,
        works(inside_closure(s, closure, token), *closure.body),
        after(inside_closure(s, closure, token), *closure.body).kept(
            inside_closure(s, closure, token),
        ),
        s.module.functions.len() < usize::MAX,
    ensures
        ({
            let e = Expression::Literal(Literal::Closure(closure), token);
            let inner = inside_closure(s, closure, token);
            let body = code(inner, *closure.body);
            let t1 = after(inner, *closure.body);
            let ret = inner.function().ret_type;
            let f = s.module.functions.len() as int;
            let k = t1.module.captures.len() as int;
            let t = after(s, e);
            &&& works(s, e) <==> ret is NoneType || ret == body.ty()
            &&& works(s, e) ==> {
                &&& t.module.functions[f].exprs == t1.module.functions[f].exprs.push(
                    if ret is NoneType {
                        body
                    } else {
                        ExprView::Return(Box::new(body))
                    },
                )
                &&& t.module.functions[f].ret_type == ret
                &&& t.module.functions[f].parameters.len() == closure.parameters@.len() + 1
                &&& t.module.functions[f].parameters[0].ty == Type::ClosureCaptured(k as usize)
                &&& t.module.functions[f].parameters[0].name == "CLOSURE-CAPTURED"@
                &&& t.module.functions[f].parameters.skip(1) =~= inner.function().parameters.skip(1)
                &&& t.module.captures == t1.module.captures.push(t1.cur.captured)
                &&& t.cur.function == s.cur.function
                &&& t.outer.len() == s.outer.len()
                &&& t.cur.current_loop == s.cur.current_loop
                &&& t.cur.uninitialized == s.cur.uninitialized
                &&& t.cur.captured == t1.outer.last().captured
                &&& code(s, e) matches ExprView::Store { var, value, first_store } && first_store
                    && var.name == "closure-literal"@ && !var.mutable && t.find_var(
                    "closure-literal"@,
                ).1 == Some(VariableView::Local(var))
                    && (*value matches ExprView::Closure { function, captured, ty } && function == f
                    && captured == k as usize && var.ty == ty && t.module.locals.last() == ty && (ty
                    matches Type::Closure(of) && *of.ret_type == ret && of.parameters@ == Seq::new(
                    closure.parameters@.len(),
                    |i: int| parameter_type(s, closure, i)->Ok_0,
                )))
            }
        }),
{
    let e = Expression::Literal(Literal::Closure(closure), token);
    let inner = inside_closure(s, closure, token);
    let body = code(inner, *closure.body);
    let t1 = after(inner, *closure.body);
    let types = Seq::new(closure.parameters@.len(), |i: int| parameter_type(s, closure, i)->Ok_0);
    assert(gen_expr(s, e) == gen_literal(s, Literal::Closure(closure), token));
    assert(gen_literal(s, Literal::Closure(closure), token) == gen_closure(s, closure, token));
    lemma_parameter_types(s, closure, 0, Seq::empty());
    assert(parameter_types(s, closure, 0, Seq::empty())->Ok_0 =~= types);
    let r = function_body(t1, body, closure.body.token()@);
    if let Ok(last) = r {
        let u = t1.insert_at_ptr(last);
        assert(gen_expr(s, e).0 == finish_closure(u).0);
        let f = s.module.functions.len() as int;
        assert(t1.module.functions[f].parameters == inner.module.functions[f].parameters);
        assert(t1.outer.last() == (FrameView {
            captured: t1.outer.last().captured,
            ..s.cur
        })) by {
            assert(inner.outer[inner.outer.len() - 1] == s.cur);
        }
        let before = inner.module.functions[f].parameters;
        let now = after(s, e).module.functions[f].parameters;
        assert(now.skip(1) =~= before.skip(1));
        let function = finish_closure(u).0.module.functions[f];
        assert(function.parameter_types().skip(1) =~= types);
        lemma_type_list(types);
    }
}

} // verus!
