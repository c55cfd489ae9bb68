//! What calls consist of: the arguments in their order, each of the type of the
//! parameter at its place.

use crate::ast::{Constant, Expression, Literal};
use crate::gir::declaration::{Declaration, VariableView};
use crate::gir::expression::ExprView;
use crate::gir::module::{Member, ModuleView};
use crate::gir::types::{type_list, Instance, Type};
use crate::index;
use crate::lexer::token::Token;
use crate::mir::generator::code::{
    after, alike, code, fits, in_row, lemma_all, lemma_args, lemma_values, works,
};
use crate::mir::generator::model::{Failure, GenView};
use crate::mir::generator::rules::{
    argument_text, array_of, call_function, expr_types, gen_args, gen_args_from, gen_array,
    gen_call, gen_constructor_call, gen_expr, gen_literal, gen_member, gen_method_call, gen_values,
    push_values,
};
use crate::text::decimal;
use vstd::prelude::*;

verus! {

/// The types of the parameters of what is called.
pub open spec fn parameters_of(module: ModuleView, ty: Type) -> Seq<Type> {
    match ty {
        Type::Function(inst) => Seq::new(
            module.functions[inst.ty as int].parameters.len(),
            |i: int| module.functions[inst.ty as int].parameters[i].ty.subst(inst.args),
        ),
        Type::Closure(closure) => closure.parameters@,
        _ => Seq::empty(),
    }
}

/// Can a value of the type be called?
pub open spec fn callable(module: ModuleView, ty: Type) -> bool {
    match ty {
        Type::Function(inst) => inst.ty < module.functions.len(),
        Type::Closure(_) => true,
        _ => false,
    }
}

/// Does what is called take more arguments than it has parameters?
pub open spec fn takes_more(module: ModuleView, ty: Type) -> bool {
    ty matches Type::Function(inst) && module.functions[inst.ty as int].variadic
}

/// The type of the result of a call.
pub open spec fn result_of(module: ModuleView, ty: Type) -> Type {
    match ty {
        Type::Function(inst) => module.functions[inst.ty as int].ret_type.subst(inst.args),
        Type::Closure(closure) => *closure.ret_type,
        _ => Type::Any,
    }
}

/// Are there as many arguments as parameters, or more where that is allowed?
pub open spec fn enough(module: ModuleView, ty: Type, given: nat) -> bool {
    ||| given == parameters_of(module, ty).len()
    ||| given > parameters_of(module, ty).len() && takes_more(module, ty)
}

proof fn lemma_signature(module: ModuleView, ty: Type)
    ensures
        module.call_signature(ty) is Some <==> callable(module, ty),
        callable(module, ty) ==> {
            let sig = module.call_signature(ty)->0;
            &&& sig.parameters =~= parameters_of(module, ty)
            &&& sig.ret_type == result_of(module, ty)
            &&& sig.variadic == takes_more(module, ty)
        },
{
}

/// The type behind the last argument that was generated does not fit.
proof fn lemma_misfit(
    parameters: Seq<Type>,
    arguments: Vec<Expression>,
    k: nat,
    states: Seq<GenView>,
    codes: Seq<ExprView>,
    first: Seq<ExprView>,
)
    requires
        k < arguments@.len(),
        in_row(states, arguments@.take(k as int), codes),
        fits(parameters, first.len(), codes),
        works(states[k as int], arguments@[k as int]),
        first.len() + k < parameters.len(),
        code(states[k as int], arguments@[k as int]).ty() != parameters[(first.len() + k) as int],
    ensures
        ({
            let s = after(states[k as int], arguments@[k as int]);
            gen_args_from(states[0], parameters, arguments, 0, first) == (
                s,
                Err::<Seq<ExprView>, Failure>(
                    s.error(
                        arguments@[k as int].token()@,
                        argument_text(
                            s.module,
                            code(states[k as int], arguments@[k as int]).ty(),
                            parameters[(first.len() + k) as int],
                        ),
                    ),
                ),
            )
        }),
{
    lemma_args(parameters, arguments, k, states, codes, first);
}

/// Arguments that are all generated and fit are the arguments of the call.
proof fn lemma_fitting(
    parameters: Seq<Type>,
    arguments: Vec<Expression>,
    states: Seq<GenView>,
    codes: Seq<ExprView>,
    first: Seq<ExprView>,
)
    requires
        in_row(states, arguments@, codes),
        fits(parameters, first.len(), codes),
    ensures
        gen_args_from(states[0], parameters, arguments, 0, first) == (
            states.last(),
            Ok::<Seq<ExprView>, Failure>(first + codes),
        ),
{
    assert(arguments@.take(arguments@.len() as int) =~= arguments@);
    lemma_args(parameters, arguments, arguments@.len(), states, codes, first);
}

/// The first part of expressions in a row.
proof fn lemma_row_part(
    states: Seq<GenView>,
    exprs: Seq<Expression>,
    codes: Seq<ExprView>,
    k: nat,
)
    requires
        in_row(states, exprs, codes),
        k <= exprs.len(),
    ensures
        in_row(states.take(k as int + 1), exprs.take(k as int), codes.take(k as int)),
{
    assert forall|i: int| 0 <= i < k implies works(
        states.take(k as int + 1)[i],
        #[trigger] exprs.take(k as int)[i],
    ) && codes.take(k as int)[i] == code(states.take(k as int + 1)[i], exprs.take(k as int)[i])
        && states.take(k as int + 1)[i + 1] == after(states.take(k as int + 1)[i], exprs.take(k as int)[i]) by {
        assert(exprs.take(k as int)[i] == exprs[i]);
    }
}

/// Arguments that are all generated are accepted only if they fit.
proof fn lemma_accepted(
    parameters: Seq<Type>,
    arguments: Vec<Expression>,
    states: Seq<GenView>,
    codes: Seq<ExprView>,
    first: Seq<ExprView>,
    n: nat,
)
    requires
        in_row(states, arguments@, codes),
        gen_args_from(states[0], parameters, arguments, 0, first).1 is Ok,
        n <= codes.len(),
    ensures
        fits(parameters, first.len(), codes.take(n as int)),
    decreases n,
{
    if n > 0 {
        let k = (n - 1) as nat;
        lemma_accepted(parameters, arguments, states, codes, first, k);
        lemma_row_part(states, arguments@, codes, k);
        if first.len() + k < parameters.len() && codes[k as int].ty() != parameters[(first.len()
            + k) as int] {
            lemma_misfit(
                parameters,
                arguments,
                k,
                states.take(k as int + 1),
                codes.take(k as int),
                first,
            );
        }
        assert forall|i: int|
            0 <= i < codes.take(n as int).len() && first.len() + i < parameters.len() implies (
        #[trigger] codes.take(n as int)[i]).ty() == parameters[first.len() + i] by {
            if i < k {
                assert(codes.take(k as int)[i] == codes[i]);
            }
        }
    }
}

/// A call has the code of what is called, and the codes of its arguments in their
/// order. It needs as many as there are parameters, or more of a variadic
/// function, each of the type of the parameter at its place; its type is what the
/// function or closure returns.
pub proof fn law_calls_pass_their_arguments_in_order(
    s: GenView,
    callee: Expression,
    arguments: Vec<Expression>,
    states: Seq<GenView>,
    args: Seq<ExprView>,
)
    requires
        !(callee is Get),
        works(s, callee),
        !(code(s, callee).ty() is Type),
        in_row(states, arguments@, args),
        states[0] == after(s, callee),
    ensures
        ({
            let e = Expression::Call { callee: Box::new(callee), arguments };
            let m = after(s, callee).module;
            let ty = code(s, callee).ty();
            &&& works(s, e) <==> callable(m, ty) && enough(m, ty, args.len()) && fits(
                parameters_of(m, ty),
                0,
                args,
            )
            &&& works(s, e) ==> code(s, e) == (ExprView::Call {
                callee: Box::new(code(s, callee)),
                arguments: args,
                ty: result_of(m, ty),
            }) && after(s, e) == states.last()
        }),
{
    let e = Expression::Call { callee: Box::new(callee), arguments };
    let s1 = after(s, callee);
    let ty = code(s, callee).ty();
    let parameters = parameters_of(s1.module, ty);
    assert(gen_expr(s, e) == gen_call(s, callee, arguments));
    assert(gen_method_call(s, callee, arguments) == (s, Ok::<_, Failure>(None::<ExprView>)));
    assert(gen_constructor_call(s1, code(s, callee), arguments, callee.token()@) == (
        s1,
        Ok::<_, Failure>(None::<ExprView>),
    ));
    lemma_signature(s1.module, ty);
    if fits(parameters, 0, args) {
        lemma_fitting(parameters, arguments, states, args, Seq::empty());
        assert(Seq::<ExprView>::empty() + args =~= args);
    } else if gen_args_from(s1, parameters, arguments, 0, Seq::empty()).1 is Ok {
        lemma_accepted(parameters, arguments, states, args, Seq::empty(), args.len());
        assert(args.take(args.len() as int) =~= args);
    }
}

/// A call with too few or too many arguments is an error at what is called, which
/// says how many were expected and given.
pub proof fn law_calls_count_their_arguments(
    s: GenView,
    callee: Expression,
    arguments: Vec<Expression>,
)
    requires
        !(callee is Get),
        works(s, callee),
        !(code(s, callee).ty() is Type),
        callable(after(s, callee).module, code(s, callee).ty()),
        !enough(after(s, callee).module, code(s, callee).ty(), arguments@.len()),
    ensures
        ({
            let s1 = after(s, callee);
            let expected = parameters_of(s1.module, code(s, callee).ty()).len();
            gen_expr(s, Expression::Call { callee: Box::new(callee), arguments }) == (
                s1,
                Err::<ExprView, Failure>(
                    s1.error(
                        callee.token()@,
                        "Incorrect amount of function arguments. (Expected "@ + decimal(expected)
                            + "; got "@ + decimal(arguments@.len()) + ")"@,
                    ),
                ),
            )
        }),
{
    let e = Expression::Call { callee: Box::new(callee), arguments };
    let s1 = after(s, callee);
    let ty = code(s, callee).ty();
    assert(gen_expr(s, e) == gen_call(s, callee, arguments));
    assert(gen_method_call(s, callee, arguments) == (s, Ok::<_, Failure>(None::<ExprView>)));
    assert(gen_constructor_call(s1, code(s, callee), arguments, callee.token()@) == (
        s1,
        Ok::<_, Failure>(None::<ExprView>),
    ));
    lemma_signature(s1.module, ty);
}

/// An argument of another type than the parameter at its place is an error at the
/// argument, which says what it was and what was expected.
pub proof fn law_calls_check_their_arguments(
    s: GenView,
    callee: Expression,
    arguments: Vec<Expression>,
    k: nat,
    states: Seq<GenView>,
    args: Seq<ExprView>,
)
    requires
        !(callee is Get),
        works(s, callee),
        !(code(s, callee).ty() is Type),
        callable(after(s, callee).module, code(s, callee).ty()),
        enough(after(s, callee).module, code(s, callee).ty(), arguments@.len()),
        k < parameters_of(after(s, callee).module, code(s, callee).ty()).len(),
        in_row(states, arguments@.take(k as int), args),
        states[0] == after(s, callee),
        fits(parameters_of(after(s, callee).module, code(s, callee).ty()), 0, args),
        works(states[k as int], arguments@[k as int]),
        code(states[k as int], arguments@[k as int]).ty() != parameters_of(
            after(s, callee).module,
            code(s, callee).ty(),
        )[k as int],
    ensures
        ({
            let t = after(states[k as int], arguments@[k as int]);
            let found = code(states[k as int], arguments@[k as int]).ty();
            let expected = parameters_of(after(s, callee).module, code(s, callee).ty())[k as int];
            gen_expr(s, Expression::Call { callee: Box::new(callee), arguments }) == (
                t,
                Err::<ExprView, Failure>(
                    t.error(
                        arguments@[k as int].token()@,
                        "Call argument is the wrong type (was "@ + t.module.type_text(found)
                            + ", expected "@ + t.module.type_text(expected) + ")"@,
                    ),
                ),
            )
        }),
{
    let e = Expression::Call { callee: Box::new(callee), arguments };
    let s1 = after(s, callee);
    let ty = code(s, callee).ty();
    assert(gen_expr(s, e) == gen_call(s, callee, arguments));
    assert(gen_method_call(s, callee, arguments) == (s, Ok::<_, Failure>(None::<ExprView>)));
    assert(gen_constructor_call(s1, code(s, callee), arguments, callee.token()@) == (
        s1,
        Ok::<_, Failure>(None::<ExprView>),
    ));
    lemma_signature(s1.module, ty);
    lemma_misfit(parameters_of(s1.module, ty), arguments, k, states, args, Seq::empty());
}

/// A call fails by the first of its arguments that fails, if those before it fit.
pub proof fn law_calls_fail_by_the_first_error(
    s: GenView,
    callee: Expression,
    arguments: Vec<Expression>,
    k: nat,
    states: Seq<GenView>,
    args: Seq<ExprView>,
)
    requires
        !(callee is Get),
        works(s, callee),
        k < arguments@.len(),
        in_row(states, arguments@.take(k as int), args),
        states[0] == after(s, callee),
        !works(states[k as int], arguments@[k as int]),
        ({
            let m = after(s, callee).module;
            let ty = code(s, callee).ty();
            m.allocated(ty) is None ==> callable(m, ty) && enough(m, ty, arguments@.len()) && fits(
                parameters_of(m, ty),
                0,
                args,
            )
        }),
    ensures
        gen_expr(s, Expression::Call { callee: Box::new(callee), arguments }) == gen_expr(
            states[k as int],
            arguments@[k as int],
        ),
{
    let e = Expression::Call { callee: Box::new(callee), arguments };
    let s1 = after(s, callee);
    let ty = code(s, callee).ty();
    assert(gen_expr(s, e) == gen_call(s, callee, arguments));
    assert(gen_method_call(s, callee, arguments) == (s, Ok::<_, Failure>(None::<ExprView>)));
    let built = gen_constructor_call(s1, code(s, callee), arguments, callee.token()@);
    lemma_signature(s1.module, ty);
    if s1.module.allocated(ty) is Some {
        lemma_all(arguments, k, states, args, Seq::empty());
        assert(built.1 is Err);
    } else {
        assert(built == (s1, Ok::<_, Failure>(None::<ExprView>)));
        lemma_args(parameters_of(s1.module, ty), arguments, k, states, args, Seq::empty());
    }
}

/// Does a function construct values of a data type from these arguments? Its first
/// parameter is the value itself.
pub open spec fn constructs(
    module: ModuleView,
    inst: Instance,
    function: usize,
    args: Seq<ExprView>,
) -> bool {
    let parameters = module.functions[function as int].parameters;
    &&& function < module.functions.len()
    &&& parameters.len() == args.len() + 1
    &&& forall|i: int|
        0 <= i < args.len() ==> (#[trigger] args[i]).ty() == parameters[i + 1].ty.subst(inst.args)
}

/// Is it the first of the constructors that takes these arguments?
pub open spec fn first_constructor(
    module: ModuleView,
    inst: Instance,
    args: Seq<ExprView>,
    i: int,
) -> bool {
    let constructors = module.adts[inst.ty as int].constructors@;
    &&& 0 <= i < constructors.len()
    &&& constructs(module, inst, constructors[i], args)
    &&& forall|j: int| 0 <= j < i ==> !#[trigger] constructs(module, inst, constructors[j], args)
}

proof fn lemma_constructs(
    module: ModuleView,
    inst: Instance,
    function: usize,
    args: Seq<ExprView>,
)
    ensures
        module.accepts(Instance { ty: function, args: inst.args }, expr_types(args))
            <==> constructs(module, inst, function, args),
{
    let ctor = Instance { ty: function, args: inst.args };
    if let Some(sig) = module.signature(ctor) {
        let parameters = module.functions[function as int].parameters;
        if constructs(module, inst, function, args) {
            assert(sig.parameters.skip(1) =~= expr_types(args));
        }
        if module.accepts(ctor, expr_types(args)) {
            assert forall|i: int| 0 <= i < args.len() implies (#[trigger] args[i]).ty()
                == parameters[i + 1].ty.subst(inst.args) by {
                assert(sig.parameters.skip(1)[i] == expr_types(args)[i]);
            }
        }
    }
}

proof fn lemma_constructor_from(module: ModuleView, inst: Instance, args: Seq<ExprView>, i: nat)
    requires
        forall|j: int|
            0 <= j < i && j < module.adts[inst.ty as int].constructors@.len()
                ==> !#[trigger] constructs(
                module,
                inst,
                module.adts[inst.ty as int].constructors@[j],
                args,
            ),
    ensures
        match module.constructor_from(inst, expr_types(args), i) {
            Some(c) => exists|j: int| #[trigger]
                first_constructor(module, inst, args, j) && c
                    == module.adts[inst.ty as int].constructors@[j],
            None => forall|j: int| !#[trigger] first_constructor(module, inst, args, j),
        },
    decreases module.adts[inst.ty as int].constructors@.len() - i,
{
    let constructors = module.adts[inst.ty as int].constructors@;
    if i < constructors.len() {
        lemma_constructs(module, inst, constructors[i as int], args);
        if constructs(module, inst, constructors[i as int], args) {
            assert(first_constructor(module, inst, args, i as int));
        } else {
            lemma_constructor_from(module, inst, args, i + 1);
        }
    } else {
        assert forall|j: int| !#[trigger] first_constructor(module, inst, args, j) by {
            if 0 <= j < constructors.len() {
                assert(!constructs(module, inst, constructors[j], args));
            }
        }
    }
}

/// A call of a data type allocates a value of it by the first of its constructors
/// that takes the arguments, which keep their order.
pub proof fn law_constructors_take_their_arguments_in_order(
    s: GenView,
    callee: Expression,
    arguments: Vec<Expression>,
    inst: Instance,
    states: Seq<GenView>,
    args: Seq<ExprView>,
    i: int,
)
    requires
        !(callee is Get),
        works(s, callee),
        code(s, callee).ty() == Type::Type(Box::new(Type::Adt(inst))),
        inst.ty < after(s, callee).module.adts.len(),
        in_row(states, arguments@, args),
        states[0] == after(s, callee),
    ensures
        ({
            let e = Expression::Call { callee: Box::new(callee), arguments };
            let m = states.last().module;
            &&& after(s, e) == states.last()
            &&& first_constructor(m, inst, args, i) ==> works(s, e) && code(s, e) == (
            ExprView::Allocate {
                ty: Type::Adt(inst),
                constructor: m.adts[inst.ty as int].constructors@[i],
                args,
            })
            &&& works(s, e) ==> exists|j: int| #[trigger] first_constructor(m, inst, args, j)
            &&& !works(s, e) ==> gen_expr(s, e).1 == Err::<ExprView, Failure>(
                states.last().error(
                    callee.token()@,
                    "No matching constructor found for arguments."@,
                ),
            )
        }),
{
    let e = Expression::Call { callee: Box::new(callee), arguments };
    let s1 = after(s, callee);
    let m = states.last().module;
    assert(gen_expr(s, e) == gen_call(s, callee, arguments));
    assert(gen_method_call(s, callee, arguments) == (s, Ok::<_, Failure>(None::<ExprView>)));
    assert(arguments@.take(arguments@.len() as int) =~= arguments@);
    lemma_all(arguments, arguments@.len(), states, args, Seq::empty());
    assert(Seq::<ExprView>::empty() + args =~= args);
    lemma_constructor_from(m, inst, args, 0);
    if first_constructor(m, inst, args, i) {
        let constructors = m.adts[inst.ty as int].constructors@;
        let j = choose|j: int| #[trigger]
            first_constructor(m, inst, args, j) && m.constructor_from(inst, expr_types(args), 0)
                == Some(constructors[j]);
        assert(constructs(m, inst, constructors[i], args));
        assert(constructs(m, inst, constructors[j], args));
        assert(i == j);
    }
}

/// The object of a method is the first argument of its call, in front of the others
/// in their order.
pub proof fn law_methods_take_their_object_first(
    s: GenView,
    object: Expression,
    name: Token,
    arguments: Vec<Expression>,
    method: Instance,
    states: Seq<GenView>,
    args: Seq<ExprView>,
)
    requires
        s.cur.uninitialized.is_empty(),
        works(s, object),
        after(s, object).module.member(code(s, object).ty(), name.lexeme@) == Some(
            Member::Method(method),
        ),
        method.ty < after(s, object).module.functions.len(),
        method.ty < states.last().module.functions.len(),
        in_row(states, arguments@, args),
        states[0] == after(s, object),
    ensures
        ({
            let e = Expression::Call {
                callee: Box::new(Expression::Get { object: Box::new(object), name }),
                arguments,
            };
            let parameters = parameters_of(after(s, object).module, Type::Function(method));
            let function = states.last().module.functions[method.ty as int];
            &&& works(s, e) <==> parameters.len() == args.len() + 1 && fits(parameters, 1, args)
            &&& works(s, e) ==> after(s, e) == states.last() && code(s, e) == (ExprView::Call {
                callee: Box::new(
                    ExprView::Variable(
                        VariableView::Function { func: method, name: function.name },
                    ),
                ),
                arguments: seq![code(s, object)] + args,
                ty: function.ret_type.subst(method.args),
            })
        }),
{
    let callee = Expression::Get { object: Box::new(object), name };
    let e = Expression::Call { callee: Box::new(callee), arguments };
    let s1 = after(s, object);
    let first = seq![code(s, object)];
    let parameters = parameters_of(s1.module, Type::Function(method));
    assert(gen_expr(s, e) == gen_call(s, callee, arguments));
    assert(gen_member(s, object, name) == (
        s1,
        Ok::<_, Failure>((code(s, object), Member::Method(method))),
    ));
    lemma_signature(s1.module, Type::Function(method));
    lemma_signature(states.last().module, Type::Function(method));
    let out = gen_args(s1, parameters, arguments, first, false, name@);
    assert(gen_method_call(s, callee, arguments).1 is Ok <==> out.1 is Ok);
    if fits(parameters, 1, args) {
        lemma_fitting(parameters, arguments, states, args, first);
    } else if gen_args_from(s1, parameters, arguments, 0, first).1 is Ok {
        lemma_accepted(parameters, arguments, states, args, first, args.len());
        assert(args.take(args.len() as int) =~= args);
    }
}

/// A method of an interface is called through the interface of the object, by its
/// place there. The object is the first argument, in front of the others in their
/// order.
pub proof fn law_interfaces_take_their_object_first(
    s: GenView,
    object: Expression,
    name: Token,
    arguments: Vec<Expression>,
    place: usize,
    method: Instance,
    states: Seq<GenView>,
    args: Seq<ExprView>,
)
    requires
        s.cur.uninitialized.is_empty(),
        works(s, object),
        after(s, object).module.member(code(s, object).ty(), name.lexeme@) == Some(
            Member::Dynamic { index: place, method },
        ),
        method.ty < after(s, object).module.functions.len(),
        in_row(states, arguments@, args),
        states[0] == after(s, object),
    ensures
        ({
            let e = Expression::Call {
                callee: Box::new(Expression::Get { object: Box::new(object), name }),
                arguments,
            };
            let m = after(s, object).module;
            let parameters = parameters_of(m, Type::Function(method));
            &&& works(s, e) <==> parameters.len() == args.len() && fits(parameters, 0, args)
            &&& works(s, e) ==> after(s, e) == states.last() && code(s, e) == (ExprView::CallDyn {
                interface: code(s, object).ty(),
                index: place,
                arguments: seq![code(s, object)] + args,
                ty: m.functions[method.ty as int].ret_type.subst(method.args),
            })
        }),
{
    let callee = Expression::Get { object: Box::new(object), name };
    let e = Expression::Call { callee: Box::new(callee), arguments };
    let s1 = after(s, object);
    let first = seq![code(s, object)];
    let parameters = parameters_of(s1.module, Type::Function(method));
    let all = seq![code(s, object).ty()] + parameters;
    assert(gen_expr(s, e) == gen_call(s, callee, arguments));
    assert(gen_member(s, object, name) == (
        s1,
        Ok::<_, Failure>((code(s, object), Member::Dynamic { index: place, method })),
    ));
    lemma_signature(s1.module, Type::Function(method));
    let out = gen_args(s1, all, arguments, first, false, name@);
    assert(gen_method_call(s, callee, arguments).1 is Ok <==> out.1 is Ok);
    if fits(parameters, 0, args) {
        assert forall|i: int| 0 <= i < args.len() && 1 + i < all.len() implies (
        #[trigger] args[i]).ty() == all[1 + i] by {
            assert(all[1 + i] == parameters[i]);
        }
        lemma_fitting(all, arguments, states, args, first);
    } else if gen_args_from(s1, all, arguments, 0, first).1 is Ok {
        lemma_accepted(all, arguments, states, args, first, args.len());
        assert(args.take(args.len() as int) =~= args);
        assert forall|i: int| 0 <= i < args.len() && 0 + i < parameters.len() implies (
        #[trigger] args[i]).ty() == parameters[0 + i] by {
            assert(all[1 + i] == parameters[i]);
        }
    }
}

/// No method can be called, and no field be used as a method, where a field of the
/// value under construction has no value yet.
pub proof fn law_no_methods_of_unfinished_values(
    s: GenView,
    object: Expression,
    name: Token,
    arguments: Vec<Expression>,
)
    requires
        !s.cur.uninitialized.is_empty(),
    ensures
        ({
            let callee = Expression::Get { object: Box::new(object), name };
            let e = Expression::Call { callee: Box::new(callee), arguments };
            after(s, e) == s && !works(s, e)
        }),
{
    let callee = Expression::Get { object: Box::new(object), name };
    let e = Expression::Call { callee: Box::new(callee), arguments };
    assert(gen_expr(s, e) == gen_call(s, callee, arguments));
}

/// Is the code a call of a method that gives it an array and a value?
pub open spec fn appends(
    module: ModuleView,
    push: Instance,
    array: ExprView,
    value: ExprView,
    call: ExprView,
) -> bool {
    call == (ExprView::Call {
        callee: Box::new(
            ExprView::Variable(
                VariableView::Function {
                    func: push,
                    name: module.functions[push.ty as int].name,
                },
            ),
        ),
        arguments: seq![array, value],
        ty: module.functions[push.ty as int].ret_type.subst(push.args),
    })
}

/// Are the same functions there, but for code that was added to the current one?
pub open spec fn same_functions(s: GenView, t: GenView) -> bool {
    &&& t.cur == s.cur
    &&& t.module.functions.len() == s.module.functions.len()
    &&& forall|i: int|
        0 <= i < s.module.functions.len() ==> (#[trigger] t.module.functions[i]).name
            == s.module.functions[i].name && t.module.functions[i].ret_type
            == s.module.functions[i].ret_type
}

proof fn lemma_push_values(
    s: GenView,
    push: Instance,
    array: ExprView,
    values: Seq<ExprView>,
    n: nat,
)
    requires
        s.wf(),
        push.ty < s.module.functions.len(),
        n <= values.len(),
    ensures
        ({
            let t = push_values(s, push, array, values, n);
            &&& same_functions(s, t)
            &&& t.function().exprs.len() == s.function().exprs.len() + n
            &&& t.function().exprs.take(s.function().exprs.len() as int) == s.function().exprs
            &&& forall|i: int|
                0 <= i < n ==> appends(
                    s.module,
                    push,
                    array,
                    #[trigger] values[i],
                    t.function().exprs[s.function().exprs.len() + i],
                )
        }),
    decreases n,
{
    let before = s.function().exprs;
    if n > 0 {
        let m = (n - 1) as nat;
        lemma_push_values(s, push, array, values, m);
        let t1 = push_values(s, push, array, values, m);
        let t = push_values(s, push, array, values, n);
        let call = call_function(t1.module, push, seq![array, values[m as int]]);
        lemma_signature(t1.module, Type::Function(push));
        assert(appends(s.module, push, array, values[m as int], call));
        assert(t.function().exprs == t1.function().exprs.push(call));
        assert(t.function().exprs.take(before.len() as int) =~= t1.function().exprs.take(
            before.len() as int,
        ));
        assert forall|i: int| 0 <= i < n implies appends(
            s.module,
            push,
            array,
            #[trigger] values[i],
            t.function().exprs[before.len() + i],
        ) by {
            if i < m {
                assert(t.function().exprs[before.len() + i] == t1.function().exprs[before.len()
                    + i]);
            }
        }
    } else {
        assert(before.take(before.len() as int) =~= before);
    }
}

/// An array literal is an allocation of an array of the type of its values, by a
/// constructor that takes their number. Behind the code that was there, every value
/// is appended to the array, in the order of the source. All values have one type.
pub proof fn law_arrays_hold_their_values_in_order(
    s: GenView,
    values: Vec<Expression>,
    token: Token,
    adt: usize,
    push: usize,
    states: Seq<GenView>,
    codes: Seq<ExprView>,
)
    requires
        values@.len() > 0,
        in_row(states, values@, codes),
        states[0] == s,
        states.last().wf(),
        states.last().module.prototypes.contains_key("Array"@),
        states.last().module.prototypes["Array"@] == Declaration::Adt(adt),
        adt < states.last().module.adts.len(),
        states.last().module.adts[adt as int].type_parameters@.len() == 1,
        index::lookup(index::entries(states.last().module.adts[adt as int].methods), "push"@)
            == Some(push),
        push < states.last().module.functions.len(),
    ensures
        ({
            let e = Expression::Literal(Literal::Array(values), token);
            let t = states.last();
            let inst = Instance { ty: adt, args: type_list(seq![codes[0].ty()]) };
            let args = seq![ExprView::Literal(Constant::I64(values@.len() as u64))];
            let before = t.function().exprs;
            let now = after(s, e).function().exprs;
            &&& works(s, e) <==> alike(codes) && exists|j: int| #[trigger]
                first_constructor(t.module, inst, args, j)
            &&& works(s, e) ==> code(s, e) is Allocate && code(s, e).ty() == Type::Adt(inst)
                && code(s, e)->args == args && (exists|j: int| #[trigger]
                first_constructor(t.module, inst, args, j) && code(s, e)->constructor
                    == t.module.adts[adt as int].constructors@[j])
            &&& works(s, e) ==> now.len() == before.len() + codes.len() && now.take(
                before.len() as int,
            ) == before
            &&& works(s, e) ==> forall|i: int|
                0 <= i < codes.len() ==> appends(
                    t.module,
                    Instance { ty: push, args: inst.args },
                    code(s, e),
                    #[trigger] codes[i],
                    now[before.len() + i],
                )
        }),
{
    let e = Expression::Literal(Literal::Array(values), token);
    let t = states.last();
    assert(gen_expr(s, e) == gen_literal(s, Literal::Array(values), token));
    assert(gen_literal(s, Literal::Array(values), token) == gen_array(s, values));
    if gen_values(s, values, 0, Seq::empty()).1 is Ok {
        lemma_alike(values, states, codes, codes.len());
        assert(codes.take(codes.len() as int) =~= codes);
    }
    if alike(codes) {
        assert(values@.take(values@.len() as int) =~= values@);
        lemma_values(values, values@.len(), states, codes);
        assert(gen_array(s, values) == array_of(t, codes));
        let inst = Instance { ty: adt, args: type_list(seq![codes[0].ty()]) };
        let args = seq![ExprView::Literal(Constant::I64(values@.len() as u64))];
        lemma_constructor_from(t.module, inst, args, 0);
        lemma_push_values(
            t,
            Instance { ty: push, args: inst.args },
            code(s, e),
            codes,
            codes.len(),
        );
    }
}

/// The values of an array that is generated have one type.
proof fn lemma_alike(
    values: Vec<Expression>,
    states: Seq<GenView>,
    codes: Seq<ExprView>,
    n: nat,
)
    requires
        in_row(states, values@, codes),
        gen_values(states[0], values, 0, Seq::empty()).1 is Ok,
        n <= codes.len(),
    ensures
        alike(codes.take(n as int)),
    decreases n,
{
    if n > 0 {
        let k = (n - 1) as nat;
        lemma_alike(values, states, codes, k);
        lemma_row_part(states, values@, codes, k);
        lemma_values(values, k, states.take(k as int + 1), codes.take(k as int));
        assert(works(states[k as int], values@[k as int]));
        assert forall|i: int| 0 <= i < n implies (#[trigger] codes.take(n as int)[i]).ty()
            == codes.take(n as int)[0].ty() by {
            if i < k {
                assert(codes.take(k as int)[i] == codes[i]);
                assert(codes.take(k as int)[0] == codes[0]);
            }
        }
    }
}

} // verus!
