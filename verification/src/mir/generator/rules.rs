//! What code is generated for an expression.
//!
//! Every rule goes from the state before to the state after it and the
//! generated expression, or the error that the source has.

use crate::ast::parts;
use crate::ast::{ASTType, Closure, Constant, Expression, Literal, VariableDef};
use crate::gir::declaration::{
    ADTType, Declaration, FunctionView, LocalView, VariableView, Visibility,
};
use crate::gir::expression::{none_value, CastType, ExprView};
use crate::gir::module::{Member, ModuleView};
use crate::gir::types::{type_list, Instance, Type};
use crate::index;
use crate::lexer::token::{generated, TType, Token, TokenView};
use crate::mir::generator::model::{Failure, FrameView, GenView};
use crate::text::decimal;
use vstd::prelude::*;

verus! {

/// The state after a rule, and what the rule gives.
pub type Out<T> = (GenView, Result<T, Failure>);

// ---------------------------------------------------------------------------
// Expressions that are put together from finished ones
// ---------------------------------------------------------------------------

/// The types of a row of expressions.
pub open spec fn expr_types(exprs: Seq<ExprView>) -> Seq<Type> {
    exprs.map_values(|e: ExprView| e.ty())
}

/// A call of something that is known to be callable.
pub open spec fn call_of(module: ModuleView, callee: ExprView, args: Seq<ExprView>) -> ExprView {
    ExprView::Call {
        callee: Box::new(callee),
        arguments: args,
        ty: match module.call_signature(callee.ty()) {
            Some(sig) => sig.ret_type,
            None => Type::Any,
        },
    }
}

/// A call of a function by its number and type arguments.
pub open spec fn call_function(
    module: ModuleView,
    function: Instance,
    args: Seq<ExprView>,
) -> ExprView {
    call_of(module, ExprView::Variable(module.function_variable(function)), args)
}

/// A binary operation. Numbers of one type and type checks need no method.
pub open spec fn binary_of(
    s: GenView,
    left: ExprView,
    operator: TokenView,
    right: ExprView,
) -> Result<ExprView, Failure> {
    if (left.ty() == right.ty() && left.ty().number()) || (operator.t_type is Is && right.ty()
        is Type) {
        Ok(
            ExprView::Binary {
                left: Box::new(left),
                operator: operator.t_type,
                right: Box::new(right),
            },
        )
    } else {
        match s.module.operator_method(operator.t_type, left.ty(), right.ty()) {
            Some(method) => {
                let call = call_function(s.module, Instance::plain(method), seq![left, right]);
                if operator.t_type is BangEqual {
                    Ok(ExprView::Unary { operator: TType::Bang, right: Box::new(call) })
                } else {
                    Ok(call)
                }
            },
            None => Err(s.error(operator, "No implementation of operator found for types."@)),
        }
    }
}

/// The name of the variable that an expression loads.
pub open spec fn loaded_name(expr: ExprView) -> Option<Seq<char>> {
    match expr {
        ExprView::Variable(var) => Some(var.name()),
        _ => None,
    }
}

/// The variables that are known to be of another type where a condition holds:
/// each is stored, cast, in a new variable of its name. The stores go behind
/// those in `list`.
pub open spec fn casts_of(s: GenView, condition: ExprView, list: Seq<ExprView>) -> (
    GenView,
    Seq<ExprView>,
)
    decreases condition,
{
    match condition {
        ExprView::Binary { left, operator, right } => match operator {
            TType::And => {
                let (s1, list1) = casts_of(s, *left, list);
                casts_of(s1, *right, list1)
            },
            TType::Is => match (loaded_name(*left), right.ty()) {
                (Some(name), Type::Type(ty)) => {
                    let (s1, var) = s.define(name, false, *ty);
                    (
                        s1,
                        list.push(
                            ExprView::Store {
                                var,
                                value: Box::new(
                                    ExprView::Cast {
                                        inner: left,
                                        to: *ty,
                                        method: CastType::Bitcast,
                                    },
                                ),
                                first_store: true,
                            },
                        ),
                    )
                },
                _ => (s, list),
            },
            _ => (s, list),
        },
        _ => (s, list),
    }
}

/// An allocation by the first constructor that takes the arguments.
pub open spec fn construct(
    s: GenView,
    inst: Instance,
    args: Seq<ExprView>,
    token: TokenView,
) -> Result<ExprView, Failure> {
    match s.module.constructor_from(inst, expr_types(args), 0) {
        Some(constructor) => Ok(ExprView::Allocate { ty: Type::Adt(inst), constructor, args }),
        None => Err(s.error(token, "No matching constructor found for arguments."@)),
    }
}

// ---------------------------------------------------------------------------
// Types in the source
// ---------------------------------------------------------------------------

/// A declaration with type arguments, of which there have to be as many as it
/// has type parameters.
pub open spec fn build(
    s: GenView,
    declaration: Declaration,
    args: Seq<Type>,
    token: TokenView,
) -> Result<Type, Failure> {
    let (count, ty) = match declaration {
        Declaration::Function(f) => (
            if f < s.module.functions.len() {
                Some(s.module.functions[f as int].type_parameters.len())
            } else {
                None
            },
            Type::Function(Instance { ty: f, args: type_list(args) }),
        ),
        Declaration::Adt(a) => (
            if a < s.module.adts.len() {
                Some(s.module.adts[a as int].type_parameters@.len())
            } else {
                None
            },
            Type::Adt(Instance { ty: a, args: type_list(args) }),
        ),
    };
    if count == Some(args.len()) {
        Ok(ty)
    } else {
        Err(s.error(token, "Wrong amount of type parameters."@))
    }
}

/// The type that is written in the source.
pub open spec fn resolve(s: GenView, ty: ASTType) -> Result<Type, Failure>
    decreases ty, 0nat,
{
    match ty {
        ASTType::Ident(token) => match s.module.find_type(token.lexeme@) {
            Some(ty) => Ok(ty),
            None => Err(s.error(token@, "Unknown type."@)),
        },
        ASTType::Generic { token, types } => match resolve_all(s, types, 0, Seq::empty()) {
            Err(e) => Err(e),
            Ok(args) => if s.module.prototypes.contains_key(token.lexeme@) {
                build(s, s.module.prototypes[token.lexeme@], args, token@)
            } else {
                Err(s.error(token@, "Unknown type."@))
            },
        },
    }
}

/// The types that are written in the source, behind those in `done`.
pub open spec fn resolve_all(s: GenView, types: Vec<ASTType>, i: nat, done: Seq<Type>) -> Result<
    Seq<Type>,
    Failure,
>
    decreases types, types@.len() - i,
{
    if i >= types@.len() {
        Ok(done)
    } else {
        match resolve(s, types@[i as int]) {
            Err(e) => Err(e),
            Ok(ty) => resolve_all(s, types, i + 1, done.push(ty)),
        }
    }
}

/// The types of the parameters of a closure, behind those in `done`.
pub open spec fn parameter_types(s: GenView, closure: Closure, i: nat, done: Seq<Type>) -> Result<
    Seq<Type>,
    Failure,
>
    decreases closure.parameters@.len() - i,
{
    if i >= closure.parameters@.len() {
        Ok(done)
    } else {
        match resolve(s, closure.parameters@[i as int].type_->0) {
            Err(e) => Err(e),
            Ok(ty) => parameter_types(s, closure, i + 1, done.push(ty)),
        }
    }
}

/// The type that a closure returns.
pub open spec fn return_type(s: GenView, closure: Closure) -> Result<Type, Failure> {
    match closure.ret_ty {
        Some(ty) => resolve(s, ty),
        None => Ok(Type::NoneType),
    }
}

// ---------------------------------------------------------------------------
// Closures
// ---------------------------------------------------------------------------

/// The name of the function of a closure literal.
pub open spec fn closure_name(token: Token) -> Seq<char> {
    "closure-"@ + decimal(token.line as nat) + ":"@ + decimal(token.index as nat)
}

/// The parameters of the function of a closure: first a placeholder for what
/// will be captured, then those of the literal.
pub open spec fn closure_parameters(s: GenView, closure: Closure, types: Seq<Type>) -> Seq<
    LocalView,
> {
    seq![s.next_local("this"@, false, Type::I64)] + Seq::new(
        types.len(),
        |i: int|
            LocalView {
                name: closure.parameters@[i].name.lexeme@,
                ty: types[i],
                mutable: false,
                id: (s.module.locals.len() + 1 + i) as usize,
            },
    )
}

/// The scope that holds the first `n` parameters.
pub open spec fn parameter_scope(parameters: Seq<LocalView>, n: nat) -> Map<Seq<char>, LocalView>
    decreases n,
{
    if n == 0 {
        Map::empty()
    } else {
        parameter_scope(parameters, (n - 1) as nat).insert(
            parameters[n - 1].name,
            parameters[n - 1],
        )
    }
}

/// The state inside a closure: its function is declared and is the current one.
pub open spec fn enter_closure(
    s: GenView,
    closure: Closure,
    token: Token,
    types: Seq<Type>,
    ret_type: Type,
) -> GenView {
    let parameters = closure_parameters(s, closure, types);
    let function = FunctionView {
        name: closure_name(token),
        visibility: Visibility::Public,
        parameters,
        variadic: false,
        type_parameters: Seq::empty(),
        exprs: Seq::empty(),
        variables: Map::empty(),
        ret_type,
        module: s.function().module,
    };
    GenView {
        module: ModuleView {
            functions: s.module.functions.push(function),
            declarations: s.module.declarations.insert(
                closure_name(token),
                Declaration::Function(s.module.functions.len() as usize),
            ),
            locals: s.module.locals.push(Type::I64) + types,
            ..s.module
        },
        cur: FrameView {
            function: s.module.functions.len() as usize,
            scopes: seq![parameter_scope(parameters, parameters.len())],
            uninitialized: Set::empty(),
            current_loop: None,
            captured: Seq::empty(),
        },
        outer: s.outer.push(s.cur),
        ..s
    }
}

/// The body of a function as it stands in the code: a value is returned.
pub open spec fn function_body(s: GenView, body: ExprView, token: TokenView) -> Result<
    ExprView,
    Failure,
> {
    if s.function().ret_type is NoneType {
        Ok(body)
    } else if s.function().ret_type == body.ty() {
        Ok(ExprView::Return(Box::new(body)))
    } else {
        Err(s.error(token, "Function return type does not match body type."@))
    }
}

/// The state behind a closure: its first parameter holds what was captured, and
/// the function around it is the current one again.
pub open spec fn leave_closure(s: GenView) -> GenView {
    let captured = Type::ClosureCaptured(s.module.captures.len() as usize);
    let s1 = s.with_local(captured).with_function(
        FunctionView {
            parameters: s.function().parameters.update(
                0,
                s.next_local("CLOSURE-CAPTURED"@, false, captured),
            ),
            ..s.function()
        },
    );
    GenView {
        module: ModuleView { captures: s.module.captures.push(s.cur.captured), ..s1.module },
        cur: s.outer.last(),
        outer: s.outer.drop_last(),
        ..s1
    }
}

/// The closure of the current function, stored in a variable of the function
/// around it.
pub open spec fn finish_closure(s: GenView) -> (GenView, ExprView) {
    let s1 = leave_closure(s);
    let closure = ExprView::Closure {
        function: s.cur.function,
        captured: s.module.captures.len() as usize,
        ty: s1.module.functions[s.cur.function as int].closure_type(),
    };
    let (s2, var) = s1.define("closure-literal"@, false, closure.ty());
    (s2, ExprView::Store { var, value: Box::new(closure), first_store: true })
}

// ---------------------------------------------------------------------------
// Arrays
// ---------------------------------------------------------------------------

/// The message for an array value of another type than the first.
pub open spec fn array_type_text(module: ModuleView, found: Type, first: Type) -> Seq<char> {
    "Type of array value ("@ + module.type_text(found) + ") does not match rest of array ("@
        + module.type_text(first) + ")."@
}

/// The state with calls at the end of the current function that append the first
/// `n` values to an array.
pub open spec fn push_values(
    s: GenView,
    push: Instance,
    array: ExprView,
    values: Seq<ExprView>,
    n: nat,
) -> GenView
    decreases n,
{
    if n == 0 {
        s
    } else {
        let s1 = push_values(s, push, array, values, (n - 1) as nat);
        s1.insert_at_ptr(call_function(s1.module, push, seq![array, values[n - 1]]))
    }
}

/// An array of values: it is allocated, and every value is appended to it.
pub open spec fn array_of(s: GenView, values: Seq<ExprView>) -> Out<ExprView> {
    if !s.module.prototypes.contains_key("Array"@) {
        (s, Err(Failure::Missing))
    } else {
        match build(
            s,
            s.module.prototypes["Array"@],
            seq![values[0].ty()],
            generated(TType::RightBracket, Seq::empty()),
        ) {
            Err(e) => (s, Err(e)),
            Ok(Type::Adt(inst)) => match index::lookup(
                index::entries(s.module.adts[inst.ty as int].methods),
                "push"@,
            ) {
                None => (s, Err(Failure::Missing)),
                Some(push) => match construct(
                    s,
                    inst,
                    seq![ExprView::Literal(Constant::I64(values.len() as u64))],
                    generated(TType::Var, Seq::empty()),
                ) {
                    Err(e) => (s, Err(e)),
                    Ok(array) => (
                        push_values(
                            s,
                            Instance { ty: push, args: inst.args },
                            array,
                            values,
                            values.len(),
                        ),
                        Ok(array),
                    ),
                },
            },
            Ok(_) => (s, Err(Failure::Missing)),
        }
    }
}

// ---------------------------------------------------------------------------
// Expressions of the source
// ---------------------------------------------------------------------------

/// The message for a call with the wrong number of arguments.
pub open spec fn count_text(expected: nat, given: nat) -> Seq<char> {
    "Incorrect amount of function arguments. (Expected "@ + decimal(expected) + "; got "@
        + decimal(given) + ")"@
}

/// The message for an argument of the wrong type.
pub open spec fn argument_text(module: ModuleView, found: Type, expected: Type) -> Seq<char> {
    "Call argument is the wrong type (was "@ + module.type_text(found) + ", expected "@
        + module.type_text(expected) + ")"@
}

/// The code for an expression.
pub open spec fn gen_expr(s: GenView, expression: Expression) -> Out<ExprView>
    decreases expression, 9nat,
{
    match expression {
        Expression::Assignment { name, value } => gen_assignment(s, name, *value),
        Expression::Binary { left, operator, right } => gen_binary(s, *left, operator, *right),
        Expression::Block(expressions, _) => gen_block(s, expressions),
        Expression::Break(value, token) => gen_break(s, value, token),
        Expression::Call { callee, arguments } => gen_call(s, *callee, arguments),
        Expression::For { condition, body, else_b } => gen_for(s, *condition, *body, else_b),
        Expression::Get { object, name } => gen_get(s, *object, name),
        Expression::GetStatic { object, name } => gen_get_static(s, *object, name),
        Expression::If { condition, then_branch, else_branch } => gen_if(
            s,
            *condition,
            *then_branch,
            else_branch,
        ),
        Expression::IndexGet { indexed, index, bracket } => gen_index_get(
            s,
            *indexed,
            *index,
            bracket,
        ),
        Expression::IndexSet { indexed, index, value } => gen_index_set(
            s,
            *indexed,
            *index,
            *value,
        ),
        Expression::Literal(literal, token) => gen_literal(s, literal, token),
        Expression::Return(value, token) => gen_return(s, value, token),
        Expression::SetMember { object, name, value } => gen_set(s, *object, name, *value),
        Expression::Unary { operator, right } => gen_unary(s, operator, *right),
        Expression::Variable(name) => gen_var(s, name),
        Expression::VarWithGenerics { name, generics } => gen_var_with_generics(s, name, generics),
        Expression::When { value, branches, else_branch } => gen_when(
            s,
            *value,
            branches,
            *else_branch,
        ),
        Expression::VarDef(def) => gen_var_def(s, *def),
    }
}

/// A value for a variable that may change and has the type of the value.
pub open spec fn gen_assignment(s: GenView, name: Token, value: Expression) -> Out<ExprView>
    decreases value, 10nat,
{
    match s.find_var(name.lexeme@) {
        (s1, None) => (
            s1,
            Err(s1.error(name@, "Variable '"@ + name.lexeme@ + "' is not defined"@)),
        ),
        (s1, Some(var)) => match gen_expr(s1, value) {
            (s2, Err(e)) => (s2, Err(e)),
            (s2, Ok(value)) => match var {
                VariableView::Local(local) => if local.mutable && value.ty() == local.ty {
                    (
                        s2,
                        Ok(
                            ExprView::Store {
                                var: local,
                                value: Box::new(value),
                                first_store: false,
                            },
                        ),
                    )
                } else if !local.mutable {
                    (
                        s2,
                        Err(
                            s2.error(
                                name@,
                                "Variable "@ + name.lexeme@ + " is a different type"@,
                            ),
                        ),
                    )
                } else {
                    (
                        s2,
                        Err(
                            s2.error(
                                name@,
                                "Variable "@ + name.lexeme@ + " is not assignable (val)"@,
                            ),
                        ),
                    )
                },
                VariableView::Function { .. } => (
                    s2,
                    Err(
                        s2.error(name@, "Variable "@ + name.lexeme@ + " is a different type"@),
                    ),
                ),
            },
        },
    }
}

/// A binary operation.
pub open spec fn gen_binary(
    s: GenView,
    left: Expression,
    operator: Token,
    right: Expression,
) -> Out<ExprView>
    decreases parts::binary(left, operator, right), 5nat,
{
    proof {
        parts::lemma_binary(left, operator, right);
    }
    match gen_expr(s, left) {
        (s1, Err(e)) => (s1, Err(e)),
        (s1, Ok(left)) => match gen_expr(s1, right) {
            (s2, Err(e)) => (s2, Err(e)),
            (s2, Ok(right)) => (s2, binary_of(s2, left, operator@, right)),
        },
    }
}

/// Expressions in a row, behind those in `done`.
pub open spec fn gen_all(
    s: GenView,
    expressions: Vec<Expression>,
    i: nat,
    done: Seq<ExprView>,
) -> Out<Seq<ExprView>>
    decreases expressions, expressions@.len() - i,
{
    if i >= expressions@.len() {
        (s, Ok(done))
    } else {
        match gen_expr(s, expressions@[i as int]) {
            (s1, Err(e)) => (s1, Err(e)),
            (s1, Ok(expr)) => gen_all(s1, expressions, i + 1, done.push(expr)),
        }
    }
}

/// A block, with a scope of its own.
pub open spec fn gen_block(s: GenView, expressions: Vec<Expression>) -> Out<ExprView>
    decreases expressions, expressions@.len() + 1,
{
    if expressions@.len() == 0 {
        (s, Ok(none_value()))
    } else {
        match gen_all(s.begin_scope(), expressions, 0, Seq::empty()) {
            (s1, Err(e)) => (s1, Err(e)),
            (s1, Ok(exprs)) => (s1.end_scope(), Ok(ExprView::Block(exprs))),
        }
    }
}

/// The end of a loop. All values that leave the loop have one type.
pub open spec fn gen_break(s: GenView, value: Option<Box<Expression>>, token: Token) -> Out<
    ExprView,
>
    decreases value, 10nat,
{
    if s.cur.current_loop is None {
        (s, Err(s.error(token@, "Break is only allowed in loops."@)))
    } else {
        match value {
            None => (s, Ok(ExprView::Break(None))),
            Some(value) => match gen_expr(s, *value) {
                (s1, Err(e)) => (s1, Err(e)),
                (s1, Ok(expr)) => match s1.loop_var(expr.ty()) {
                    (s2, Err(e)) => (s2, Err(e)),
                    (s2, Ok(_)) => (s2, Ok(ExprView::Break(Some(Box::new(expr))))),
                },
            },
        }
    }
}

/// The arguments of a call, behind those in `done`.
pub open spec fn gen_args_from(
    s: GenView,
    parameters: Seq<Type>,
    arguments: Vec<Expression>,
    i: nat,
    done: Seq<ExprView>,
) -> Out<Seq<ExprView>>
    decreases arguments, arguments@.len() - i,
{
    if i >= arguments@.len() {
        (s, Ok(done))
    } else {
        match gen_expr(s, arguments@[i as int]) {
            (s1, Err(e)) => (s1, Err(e)),
            (s1, Ok(arg)) => if done.len() < parameters.len() && arg.ty()
                != parameters[done.len() as int] {
                (
                    s1,
                    Err(
                        s1.error(
                            arguments@[i as int].token()@,
                            argument_text(
                                s1.module,
                                arg.ty(),
                                parameters[done.len() as int],
                            ),
                        ),
                    ),
                )
            } else {
                gen_args_from(s1, parameters, arguments, i + 1, done.push(arg))
            },
        }
    }
}

/// The arguments of a call. Those in `first` were generated before and stand in
/// front. More than there are parameters can be given only if `variadic` is set.
pub open spec fn gen_args(
    s: GenView,
    parameters: Seq<Type>,
    arguments: Vec<Expression>,
    first: Seq<ExprView>,
    variadic: bool,
    token: TokenView,
) -> Out<Seq<ExprView>>
    decreases arguments, arguments@.len() + 1,
{
    let given = arguments@.len() + first.len();
    if parameters.len() > given || (parameters.len() < given && !variadic) {
        (s, Err(s.error(token, count_text(parameters.len(), given))))
    } else {
        gen_args_from(s, parameters, arguments, 0, first)
    }
}

/// An object, and the member of it that a name stands for.
pub open spec fn gen_member(s: GenView, object: Expression, name: Token) -> Out<
    (ExprView, Member),
>
    decreases object, 10nat,
{
    match gen_expr(s, object) {
        (s1, Err(e)) => (s1, Err(e)),
        (s1, Ok(object)) => match s1.module.member(object.ty(), name.lexeme@) {
            Some(member) => (s1, Ok((object, member))),
            None => (s1, Err(s1.error(name@, "Unknown class member."@))),
        },
    }
}

/// A call of a method, if the callee is a member of an object.
pub open spec fn gen_method_call(
    s: GenView,
    callee: Expression,
    arguments: Vec<Expression>,
) -> Out<Option<ExprView>>
    decreases parts::call(callee, arguments), 4nat,
{
    proof {
        parts::lemma_call(callee, arguments);
    }
    match callee {
        Expression::Get { object, name } => if !s.cur.uninitialized.is_empty() {
            (
                s,
                Err(
                    s.error(
                        name@,
                        "Cannot call methods in constructors until all class members are initialized."@,
                    ),
                ),
            )
        } else {
            match gen_member(s, *object, name) {
                (s1, Err(e)) => (s1, Err(e)),
                (s1, Ok((object, Member::Field { .. }))) => (
                    s1,
                    Err(s1.error(name@, "Class members cannot be called."@)),
                ),
                (s1, Ok((object, Member::Method(method)))) => match s1.module.signature(method) {
                    None => (s1, Err(s1.error(name@, "Class members cannot be called."@))),
                    Some(sig) => match gen_args(
                        s1,
                        sig.parameters,
                        arguments,
                        seq![object],
                        false,
                        name@,
                    ) {
                        (s2, Err(e)) => (s2, Err(e)),
                        (s2, Ok(args)) => (
                            s2,
                            Ok(Some(call_function(s2.module, method, args))),
                        ),
                    },
                },
                (s1, Ok((object, Member::Dynamic { index, method }))) => match s1.module.signature(
                    method,
                ) {
                    None => (s1, Err(s1.error(name@, "Class members cannot be called."@))),
                    Some(sig) => match gen_args(
                        s1,
                        seq![object.ty()] + sig.parameters,
                        arguments,
                        seq![object],
                        false,
                        name@,
                    ) {
                        (s2, Err(e)) => (s2, Err(e)),
                        (s2, Ok(args)) => (
                            s2,
                            Ok(
                                Some(
                                    ExprView::CallDyn {
                                        interface: object.ty(),
                                        index,
                                        arguments: args,
                                        ty: sig.ret_type,
                                    },
                                ),
                            ),
                        ),
                    },
                },
            }
        },
        _ => (s, Ok(None)),
    }
}

/// A call of a constructor, if the callee is a data type.
pub open spec fn gen_constructor_call(
    s: GenView,
    callee: ExprView,
    arguments: Vec<Expression>,
    token: TokenView,
) -> Out<Option<ExprView>>
    decreases arguments, arguments@.len() + 1,
{
    match s.module.allocated(callee.ty()) {
        None => (s, Ok(None)),
        Some(inst) => match gen_all(s, arguments, 0, Seq::empty()) {
            (s1, Err(e)) => (s1, Err(e)),
            (s1, Ok(args)) => (
                s1,
                match construct(s1, inst, args, token) {
                    Err(e) => Err(e),
                    Ok(expr) => Ok(Some(expr)),
                },
            ),
        },
    }
}

/// A call of a method, a constructor, a function or a closure.
pub open spec fn gen_call(s: GenView, callee: Expression, arguments: Vec<Expression>) -> Out<
    ExprView,
>
    decreases parts::call(callee, arguments), 5nat,
{
    proof {
        parts::lemma_call(callee, arguments);
    }
    match gen_method_call(s, callee, arguments) {
        (s1, Err(e)) => (s1, Err(e)),
        (s1, Ok(Some(expr))) => (s1, Ok(expr)),
        (s1, Ok(None)) => match gen_expr(s1, callee) {
            (s2, Err(e)) => (s2, Err(e)),
            (s2, Ok(called)) => match gen_constructor_call(
                s2,
                called,
                arguments,
                callee.token()@,
            ) {
                (s3, Err(e)) => (s3, Err(e)),
                (s3, Ok(Some(expr))) => (s3, Ok(expr)),
                (s3, Ok(None)) => match s3.module.call_signature(called.ty()) {
                    None => (
                        s3,
                        Err(
                            s3.error(
                                callee.token()@,
                                "Only functions are allowed to be called"@,
                            ),
                        ),
                    ),
                    Some(sig) => match gen_args(
                        s3,
                        sig.parameters,
                        arguments,
                        Seq::empty(),
                        sig.variadic,
                        callee.token()@,
                    ) {
                        (s4, Err(e)) => (s4, Err(e)),
                        (s4, Ok(args)) => (
                            s4,
                            Ok(
                                ExprView::Call {
                                    callee: Box::new(called),
                                    arguments: args,
                                    ty: sig.ret_type,
                                },
                            ),
                        ),
                    },
                },
            },
        },
    }
}

/// The branch of a loop that is taken where the body never runs, and the variable
/// for the result if the branch has the type of the body.
pub open spec fn gen_for_else(s: GenView, else_b: Option<Box<Expression>>, body_type: Type) -> Out<
    (Option<ExprView>, Option<LocalView>),
>
    decreases else_b, 10nat,
{
    match else_b {
        None => (s, Ok((None, None))),
        Some(else_b) => match gen_expr(s, *else_b) {
            (s1, Err(e)) => (s1, Err(e)),
            (s1, Ok(else_val)) => if else_val.ty() == body_type {
                match s1.loop_var(body_type) {
                    (s2, Err(e)) => (s2, Err(e)),
                    (s2, Ok(var)) => (s2, Ok((Some(else_val), Some(var)))),
                }
            } else {
                (s1, Ok((Some(else_val), None)))
            },
        },
    }
}

/// A loop. Inside of it `break` is allowed; behind it the loop around it is the
/// current one again.
pub open spec fn gen_for(
    s: GenView,
    condition: Expression,
    body: Expression,
    else_b: Option<Box<Expression>>,
) -> Out<ExprView>
    decreases parts::for_loop(condition, body, else_b), 5nat,
{
    proof {
        parts::lemma_for_loop(condition, body, else_b);
    }
    match gen_expr(s.with_loop(Some(None)), condition) {
        (s1, Err(e)) => (s1, Err(e)),
        (s1, Ok(cond)) => if !(cond.ty() is Bool) {
            (
                s1,
                Err(s1.error(condition.token()@, "For condition must be a boolean."@)),
            )
        } else {
            match gen_expr(s1, body) {
                (s2, Err(e)) => (s2, Err(e)),
                (s2, Ok(body)) => match s2.loop_var(body.ty()) {
                    (s3, Err(e)) => (s3, Err(e)),
                    (s3, Ok(_)) => match gen_for_else(s3, else_b, body.ty()) {
                        (s4, Err(e)) => (s4, Err(e)),
                        (s4, Ok((else_val, result_store))) => (
                            s4.with_loop(s.cur.current_loop),
                            Ok(
                                ExprView::Loop {
                                    condition: Box::new(cond),
                                    body: Box::new(body),
                                    else_branch: match else_val {
                                        Some(e) => Some(Box::new(e)),
                                        None => None,
                                    },
                                    result_store,
                                },
                            ),
                        ),
                    },
                },
            }
        },
    }
}

/// The value of a field, which needs to have one.
pub open spec fn gen_get(s: GenView, object: Expression, name: Token) -> Out<ExprView>
    decreases object, 11nat,
{
    match gen_member(s, object, name) {
        (s1, Err(e)) => (s1, Err(e)),
        (s1, Ok((object, Member::Field { ty, index, .. }))) => if s1.cur.uninitialized.contains(
            name.lexeme@,
        ) {
            (s1, Err(s1.error(name@, "Cannot get uninitialized class member."@)))
        } else {
            (s1, Ok(ExprView::Load { object: Box::new(object), field: index, ty }))
        },
        (s1, Ok(_)) => (
            s1,
            Err(s1.error(name@, "Cannot get class method (must be called)"@)),
        ),
    }
}

/// A case of an enum.
pub open spec fn gen_get_static(s: GenView, object: Expression, name: Token) -> Out<ExprView>
    decreases object, 10nat,
{
    match gen_expr(s, object) {
        (s1, Err(e)) => (s1, Err(e)),
        (s1, Ok(object)) => match object.ty() {
            Type::Type(_) => match s1.module.allocated(object.ty()) {
                Some(inst) => match s1.module.adts[inst.ty as int].ty {
                    ADTType::Enum { cases } => if cases@.contains_key(name.lexeme@) {
                        (
                            s1,
                            Ok(
                                ExprView::TypeGet(
                                    Type::Adt(
                                        Instance { ty: cases@[name.lexeme@], args: inst.args },
                                    ),
                                ),
                            ),
                        )
                    } else {
                        (s1, Err(s1.error(name@, "Unknown enum case."@)))
                    },
                    _ => (
                        s1,
                        Err(
                            s1.error(name@, "Static access is only supported on enum types."@),
                        ),
                    ),
                },
                None => (
                    s1,
                    Err(s1.error(name@, "Static access is only supported on enum types."@)),
                ),
            },
            _ => (s1, Err(s1.error(name@, "Static access is not supported on values."@))),
        },
    }
}

/// A branch in a scope of its own, in which the variables that the condition
/// tells the type of have that type.
pub open spec fn gen_branch(s: GenView, condition: ExprView, branch: Expression) -> Out<ExprView>
    decreases branch, 10nat,
{
    let (s1, casts) = casts_of(s.begin_scope(), condition, Seq::empty());
    match gen_expr(s1, branch) {
        (s2, Err(e)) => (s2, Err(e)),
        (s2, Ok(value)) => (s2.end_scope(), Ok(ExprView::Block(casts.push(value)))),
    }
}

/// An expression that need not be there.
pub open spec fn gen_or_none(s: GenView, value: Option<Box<Expression>>) -> Out<ExprView>
    decreases value, 10nat,
{
    match value {
        Some(value) => gen_expr(s, *value),
        None => (s, Ok(none_value())),
    }
}

/// A condition with its branches. It has a value if both branches have one of the
/// same type.
pub open spec fn gen_if(
    s: GenView,
    condition: Expression,
    then_branch: Expression,
    else_branch: Option<Box<Expression>>,
) -> Out<ExprView>
    decreases parts::if_else(condition, then_branch, else_branch), 5nat,
{
    proof {
        parts::lemma_if_else(condition, then_branch, else_branch);
    }
    match gen_expr(s, condition) {
        (s1, Err(e)) => (s1, Err(e)),
        (s1, Ok(cond)) => if !(cond.ty() is Bool) {
            (s1, Err(s1.error(condition.token()@, "If condition must be a boolean"@)))
        } else {
            match gen_branch(s1, cond, then_branch) {
                (s2, Err(e)) => (s2, Err(e)),
                (s2, Ok(then_val)) => match gen_or_none(s2, else_branch) {
                    (s3, Err(e)) => (s3, Err(e)),
                    (s3, Ok(else_val)) => (
                        s3,
                        Ok(
                            ExprView::If {
                                condition: Box::new(cond),
                                then_branch: Box::new(then_val),
                                else_branch: Box::new(else_val),
                                phi: then_val.ty() == else_val.ty() && !(then_val.ty()
                                    is NoneType),
                            },
                        ),
                    ),
                },
            }
        },
    }
}

/// The element at an index, which is what the operator of the bracket gives.
pub open spec fn gen_index_get(
    s: GenView,
    indexed: Expression,
    index: Expression,
    bracket: Token,
) -> Out<ExprView>
    decreases parts::index_get(indexed, index, bracket), 5nat,
{
    proof {
        parts::lemma_index_get(indexed, index, bracket);
    }
    match gen_expr(s, indexed) {
        (s1, Err(e)) => (s1, Err(e)),
        (s1, Ok(object)) => match gen_expr(s1, index) {
            (s2, Err(e)) => (s2, Err(e)),
            (s2, Ok(place)) => (s2, binary_of(s2, object, bracket@, place)),
        },
    }
}

/// A value for the element at an index.
pub open spec fn gen_index_set(
    s: GenView,
    indexed: Expression,
    index: Expression,
    value: Expression,
) -> Out<ExprView>
    decreases parts::index_set(indexed, index, value), 5nat,
{
    proof {
        parts::lemma_index_set(indexed, index, value);
    }
    match gen_expr(s, indexed) {
        (s1, Err(e)) => (s1, Err(e)),
        (s1, Ok(object)) => match gen_expr(s1, index) {
            (s2, Err(e)) => (s2, Err(e)),
            (s2, Ok(place)) => match gen_expr(s2, value) {
                (s3, Err(e)) => (s3, Err(e)),
                (s3, Ok(val)) => match s3.module.operator_method(
                    TType::RightBracket,
                    object.ty(),
                    place.ty(),
                ) {
                    None => (
                        s3,
                        Err(
                            s3.error(
                                index.token()@,
                                "No implementation of operator found for types."@,
                            ),
                        ),
                    ),
                    Some(method) => if val.ty()
                        != s3.module.functions[method as int].parameters[2].ty {
                        (s3, Err(s3.error(value.token()@, "Setter is of wrong type."@)))
                    } else {
                        (
                            s3,
                            Ok(
                                call_function(
                                    s3.module,
                                    Instance::plain(method),
                                    seq![object, place, val],
                                ),
                            ),
                        )
                    },
                },
            },
        },
    }
}

/// A constant, an array or a closure.
pub open spec fn gen_literal(s: GenView, literal: Literal, token: Token) -> Out<ExprView>
    decreases literal, 10nat,
{
    match literal {
        Literal::Constant(constant) => (s, Ok(ExprView::Literal(constant))),
        Literal::Array(values) => gen_array(s, values),
        Literal::Closure(closure) => gen_closure(s, closure, token),
    }
}

/// The values of an array, behind those in `done`. All have the type of the
/// first.
pub open spec fn gen_values(
    s: GenView,
    values: Vec<Expression>,
    i: nat,
    done: Seq<ExprView>,
) -> Out<Seq<ExprView>>
    decreases values, values@.len() - i,
{
    if i >= values@.len() {
        (s, Ok(done))
    } else {
        match gen_expr(s, values@[i as int]) {
            (s1, Err(e)) => (s1, Err(e)),
            (s1, Ok(value)) => if done.len() > 0 && value.ty() != done[0].ty() {
                (
                    s1,
                    Err(
                        s1.error(
                            values@[i as int].token()@,
                            array_type_text(s1.module, value.ty(), done[0].ty()),
                        ),
                    ),
                )
            } else {
                gen_values(s1, values, i + 1, done.push(value))
            },
        }
    }
}

/// An array literal.
pub open spec fn gen_array(s: GenView, values: Vec<Expression>) -> Out<ExprView>
    decreases values, values@.len() + 1,
{
    if values@.len() == 0 {
        (s, Err(Failure::Missing))
    } else {
        match gen_values(s, values, 0, Seq::empty()) {
            (s1, Err(e)) => (s1, Err(e)),
            (s1, Ok(done)) => array_of(s1, done),
        }
    }
}

/// A closure literal. Its body becomes a function of its own.
pub open spec fn gen_closure(s: GenView, closure: Closure, token: Token) -> Out<ExprView>
    decreases closure, 10nat,
{
    if !closure.typed() {
        (s, Err(Failure::Missing))
    } else {
        match return_type(s, closure) {
            Err(e) => (s, Err(e)),
            Ok(ret_type) => match parameter_types(s, closure, 0, Seq::empty()) {
                Err(e) => (s, Err(e)),
                Ok(types) => match gen_expr(
                    enter_closure(s, closure, token, types, ret_type),
                    *closure.body,
                ) {
                    (s1, Err(e)) => (s1, Err(e)),
                    (s1, Ok(body)) => match function_body(s1, body, closure.body.token()@) {
                        Err(e) => (s1, Err(e)),
                        Ok(code) => {
                            let (s2, expr) = finish_closure(s1.insert_at_ptr(code));
                            (s2, Ok(expr))
                        },
                    },
                },
            },
        }
    }
}

/// The end of the function, with a value of the type that it returns.
pub open spec fn gen_return(s: GenView, value: Option<Box<Expression>>, token: Token) -> Out<
    ExprView,
>
    decreases value, 11nat,
{
    match gen_or_none(s, value) {
        (s1, Err(e)) => (s1, Err(e)),
        (s1, Ok(expr)) => if expr.ty() != s1.function().ret_type {
            (
                s1,
                Err(s1.error(token@, "Return expression in function has wrong type"@)),
            )
        } else {
            (s1, Ok(ExprView::Return(Box::new(expr))))
        },
    }
}

/// A value for a field. An immutable field can be set as long as it has no value.
pub open spec fn gen_set(s: GenView, object: Expression, name: Token, value: Expression) -> Out<
    ExprView,
>
    decreases parts::set_member(object, name, value), 5nat,
{
    proof {
        parts::lemma_set_member(object, name, value);
    }
    match gen_member(s, object, name) {
        (s1, Err(e)) => (s1, Err(e)),
        (s1, Ok((object, Member::Field { ty, mutable, index }))) => match gen_expr(s1, value) {
            (s2, Err(e)) => (s2, Err(e)),
            (s2, Ok(value)) => if value.ty() != ty {
                (s2, Err(s2.error(name@, "Class member is a different type"@)))
            } else if !mutable && !s2.cur.uninitialized.contains(name.lexeme@) {
                (s2, Err(s2.error(name@, "Cannot set immutable class member"@)))
            } else {
                (
                    GenView {
                        cur: FrameView {
                            uninitialized: s2.cur.uninitialized.remove(name.lexeme@),
                            ..s2.cur
                        },
                        ..s2
                    },
                    Ok(
                        ExprView::StoreField {
                            object: Box::new(object),
                            field: index,
                            value: Box::new(value),
                            first_set: s2.cur.uninitialized.contains(name.lexeme@),
                        },
                    ),
                )
            },
        },
        (s1, Ok(_)) => (s1, Err(s1.error(name@, "Cannot set class method"@))),
    }
}

/// A unary operation. Only booleans can be negated by `!`.
pub open spec fn gen_unary(s: GenView, operator: Token, right: Expression) -> Out<ExprView>
    decreases right, 10nat,
{
    match gen_expr(s, right) {
        (s1, Err(e)) => (s1, Err(e)),
        (s1, Ok(right)) => if operator.t_type is Bang && !(right.ty() is Bool) {
            (s1, Err(s1.error(operator@, "'!' can only be used on boolean values"@)))
        } else {
            (
                s1,
                Ok(ExprView::Unary { operator: operator.t_type, right: Box::new(right) }),
            )
        },
    }
}

/// A variable, function or type.
pub open spec fn gen_var(s: GenView, name: Token) -> Out<ExprView> {
    match s.find_var(name.lexeme@) {
        (s1, Some(var)) => (s1, Ok(ExprView::Variable(var))),
        (s1, None) => match s1.module.find_type(name.lexeme@) {
            Some(ty) => (s1, Ok(ExprView::TypeGet(ty))),
            None => (
                s1,
                Err(s1.error(name@, "Variable '"@ + name.lexeme@ + "' is not defined"@)),
            ),
        },
    }
}

/// A function or type with type arguments.
pub open spec fn gen_var_with_generics(s: GenView, name: Token, generics: Vec<ASTType>) -> Out<
    ExprView,
> {
    match resolve(s, ASTType::Generic { token: name, types: generics }) {
        Err(e) => (s, Err(e)),
        Ok(Type::Function(inst)) => (
            s,
            Ok(ExprView::Variable(s.module.function_variable(inst))),
        ),
        Ok(ty) => (s, Ok(ExprView::TypeGet(ty))),
    }
}

/// The cases of a choice, behind those in `done`. The value is compared with the
/// condition of each case, which is of its type or is a type; the branches have
/// one type.
pub open spec fn gen_cases(
    s: GenView,
    value: ExprView,
    branch_type: Type,
    branches: Vec<(Expression, Expression)>,
    i: nat,
    done: Seq<(ExprView, ExprView)>,
) -> Out<Seq<(ExprView, ExprView)>>
    decreases branches, branches@.len() - i,
{
    if i >= branches@.len() {
        (s, Ok(done))
    } else {
        let condition = branches@[i as int].0;
        let branch = branches@[i as int].1;
        match gen_expr(s, condition) {
            (s1, Err(e)) => (s1, Err(e)),
            (s1, Ok(cond)) => if cond.ty() != value.ty() && !(cond.ty() is Type) {
                (
                    s1,
                    Err(
                        s1.error(
                            condition.token()@,
                            "Branches of when must be of same type as the value compared."@,
                        ),
                    ),
                )
            } else {
                let operator = TokenView {
                    t_type: if cond.ty() is Type {
                        TType::Is
                    } else {
                        TType::EqualEqual
                    },
                    ..condition.token()@
                };
                match binary_of(s1, value, operator, cond) {
                    Err(e) => (s1, Err(e)),
                    Ok(test) => match gen_branch(s1, test, branch) {
                        (s2, Err(e)) => (s2, Err(e)),
                        (s2, Ok(result)) => if result.ty() != branch_type {
                            (
                                s2,
                                Err(
                                    s2.error(
                                        branch.token()@,
                                        "Branch results must be of same type."@,
                                    ),
                                ),
                            )
                        } else {
                            gen_cases(
                                s2,
                                value,
                                branch_type,
                                branches,
                                i + 1,
                                done.push((test, result)),
                            )
                        },
                    },
                }
            },
        }
    }
}

/// A choice between branches by a value.
pub open spec fn gen_when(
    s: GenView,
    value: Expression,
    branches: Vec<(Expression, Expression)>,
    else_branch: Expression,
) -> Out<ExprView>
    decreases parts::when(value, branches, else_branch), 5nat,
{
    proof {
        parts::lemma_when(value, branches, else_branch);
    }
    match gen_expr(s, value) {
        (s1, Err(e)) => (s1, Err(e)),
        (s1, Ok(value)) => match gen_expr(s1, else_branch) {
            (s2, Err(e)) => (s2, Err(e)),
            (s2, Ok(else_val)) => match gen_cases(
                s2,
                value,
                else_val.ty(),
                branches,
                0,
                Seq::empty(),
            ) {
                (s3, Err(e)) => (s3, Err(e)),
                (s3, Ok(cases)) => (
                    s3,
                    Ok(
                        ExprView::Switch {
                            cases,
                            else_branch: Some(Box::new(else_val)),
                            ty: Some(else_val.ty()),
                        },
                    ),
                ),
            },
        },
    }
}

/// A new variable with its first value.
pub open spec fn gen_var_def(s: GenView, def: VariableDef) -> Out<ExprView>
    decreases def, 10nat,
{
    match gen_expr(s, def.initializer) {
        (s1, Err(e)) => (s1, Err(e)),
        (s1, Ok(init)) => if init.ty() is Type {
            (
                s1,
                Err(
                    s1.error(
                        def.initializer.token()@,
                        "Cannot assign type '"@ + s1.module.type_text(init.ty())
                            + "' to a variable."@,
                    ),
                ),
            )
        } else {
            let (s2, var) = s1.define(def.name.lexeme@, def.mutable, init.ty());
            (
                s2,
                Ok(ExprView::Store { var, value: Box::new(init), first_store: true }),
            )
        },
    }
}

} // verus!
