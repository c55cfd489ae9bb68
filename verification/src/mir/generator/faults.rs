//! What is wrong with the source is told where it stands: every error names its
//! token.

use crate::ast::{ASTType, Closure, Expression, Literal, VariableDef};
use crate::gir::declaration::VariableView;
use crate::gir::expression::ExprView;
use crate::gir::types::Type;
use crate::lexer::token::{generated, TType, Token, TokenView};
use crate::mir::generator::branches::{cases_in_row, inside, is_case, lemma_cases_upto};
use crate::mir::generator::calls::callable;
use crate::mir::generator::closures::{inside_closure, lemma_parameter_types, parameter_type};
use crate::mir::generator::code::{
    after, alike, code, in_row, lemma_operates_once, lemma_operator_from, lemma_values,
    some_declared_for, works,
};
use crate::mir::generator::model::{Failure, GenView};
use crate::mir::generator::rules::{
    gen_array, gen_assignment, gen_branch, gen_call, gen_cases, gen_closure,
    gen_constructor_call, gen_expr, gen_get, gen_get_static, gen_index_set, gen_literal,
    gen_member, gen_method_call, gen_set, gen_unary, gen_values, gen_var_def, gen_when,
    parameter_types, resolve, resolve_all, return_type,
};
use vstd::prelude::*;

verus! {

/// Is the code of an expression refused at a token, with a message, in the state
/// behind its parts?
pub open spec fn refused(
    s: GenView,
    e: Expression,
    behind: GenView,
    token: TokenView,
    msg: Seq<char>,
) -> bool {
    gen_expr(s, e) == (behind, Err::<ExprView, Failure>(behind.error(token, msg)))
}

/// What cannot be assigned to is told at the name.
pub proof fn law_wrong_assignments_are_told(s: GenView, name: Token, value: Expression)
    requires
        works(s.find_var(name.lexeme@).0, value),
    ensures
        ({
            let e = Expression::Assignment { name, value: Box::new(value) };
            let (s1, found) = s.find_var(name.lexeme@);
            let s2 = after(s1, value);
            let mine = "Variable "@ + name.lexeme@;
            match found {
                Some(VariableView::Local(var)) => {
                    &&& !var.mutable ==> refused(s, e, s2, name@, mine + " is a different type"@)
                    &&& var.mutable && var.ty != code(s1, value).ty() ==> refused(
                        s,
                        e,
                        s2,
                        name@,
                        mine + " is not assignable (val)"@,
                    )
                },
                Some(VariableView::Function { .. }) => refused(
                    s,
                    e,
                    s2,
                    name@,
                    mine + " is a different type"@,
                ),
                None => true,
            }
        }),
{
    let e = Expression::Assignment { name, value: Box::new(value) };
    assert(gen_expr(s, e) == gen_assignment(s, name, value));
}

/// A type that is stored in a variable is told at the value, by its name.
pub proof fn law_stored_types_are_told(s: GenView, def: VariableDef)
    requires
        works(s, def.initializer),
        code(s, def.initializer).ty() is Type,
    ensures
        ({
            let s1 = after(s, def.initializer);
            refused(
                s,
                Expression::VarDef(Box::new(def)),
                s1,
                def.initializer.token()@,
                "Cannot assign type '"@ + s1.module.type_text(code(s, def.initializer).ty())
                    + "' to a variable."@,
            )
        }),
{
    assert(gen_expr(s, Expression::VarDef(Box::new(def))) == gen_var_def(s, def));
}

/// A bang in front of something else than a boolean is told at the bang.
pub proof fn law_wrong_negations_are_told(s: GenView, operator: Token, right: Expression)
    requires
        works(s, right),
        operator.t_type is Bang,
        !(code(s, right).ty() is Bool),
    ensures
        refused(
            s,
            Expression::Unary { operator, right: Box::new(right) },
            after(s, right),
            operator@,
            "'!' can only be used on boolean values"@,
        ),
{
    assert(gen_expr(s, Expression::Unary { operator, right: Box::new(right) }) == gen_unary(
        s,
        operator,
        right,
    ));
}

/// What cannot be read of an object is told at the name of the member.
pub proof fn law_wrong_reads_are_told(s: GenView, object: Expression, name: Token)
    ensures
        ({
            let e = Expression::Get { object: Box::new(object), name };
            let s1 = after(s, object);
            let found = s1.module.member(code(s, object).ty(), name.lexeme@);
            &&& !works(s, object) ==> gen_expr(s, e) == gen_expr(s, object)
            &&& works(s, object) && found is None ==> refused(
                s,
                e,
                s1,
                name@,
                "Unknown class member."@,
            )
            &&& works(s, object) && found is Some && !(found->0 is Field) ==> refused(
                s,
                e,
                s1,
                name@,
                "Cannot get class method (must be called)"@,
            )
            &&& works(s, object) && found is Some && found->0 is Field
                && s1.cur.uninitialized.contains(name.lexeme@) ==> refused(
                s,
                e,
                s1,
                name@,
                "Cannot get uninitialized class member."@,
            )
        }),
{
    let e = Expression::Get { object: Box::new(object), name };
    assert(gen_expr(s, e) == gen_get(s, object, name));
    let member = gen_member(s, object, name);
    assert(works(s, object) ==> member.0 == after(s, object));
}

/// What cannot be written to an object is told at the name of the member.
pub proof fn law_wrong_writes_are_told(
    s: GenView,
    object: Expression,
    name: Token,
    value: Expression,
)
    ensures
        ({
            let e = Expression::SetMember {
                object: Box::new(object),
                name,
                value: Box::new(value),
            };
            let s1 = after(s, object);
            let s2 = after(s1, value);
            let found = s1.module.member(code(s, object).ty(), name.lexeme@);
            let is_field = works(s, object) && found is Some && found->0 is Field;
            &&& !works(s, object) ==> gen_expr(s, e) == gen_expr(s, object)
            &&& works(s, object) && found is None ==> refused(
                s,
                e,
                s1,
                name@,
                "Unknown class member."@,
            )
            &&& works(s, object) && found is Some && !(found->0 is Field) ==> refused(
                s,
                e,
                s1,
                name@,
                "Cannot set class method"@,
            )
            &&& is_field && !works(s1, value) ==> gen_expr(s, e) == gen_expr(s1, value)
            &&& is_field && works(s1, value) && code(s1, value).ty() != found->0->Field_ty
                ==> refused(s, e, s2, name@, "Class member is a different type"@)
            &&& is_field && works(s1, value) && code(s1, value).ty() == found->0->Field_ty
                && !found->0->Field_mutable && !s2.cur.uninitialized.contains(name.lexeme@)
                ==> refused(s, e, s2, name@, "Cannot set immutable class member"@)
        }),
{
    let e = Expression::SetMember { object: Box::new(object), name, value: Box::new(value) };
    assert(gen_expr(s, e) == gen_set(s, object, name, value));
    let member = gen_member(s, object, name);
    assert(works(s, object) ==> member.0 == after(s, object));
}

/// What is no case of an enum is told at the name behind the colons.
pub proof fn law_wrong_cases_are_told(s: GenView, object: Expression, name: Token)
    requires
        works(s, object),
    ensures
        ({
            let e = Expression::GetStatic { object: Box::new(object), name };
            let s1 = after(s, object);
            let ty = code(s, object).ty();
            let adt = s1.module.allocated(ty);
            let is_enum = adt is Some && s1.module.adts[adt->0.ty as int].ty is Enum;
            &&& !(ty is Type) ==> refused(
                s,
                e,
                s1,
                name@,
                "Static access is not supported on values."@,
            )
            &&& ty is Type && !is_enum ==> refused(
                s,
                e,
                s1,
                name@,
                "Static access is only supported on enum types."@,
            )
            &&& ty is Type && is_enum
                && !s1.module.adts[adt->0.ty as int].ty->cases@.contains_key(name.lexeme@)
                ==> refused(s, e, s1, name@, "Unknown enum case."@)
        }),
{
    let e = Expression::GetStatic { object: Box::new(object), name };
    assert(gen_expr(s, e) == gen_get_static(s, object, name));
}

/// What cannot be called is told at the callee, what is no method at its name.
pub proof fn law_wrong_callees_are_told(s: GenView, callee: Expression, arguments: Vec<Expression>)
    ensures
        ({
            let e = Expression::Call { callee: Box::new(callee), arguments };
            let s1 = after(s, callee);
            &&& !(callee is Get) && !works(s, callee) ==> gen_expr(s, e) == gen_expr(s, callee)
            &&& !(callee is Get) && works(s, callee) && s1.module.allocated(code(s, callee).ty())
                is None && !callable(s1.module, code(s, callee).ty()) ==> refused(
                s,
                e,
                s1,
                callee.token()@,
                "Only functions are allowed to be called"@,
            )
            &&& callee matches Expression::Get { object, name } ==> {
                let found = after(s, *object).module.member(code(s, *object).ty(), name.lexeme@);
                let free = s.cur.uninitialized.is_empty();
                &&& !free ==> refused(
                    s,
                    e,
                    s,
                    name@,
                    "Cannot call methods in constructors until all class members are initialized."@,
                )
                &&& free && !works(s, *object) ==> gen_expr(s, e) == gen_expr(s, *object)
                &&& free && works(s, *object) && found is None ==> refused(
                    s,
                    e,
                    after(s, *object),
                    name@,
                    "Unknown class member."@,
                )
                &&& free && works(s, *object) && found is Some && found->0 is Field ==> refused(
                    s,
                    e,
                    after(s, *object),
                    name@,
                    "Class members cannot be called."@,
                )
            }
        }),
{
    let e = Expression::Call { callee: Box::new(callee), arguments };
    assert(gen_expr(s, e) == gen_call(s, callee, arguments));
    let method = gen_method_call(s, callee, arguments);
    match callee {
        Expression::Get { object, name } => {
            let member = gen_member(s, *object, name);
            assert(works(s, *object) ==> member.0 == after(s, *object));
        },
        _ => {
            assert(method == (s, Ok::<_, Failure>(None::<ExprView>)));
            if works(s, callee) {
                let s1 = after(s, callee);
                let built = gen_constructor_call(
                    s1,
                    code(s, callee),
                    arguments,
                    callee.token()@,
                );
                if s1.module.allocated(code(s, callee).ty()) is None {
                    assert(built == (s1, Ok::<_, Failure>(None::<ExprView>)));
                }
            }
        },
    }
}

/// An element that cannot be set is told at the index, a value of the wrong type at
/// the value.
pub proof fn law_wrong_setters_are_told(
    s: GenView,
    indexed: Expression,
    index: Expression,
    value: Expression,
)
    ensures
        ({
            let e = Expression::IndexSet {
                indexed: Box::new(indexed),
                index: Box::new(index),
                value: Box::new(value),
            };
            let s1 = after(s, indexed);
            let s2 = after(s1, index);
            let s3 = after(s2, value);
            let all = works(s, indexed) && works(s1, index) && works(s2, value);
            let known = some_declared_for(
                s3,
                TType::RightBracket,
                code(s, indexed).ty(),
                code(s1, index).ty(),
            );
            &&& !works(s, indexed) ==> gen_expr(s, e) == gen_expr(s, indexed)
            &&& works(s, indexed) && !works(s1, index) ==> gen_expr(s, e) == gen_expr(s1, index)
            &&& works(s, indexed) && works(s1, index) && !works(s2, value) ==> gen_expr(s, e)
                == gen_expr(s2, value)
            &&& all && !known ==> refused(
                s,
                e,
                s3,
                index.token()@,
                "No implementation of operator found for types."@,
            )
            &&& all && known && !works(s, e) ==> refused(
                s,
                e,
                s3,
                value.token()@,
                "Setter is of wrong type."@,
            )
        }),
{
    let e = Expression::IndexSet {
        indexed: Box::new(indexed),
        index: Box::new(index),
        value: Box::new(value),
    };
    assert(gen_expr(s, e) == gen_index_set(s, indexed, index, value));
    let s1 = after(s, indexed);
    let s3 = after(after(s1, index), value);
    lemma_operator_from(
        s3,
        TType::RightBracket,
        code(s, indexed).ty(),
        code(s1, index).ty(),
        0,
    );
}

/// A value that leaves a loop with another type than those before it is told.
pub proof fn law_wrong_loop_values_are_told(s: GenView, ty: Type)
    requires
        s.cur.current_loop is Some,
        s.cur.current_loop->0 is Some,
        s.cur.current_loop->0->0.ty != ty,
    ensures
        s.loop_var(ty).1 matches Err(f) && f == s.error(
            generated(TType::Break, Seq::empty()),
            "Break expressions + for body must have same type"@,
        ),
{
}

/// A condition of a choice that is neither a type nor of the type of the value is
/// told at the condition.
pub proof fn law_wrong_choices_are_told(
    s: GenView,
    value: Expression,
    branches: Vec<(Expression, Expression)>,
    else_branch: Expression,
    k: nat,
    states: Seq<GenView>,
    cases: Seq<(ExprView, ExprView)>,
)
    requires
        works(s, value),
        works(after(s, value), else_branch),
        k < branches@.len(),
        cases_in_row(states, code(s, value), branches@.take(k as int), cases),
        states[0] == after(after(s, value), else_branch),
        forall|j: int|
            0 <= j < cases.len() ==> (#[trigger] cases[j]).1.ty() == code(
                after(s, value),
                else_branch,
            ).ty(),
    ensures
        ({
            let e = Expression::When {
                value: Box::new(value),
                branches,
                else_branch: Box::new(else_branch),
            };
            let t = states[k as int];
            let condition = branches@[k as int].0;
            let t1 = after(t, condition);
            &&& !works(t, condition) ==> gen_expr(s, e).1 == gen_expr(t, condition).1
            &&& works(t, condition) && !(code(t, condition).ty() is Type) && code(t, condition).ty()
                != code(s, value).ty() ==> refused(
                s,
                e,
                t1,
                condition.token()@,
                "Branches of when must be of same type as the value compared."@,
            )
        }),
{
    let e = Expression::When {
        value: Box::new(value),
        branches,
        else_branch: Box::new(else_branch),
    };
    assert(gen_expr(s, e) == gen_when(s, value, branches, else_branch));
    let ty = code(after(s, value), else_branch).ty();
    lemma_cases_upto(states, code(s, value), ty, branches, cases, k);
    let step = gen_cases(states[k as int], code(s, value), ty, branches, k, cases);
    assert(works(states[k as int], branches@[k as int].0) || step.1 is Err);
}

/// A branch of a choice that has another type than the branch for no case is told at
/// the branch.
pub proof fn law_wrong_branches_are_told(
    s: GenView,
    value: Expression,
    branches: Vec<(Expression, Expression)>,
    else_branch: Expression,
    k: nat,
    states: Seq<GenView>,
    cases: Seq<(ExprView, ExprView)>,
    case: (ExprView, ExprView),
)
    requires
        works(s, value),
        works(after(s, value), else_branch),
        k < branches@.len(),
        cases_in_row(states, code(s, value), branches@.take(k as int), cases),
        states[0] == after(after(s, value), else_branch),
        forall|j: int|
            0 <= j < cases.len() ==> (#[trigger] cases[j]).1.ty() == code(
                after(s, value),
                else_branch,
            ).ty(),
        is_case(
            states[k as int],
            code(s, value),
            branches@[k as int].0,
            branches@[k as int].1,
            case,
        ),
        case.1.ty() != code(after(s, value), else_branch).ty(),
    ensures
        refused(
            s,
            Expression::When {
                value: Box::new(value),
                branches,
                else_branch: Box::new(else_branch),
            },
            after(
                inside(after(states[k as int], branches@[k as int].0), case.0),
                branches@[k as int].1,
            ).end_scope(),
            branches@[k as int].1.token()@,
            "Branch results must be of same type."@,
        ),
{
    let e = Expression::When {
        value: Box::new(value),
        branches,
        else_branch: Box::new(else_branch),
    };
    assert(gen_expr(s, e) == gen_when(s, value, branches, else_branch));
    let ty = code(after(s, value), else_branch).ty();
    lemma_cases_upto(states, code(s, value), ty, branches, cases, k);
    let (condition, branch) = branches@[k as int];
    let t = states[k as int];
    let t1 = after(t, condition);
    let c = code(t, condition);
    let operator = TokenView {
        t_type: if c.ty() is Type {
            TType::Is
        } else {
            TType::EqualEqual
        },
        ..condition.token()@
    };
    lemma_operates_once(t1, code(s, value), operator, c, case.0);
    let made = gen_branch(t1, case.0, branch);
    assert(made.1 == Ok::<_, Failure>(case.1));
    let step = gen_cases(t, code(s, value), ty, branches, k, cases);
    assert(step.1 is Err);
}

/// A value of an array that has another type than the first is told at that value.
pub proof fn law_wrong_array_values_are_told(
    s: GenView,
    values: Vec<Expression>,
    token: Token,
    k: nat,
    states: Seq<GenView>,
    codes: Seq<ExprView>,
)
    requires
        0 < k < values@.len(),
        in_row(states, values@.take(k as int), codes),
        states[0] == s,
        alike(codes),
        works(states[k as int], values@[k as int]),
        code(states[k as int], values@[k as int]).ty() != codes[0].ty(),
    ensures
        ({
            let t = after(states[k as int], values@[k as int]);
            refused(
                s,
                Expression::Literal(Literal::Array(values), token),
                t,
                values@[k as int].token()@,
                "Type of array value ("@ + t.module.type_text(
                    code(states[k as int], values@[k as int]).ty(),
                ) + ") does not match rest of array ("@ + t.module.type_text(codes[0].ty()) + ")."@,
            )
        }),
{
    let e = Expression::Literal(Literal::Array(values), token);
    assert(gen_expr(s, e) == gen_literal(s, Literal::Array(values), token));
    assert(gen_literal(s, Literal::Array(values), token) == gen_array(s, values));
    lemma_values(values, k, states, codes);
    let step = gen_values(states[k as int], values, k, codes);
    assert(step.1 is Err);
}

/// A body of a closure that has another type than the closure returns is told at the
/// body.
pub proof fn law_wrong_bodies_are_told(s: GenView, closure: Closure, token: Token)
    requires
        closure.typed(),
        return_type(s, closure) is Ok,
        forall|i: int|
            0 <= i < closure.parameters@.len() ==> (#[trigger] parameter_type(s, closure, i)) is Ok,
        works(inside_closure(s, closure, token), *closure.body),
        ({
            let t = after(inside_closure(s, closure, token), *closure.body);
            !(t.function().ret_type is NoneType) && t.function().ret_type != code(
                inside_closure(s, closure, token),
                *closure.body,
            ).ty()
        }),
    ensures
        refused(
            s,
            Expression::Literal(Literal::Closure(closure), token),
            after(inside_closure(s, closure, token), *closure.body),
            closure.body.token()@,
            "Function return type does not match body type."@,
        ),
{
    let e = Expression::Literal(Literal::Closure(closure), token);
    assert(gen_expr(s, e) == gen_literal(s, Literal::Closure(closure), token));
    assert(gen_literal(s, Literal::Closure(closure), token) == gen_closure(s, closure, token));
    lemma_parameter_types(s, closure, 0, Seq::empty());
    let types = Seq::new(closure.parameters@.len(), |i: int| parameter_type(s, closure, i)->Ok_0);
    assert(parameter_types(s, closure, 0, Seq::empty())->Ok_0 =~= types);
}

/// A name that stands for no type is told at that name.
pub proof fn law_unknown_types_are_told(s: GenView, token: Token, types: Vec<ASTType>)
    ensures
        match s.module.find_type(token.lexeme@) {
            Some(ty) => resolve(s, ASTType::Ident(token)) == Ok::<Type, Failure>(ty),
            None => resolve(s, ASTType::Ident(token)) == Err::<Type, Failure>(
                s.error(token@, "Unknown type."@),
            ),
        },
        resolve_all(s, types, 0, Seq::empty()) is Ok && !s.module.prototypes.contains_key(
            token.lexeme@,
        ) ==> resolve(s, ASTType::Generic { token, types }) == Err::<Type, Failure>(
            s.error(token@, "Unknown type."@),
        ),
        resolve_all(s, types, 0, Seq::empty()) is Ok && s.module.prototypes.contains_key(
            token.lexeme@,
        ) && resolve(s, ASTType::Generic { token, types }) is Err ==> resolve(
            s,
            ASTType::Generic { token, types },
        ) == Err::<Type, Failure>(s.error(token@, "Wrong amount of type parameters."@)),
{
    reveal_with_fuel(resolve, 2);
}

} // verus!
