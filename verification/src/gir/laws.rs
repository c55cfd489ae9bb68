//! What holds of types and declarations.

use crate::gir::declaration::{VariableView, Visibility};
use crate::gir::types::{Type, TypeList};
use vstd::prelude::*;

verus! {

/// What is visible with less visibility is visible with more.
pub proof fn law_visibility_grows(own: Seq<Seq<char>>, from: Seq<Seq<char>>)
    requires
        own.len() > 0,
        from.len() > 0,
    ensures
        Visibility::Private.allows(own, from) ==> Visibility::Module.allows(own, from),
        Visibility::Module.allows(own, from) ==> Visibility::Public.allows(own, from),
{
}

/// A module always sees its own declarations.
pub proof fn law_own_module_is_visible(visibility: Visibility, own: Seq<Seq<char>>)
    ensures
        visibility.allows(own, own),
{
}

/// To be the same variable is an equivalence.
pub proof fn law_variables_are_equivalent(a: VariableView, b: VariableView, c: VariableView)
    ensures
        a.same(a),
        a.same(b) ==> b.same(a),
        a.same(b) && b.same(c) ==> a.same(c),
{
}

/// Only local variables can be assigned to.
pub proof fn law_functions_are_not_assignable(var: VariableView)
    ensures
        var.assignable() ==> var is Local,
{
}

/// Without type arguments, a type stays as it is.
pub proof fn law_subst_nothing(ty: Type)
    ensures
        ty.subst(TypeList::Nil) == ty,
    decreases ty,
{
    match ty {
        Type::Function(inst) => {
            law_subst_nothing_list(inst.args);
            assert(inst.subst(TypeList::Nil) == inst);
        },
        Type::Closure(closure) => {
            law_subst_nothing_list(closure.parameters);
            law_subst_nothing(*closure.ret_type);
        },
        Type::Adt(inst) => {
            law_subst_nothing_list(inst.args);
            assert(inst.subst(TypeList::Nil) == inst);
        },
        Type::StrongRef(inst) => {
            law_subst_nothing_list(inst.args);
            assert(inst.subst(TypeList::Nil) == inst);
        },
        Type::WeakRef(inst) => {
            law_subst_nothing_list(inst.args);
            assert(inst.subst(TypeList::Nil) == inst);
        },
        Type::Type(inner) => law_subst_nothing(*inner),
        _ => {},
    }
}

/// Without type arguments, a list of types stays as it is.
pub proof fn law_subst_nothing_list(types: TypeList)
    ensures
        types.subst(TypeList::Nil) == types,
    decreases types,
{
    match types {
        TypeList::Nil => {},
        TypeList::Cons(head, tail) => {
            law_subst_nothing(*head);
            law_subst_nothing_list(*tail);
        },
    }
}

/// A type parameter becomes its argument.
pub proof fn law_subst_parameter(args: TypeList, index: usize)
    requires
        index < args@.len(),
    ensures
        Type::TypeParam(index).subst(args) == args@[index as int],
{
}

/// Numbers are integers, booleans or floating point numbers, and signed numbers
/// are integers.
pub proof fn law_number_types(ty: Type)
    ensures
        ty.signed() ==> ty.integer(),
        ty.integer() ==> ty.number(),
        ty.number() ==> ty.integer() || ty is Bool || ty is F32 || ty is F64,
{
}

} // verus!
