//! What holds of the nodes of the middle representation.

use crate::ast::Constant;
use crate::mir::builder::MIRBuilder;
use crate::mir::nodes::{law_member_type, struct_get_type, MIRExpression, MIRType};
use vstd::prelude::*;

verus! {

/// A node has the type of what it gives: a call what its function returns, a phi that
/// of its first value, a member that of the member with its index, a variable its
/// own, an operation that of its left operand or a boolean.
pub proof fn law_nodes_have_the_type_of_their_value(e: MIRExpression, builder: MIRBuilder)
    ensures
        match e {
            MIRExpression::Binary { left, operator, .. } => e.ty(builder)
                == if operator.logical() {
                Some(MIRType::Bool)
            } else {
                left.ty(builder)
            },
            MIRExpression::Bitcast { goal, .. } => e.ty(builder) == Some(MIRType::Struct(goal)),
            MIRExpression::Call { callee, .. } => e.ty(builder) matches Some(ty) ==> (callee.ty(
                builder,
            ) matches Some(MIRType::Function(f)) && f < builder.functions@.len() && ty
                == builder.functions@[f as int].ret_type),
            MIRExpression::Function(f) => e.ty(builder) matches Some(ty) ==> ty
                == MIRType::Function(f) && f < builder.functions@.len(),
            MIRExpression::Phi(branches) => branches@.len() > 0 ==> e.ty(builder)
                == branches@[0].0.ty(builder),
            MIRExpression::StructGet { object, index } => object.ty(builder) matches Some(ty)
                ==> e.ty(builder) == struct_get_type(builder, ty, index),
            MIRExpression::StructSet { object, index, .. } => object.ty(builder) matches Some(ty)
                ==> e.ty(builder) == struct_get_type(builder, ty, index),
            MIRExpression::Literal(constant) => match constant {
                Constant::NoneValue => e.ty(builder) == Some(MIRType::NoneType),
                Constant::Bool(_) => e.ty(builder) == Some(MIRType::Bool),
                Constant::I64(_) => e.ty(builder) == Some(MIRType::Int),
                Constant::F32(_) => e.ty(builder) == Some(MIRType::Float),
                Constant::F64(_) => e.ty(builder) == Some(MIRType::Double),
                Constant::String(_) => e.ty(builder) == Some(MIRType::String),
                _ => e.ty(builder) is None,
            },
            MIRExpression::Unary { operator, right } => {
                &&& operator is Bang ==> e.ty(builder) == Some(MIRType::Bool)
                &&& operator is Minus ==> e.ty(builder) == right.ty(builder)
            },
            MIRExpression::VarGet(var) => e.ty(builder) == Some(var._type),
            MIRExpression::VarStore { var, .. } => e.ty(builder) == Some(var._type),
        },
{
}

/// A call of a function that exists has a type, as has the function.
pub proof fn law_calls_have_a_type(e: MIRExpression, builder: MIRBuilder)
    ensures
        e matches MIRExpression::Function(f) ==> (f < builder.functions@.len() ==> e.ty(builder)
            is Some),
        e matches MIRExpression::Call { callee, .. } ==> (callee.ty(builder) matches Some(
            MIRType::Function(f),
        ) ==> f < builder.functions@.len() ==> e.ty(builder) is Some),
{
}

/// A member of a value is looked up in the struct of the value, by its index.
pub proof fn law_members_are_looked_up_in_their_struct(
    builder: MIRBuilder,
    struc: usize,
    name: Seq<char>,
)
    requires
        struc < builder.structs@.len(),
        builder.structs@[struc as int].wf(),
        builder.structs@[struc as int].members@.contains_key(name),
    ensures
        ({
            let member = builder.structs@[struc as int].members@[name];
            struct_get_type(builder, MIRType::Struct(struc), member.index) == Some(member._type)
        }),
{
    law_member_type(builder.structs@[struc as int], name);
}

/// Expressions that are made of the same parts have the same type.
pub proof fn law_same_expressions_have_one_type(
    a: MIRExpression,
    b: MIRExpression,
    builder: MIRBuilder,
)
    requires
        a.same(b),
    ensures
        a.ty(builder) == b.ty(builder),
    decreases a,
{
    match (a, b) {
        (MIRExpression::Binary { left, .. }, MIRExpression::Binary { left: l, .. }) => {
            law_same_expressions_have_one_type(*left, *l, builder);
        },
        (MIRExpression::Call { callee, .. }, MIRExpression::Call { callee: c, .. }) => {
            law_same_expressions_have_one_type(*callee, *c, builder);
        },
        (MIRExpression::Phi(branches), MIRExpression::Phi(o)) => {
            if branches@.len() > 0 {
                assert(branches@[0].0.same(o@[0].0));
                law_same_expressions_have_one_type(branches@[0].0, o@[0].0, builder);
            }
        },
        (MIRExpression::StructGet { object, .. }, MIRExpression::StructGet { object: o, .. }) => {
            law_same_expressions_have_one_type(*object, *o, builder);
        },
        (MIRExpression::StructSet { object, .. }, MIRExpression::StructSet { object: o, .. }) => {
            law_same_expressions_have_one_type(*object, *o, builder);
        },
        (MIRExpression::Unary { right, .. }, MIRExpression::Unary { right: r, .. }) => {
            law_same_expressions_have_one_type(*right, *r, builder);
        },
        _ => {},
    }
}

/// Expressions that are made of the same parts have the same parts in the same
/// places.
pub proof fn law_same_expressions_have_the_same_parts(a: MIRExpression, b: MIRExpression)
    requires
        a.same(b),
    ensures
        match a {
            MIRExpression::Binary { left, operator, right } => b is Binary && left.same(
                *b->Binary_left,
            ) && right.same(*b->Binary_right) && operator == b->Binary_operator,
            MIRExpression::Bitcast { object, goal } => b is Bitcast && object.same(
                *b->Bitcast_object,
            ) && goal == b->goal,
            MIRExpression::Call { callee, arguments } => b is Call && callee.same(*b->callee)
                && arguments@.len() == b->arguments@.len() && (forall|i: int|
                0 <= i < arguments@.len() ==> (#[trigger] arguments@[i]).same(b->arguments@[i])),
            MIRExpression::Function(f) => b == MIRExpression::Function(f),
            MIRExpression::Phi(branches) => b is Phi && branches@.len() == b->Phi_0@.len() && (
            forall|i: int|
                0 <= i < branches@.len() ==> (#[trigger] branches@[i]).0.same(b->Phi_0@[i].0)
                    && branches@[i].1@ == b->Phi_0@[i].1@),
            MIRExpression::StructGet { object, index } => b is StructGet && object.same(
                *b->StructGet_object,
            ) && index == b->StructGet_index,
            MIRExpression::StructSet { object, index, value } => b is StructSet && object.same(
                *b->StructSet_object,
            ) && index == b->StructSet_index && value.same(*b->StructSet_value),
            MIRExpression::Literal(constant) => b == MIRExpression::Literal(constant),
            MIRExpression::Unary { operator, right } => b is Unary && operator
                == b->Unary_operator && right.same(*b->Unary_right),
            MIRExpression::VarGet(var) => b is VarGet && var@ == b->VarGet_0@,
            MIRExpression::VarStore { var, value } => b is VarStore && var@ == b->VarStore_var@
                && value.same(*b->VarStore_value),
        },
{
}

/// A type is found by the name that it is written with.
pub proof fn law_types_are_found_by_their_text(builder: MIRBuilder, ty: MIRType)
    requires
        builder@.wf(),
        !(ty is Function),
        ty matches MIRType::Struct(i) ==> i < builder.structs@.len() && (builder@.find_type(
            builder.structs@[i as int].name@,
        ) matches Some(found) && found is Struct),
    ensures
        builder@.find_type(ty.text(builder)) == Some(ty),
{
    reveal_strlit("None");
    reveal_strlit("bool");
    reveal_strlit("i64");
    reveal_strlit("f32");
    reveal_strlit("f64");
    reveal_strlit("String");
    assert("bool"@[0] == 'b' && "None"@[0] == 'N');
    assert("i64"@[0] == 'i' && "f32"@[0] == 'f' && "f64"@[0] == 'f');
    assert("f32"@[1] == '3' && "f64"@[1] == '6');
    if let MIRType::Struct(i) = ty {
        assert(builder@.structs[i as int].name == builder.structs@[i as int].name@);
        assert(builder@.struct_names[builder@.structs[i as int].name] == i);
    }
}

} // verus!
