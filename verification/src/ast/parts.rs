//! Expressions by their parts, which are smaller than the whole.

use crate::ast::expression::Expression;
use crate::lexer::token::Token;
use vstd::prelude::*;

verus! {

/// A binary operation.
pub open spec fn binary(left: Expression, operator: Token, right: Expression) -> Expression {
    Expression::Binary { left: Box::new(left), operator, right: Box::new(right) }
}

pub proof fn lemma_binary(left: Expression, operator: Token, right: Expression)
    ensures
        decreases_to!(binary(left, operator, right) => left),
        decreases_to!(binary(left, operator, right) => right),
{
    let e = binary(left, operator, right);
    assert(decreases_to!(e => e->left) && decreases_to!(e => e->Binary_right));
}

/// A call.
pub open spec fn call(callee: Expression, arguments: Vec<Expression>) -> Expression {
    Expression::Call { callee: Box::new(callee), arguments }
}

pub proof fn lemma_call(callee: Expression, arguments: Vec<Expression>)
    ensures
        decreases_to!(call(callee, arguments) => callee),
        decreases_to!(call(callee, arguments) => arguments),
{
    let e = call(callee, arguments);
    assert(decreases_to!(e => e->callee) && decreases_to!(e => e->arguments));
}

/// A loop.
pub open spec fn for_loop(
    condition: Expression,
    body: Expression,
    else_b: Option<Box<Expression>>,
) -> Expression {
    Expression::For { condition: Box::new(condition), body: Box::new(body), else_b }
}

pub proof fn lemma_for_loop(
    condition: Expression,
    body: Expression,
    else_b: Option<Box<Expression>>,
)
    ensures
        decreases_to!(for_loop(condition, body, else_b) => condition),
        decreases_to!(for_loop(condition, body, else_b) => body),
        decreases_to!(for_loop(condition, body, else_b) => else_b),
{
    let e = for_loop(condition, body, else_b);
    assert(decreases_to!(e => e->For_condition) && decreases_to!(e => e->body)
        && decreases_to!(e => e->else_b));
}

/// A condition with its branches.
pub open spec fn if_else(
    condition: Expression,
    then_branch: Expression,
    else_branch: Option<Box<Expression>>,
) -> Expression {
    Expression::If {
        condition: Box::new(condition),
        then_branch: Box::new(then_branch),
        else_branch,
    }
}

pub proof fn lemma_if_else(
    condition: Expression,
    then_branch: Expression,
    else_branch: Option<Box<Expression>>,
)
    ensures
        decreases_to!(if_else(condition, then_branch, else_branch) => condition),
        decreases_to!(if_else(condition, then_branch, else_branch) => then_branch),
        decreases_to!(if_else(condition, then_branch, else_branch) => else_branch),
{
    let e = if_else(condition, then_branch, else_branch);
    assert(decreases_to!(e => e->If_condition) && decreases_to!(e => e->then_branch)
        && decreases_to!(e => e->If_else_branch));
}

/// The element at an index.
pub open spec fn index_get(indexed: Expression, index: Expression, bracket: Token) -> Expression {
    Expression::IndexGet { indexed: Box::new(indexed), index: Box::new(index), bracket }
}

pub proof fn lemma_index_get(indexed: Expression, index: Expression, bracket: Token)
    ensures
        decreases_to!(index_get(indexed, index, bracket) => indexed),
        decreases_to!(index_get(indexed, index, bracket) => index),
{
    let e = index_get(indexed, index, bracket);
    assert(decreases_to!(e => e->IndexGet_indexed) && decreases_to!(e => e->IndexGet_index));
}

/// A value for the element at an index.
pub open spec fn index_set(
    indexed: Expression,
    index: Expression,
    value: Expression,
) -> Expression {
    Expression::IndexSet {
        indexed: Box::new(indexed),
        index: Box::new(index),
        value: Box::new(value),
    }
}

pub proof fn lemma_index_set(indexed: Expression, index: Expression, value: Expression)
    ensures
        decreases_to!(index_set(indexed, index, value) => indexed),
        decreases_to!(index_set(indexed, index, value) => index),
        decreases_to!(index_set(indexed, index, value) => value),
{
    let e = index_set(indexed, index, value);
    assert(decreases_to!(e => e->IndexSet_indexed) && decreases_to!(e => e->IndexSet_index)
        && decreases_to!(e => e->IndexSet_value));
}

/// A value for a member.
pub open spec fn set_member(object: Expression, name: Token, value: Expression) -> Expression {
    Expression::SetMember { object: Box::new(object), name, value: Box::new(value) }
}

pub proof fn lemma_set_member(object: Expression, name: Token, value: Expression)
    ensures
        decreases_to!(set_member(object, name, value) => object),
        decreases_to!(set_member(object, name, value) => value),
{
    let e = set_member(object, name, value);
    assert(decreases_to!(e => e->SetMember_object) && decreases_to!(e => e->SetMember_value));
}

/// A choice by a value.
pub open spec fn when(
    value: Expression,
    branches: Vec<(Expression, Expression)>,
    else_branch: Expression,
) -> Expression {
    Expression::When {
        value: Box::new(value),
        branches,
        else_branch: Box::new(else_branch),
    }
}

pub proof fn lemma_when(
    value: Expression,
    branches: Vec<(Expression, Expression)>,
    else_branch: Expression,
)
    ensures
        decreases_to!(when(value, branches, else_branch) => value),
        decreases_to!(when(value, branches, else_branch) => branches),
        decreases_to!(when(value, branches, else_branch) => else_branch),
{
    let e = when(value, branches, else_branch);
    assert(decreases_to!(e => e->When_value) && decreases_to!(e => e->branches)
        && decreases_to!(e => e->When_else_branch));
}

} // verus!
