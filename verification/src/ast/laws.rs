//! What holds of expressions of the source.

use crate::ast::Expression;
use crate::lexer::token::{generated, TType};
use vstd::prelude::*;

verus! {

/// An expression stands in messages by its own token where it has one: its operator,
/// bracket or name. Otherwise it stands by the part that it begins with.
pub proof fn law_expressions_have_their_own_token(e: Expression)
    ensures
        match e {
            Expression::Assignment { name, .. } => e.token() == name,
            Expression::Binary { operator, .. } => e.token() == operator,
            Expression::Unary { operator, .. } => e.token() == operator,
            Expression::Block(_, token) => e.token() == token,
            Expression::Break(_, token) => e.token() == token,
            Expression::Return(_, token) => e.token() == token,
            Expression::Literal(_, token) => e.token() == token,
            Expression::Get { name, .. } => e.token() == name,
            Expression::GetStatic { name, .. } => e.token() == name,
            Expression::SetMember { name, .. } => e.token() == name,
            Expression::Variable(name) => e.token() == name,
            Expression::VarWithGenerics { name, .. } => e.token() == name,
            Expression::VarDef(def) => e.token() == def.name,
            Expression::IndexGet { bracket, .. } => e.token() == bracket,
            Expression::IndexSet { indexed, .. } => e.token() == indexed.token(),
            Expression::Call { callee, .. } => e.token() == callee.token(),
            Expression::If { condition, .. } => e.token() == condition.token(),
            Expression::For { condition, .. } => e.token() == condition.token(),
            Expression::When { value, .. } => e.token() == value.token(),
        },
{
}

/// A token that the compiler makes has its type and text, and no place.
pub proof fn law_generated_tokens_have_no_place(t_type: TType, lexeme: Seq<char>)
    ensures
        generated(t_type, lexeme).t_type == t_type,
        generated(t_type, lexeme).lexeme == lexeme,
        generated(t_type, lexeme).line == 0,
        generated(t_type, lexeme).index == 0,
{
}

} // verus!
