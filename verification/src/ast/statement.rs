//! Statements of a script.

use crate::ast::declaration::FunctionArg;
use crate::ast::expression::Expression;
use crate::lexer::token::Token;
use vstd::prelude::*;

verus! {

/// A function of a script.
#[derive(Debug)]
pub struct Function {
    pub name: Token,
    pub return_type: Option<Token>,
    pub parameters: Vec<FunctionArg>,
    pub body: Expression,
}

/// A variable of a script.
#[derive(Debug)]
pub struct Variable {
    pub name: Token,
    pub initializer: Expression,
}

/// A class of a script.
#[derive(Debug)]
pub struct Class {
    pub name: Token,
    pub methods: Vec<Function>,
}

/// A statement at the top level of a script.
#[derive(Debug)]
pub enum Statement {
    Class(Class),
    Expression(Expression),
    Function(Function),
    Variable(Variable),
}

} // verus!
